//! Who is listened to, and what is said and believed: callers and their programs,
//! frames and answers, agents and what they report.

use vstd::prelude::*;

use super::account::{
    directory_is_missing, environment_path, require_root, validate_peer_process, zero_split,
    AccountError, BuildAccount, InstallFacts, ProgramFacts, UnixAccount, UserInstallContext,
};
use super::acceptance::{is_name, is_straight};
use super::activation::{activated_names, ActivationError};
use super::agent::{
    answer_redeploy, answer_repair, answer_resolve, answer_status, describe, requested_action,
    AgentAction,
};
use super::builder::{
    build_paths, check_reported_version, deadline_step, expected_checksum, registry_ca_path,
    registry_files, rustup_target, rustup_url, secret_paths, verify_installer, ArtifactFacts,
    ArtifactOwner, BuildError, BuildPaths, DeadlineStep, SecretFile,
};
use super::client::ManagementClient;
use super::job::RedeployRequest;
use super::lifecycle::{AgentLifecycleCommand, LifecycleAction, LifecycleError};
use super::product::ManagedProduct;
use super::protocol::{
    read_frame, write_frame, AgentInfo, JobId, ManagementError, ManagementRequest,
    ManagementResponse, PeerCredentials, ProtocolError, RedeployJob, RedeployOutcome,
    RepairOutcome, RequestEnvelope, RequestId, ResponseBody, ResponseEnvelope,
};
use super::release::{CargoConfiguration, ResolvedRelease};
use super::systemd::{
    counts_as_enabled, counts_as_running, removable_socket, stop_wait, StopWait, SystemdError,
    UnitActivity, UnitFileActivity,
};
use super::user_install::{check_orphan, ephemeral_root, UserInstallError};
use super::user_program::{
    InstallStep, UserProgramError, UserProgramUpdate, UserProgramUpdateOptions,
};
use super::worker::{keeps_waiting, management_health, validate_health, HealthError};
use crate::digest;
use crate::duration::Duration;
use crate::search::lemma_first_failing;
use crate::text;
use crate::text::texts;
use crate::text_laws::law_white_space_parts_words;
use crate::unix_path;
use crate::unix_path::path;
use crate::version::Version;

verus! {

// ---------------------------------------------------------------------------
// Callers and their programs
// ---------------------------------------------------------------------------

/// Whether a program is a regular file of a user's that someone may execute.
pub open spec fn is_program_of(facts: ProgramFacts, uid: u32) -> bool {
    facts.found && facts.regular && facts.uid == uid && (facts.mode & 1 != 0 || facts.mode & 8 != 0
        || facts.mode & 64 != 0)
}

/// Whether Cargo's executable is a program of the user's, or the user's own link to
/// the Rustup beside it, which is a program of the user's.
pub open spec fn is_cargo_of(
    cargo: Seq<char>,
    facts: ProgramFacts,
    rustup: Seq<char>,
    rustup_facts: ProgramFacts,
    uid: u32,
) -> bool {
    ||| is_program_of(facts, uid)
    ||| {
        &&& facts.found && !facts.regular && facts.symlink && facts.uid == uid
        &&& facts.link_target matches Some(target) && path(target@) == path("rustup"@)
        &&& unix_path::parent(path(cargo)) == unix_path::parent(path(rustup))
        &&& unix_path::file_name(path(rustup)) == Some("rustup"@)
        &&& is_program_of(rustup_facts, uid)
    }
}

proof fn lemma_executable(mode: u32)
    ensures
        (mode & 0o111 != 0) == (mode & 1 != 0 || mode & 8 != 0 || mode & 64 != 0),
{
    assert((mode & 0o111 != 0) == (mode & 1 != 0 || mode & 8 != 0 || mode & 64 != 0))
        by (bit_vector);
}

/// A user's installation is captured exactly where the user has installed the
/// binary and the tools beside it are the user's own programs; where the binary
/// is not there, there is nothing to capture.
pub proof fn law_only_the_users_own_programs_are_captured(
    context: UserInstallContext,
    facts: InstallFacts,
    r: Result<Option<UserInstallContext>, AccountError>,
)
    requires
        call_ensures(UserInstallContext::capture, (context, &facts), r),
    ensures
        ({
            let installed = is_program_of(facts.installed_binary, context.uid);
            let tools = is_program_of(facts.rustup, context.uid) && is_cargo_of(
                context.cargo@,
                facts.cargo,
                context.rustup@,
                facts.rustup,
                context.uid,
            );
            &&& !installed <==> (r matches Ok(None))
            &&& installed && tools <==> (r matches Ok(Some(captured)) && captured == context)
            &&& installed && !tools <==> r is Err
        }),
{
    lemma_executable(facts.installed_binary.mode);
    lemma_executable(facts.rustup.mode);
    lemma_executable(facts.cargo.mode);
}

/// A captured installation is used only while its account, its home, its place and
/// its programs are what they were, all of it in the user's home.
pub proof fn law_a_changed_installation_is_refused(
    context: UserInstallContext,
    account: UnixAccount,
    binary: &str,
    facts: InstallFacts,
    r: Result<UnixAccount, AccountError>,
)
    requires
        call_ensures(UserInstallContext::revalidate, (&context, account, binary, &facts), r),
    ensures
        r matches Ok(same) ==> same == account,
        r is Ok <==> {
            let home = path(context.home@);
            &&& account.name@ == context.account_name@
            &&& account.gid == context.gid
            &&& path(account.home@) == home
            &&& path(context.installed_binary@) == path(
                unix_path::joined(unix_path::joined(context.cargo_home@, "bin"@), binary@),
            )
            &&& is_inside(context.cargo_home@, context.home@)
            &&& is_inside(context.rustup_home@, context.home@)
            &&& is_inside(context.cargo@, context.home@)
            &&& is_inside(context.rustup@, context.home@)
            &&& is_inside(context.installed_binary@, context.home@)
            &&& is_program_of(facts.rustup, context.uid)
            &&& is_cargo_of(
                context.cargo@,
                facts.cargo,
                context.rustup@,
                facts.rustup,
                context.uid,
            )
            &&& is_program_of(facts.installed_binary, context.uid)
        },
{
    lemma_executable(facts.installed_binary.mode);
    lemma_executable(facts.rustup.mode);
    lemma_executable(facts.cargo.mode);
    lemma_inside(context.cargo_home@, context.home@);
    lemma_inside(context.rustup_home@, context.home@);
    lemma_inside(context.cargo@, context.home@);
    lemma_inside(context.rustup@, context.home@);
    lemma_inside(context.installed_binary@, context.home@);
}

/// Whether a path starts at the root, never goes up, and is a directory or beneath
/// it.
pub open spec fn is_inside(p: Seq<char>, directory: Seq<char>) -> bool {
    &&& is_straight(path(p))
    &&& path(directory).absolute
    &&& path(directory).parts.is_prefix_of(path(p).parts)
}

proof fn lemma_inside(p: Seq<char>, directory: Seq<char>)
    ensures
        super::account::in_home(directory, p) == is_inside(p, directory),
{
    let v = path(p);
    if v.absolute && v.parts.contains(unix_path::dot_dot()) {
        let i = choose|i: int| 0 <= i < v.parts.len() && v.parts[i] == unix_path::dot_dot();
        assert(v.parts[i] == seq!['.', '.']);
    }
    if v.absolute && !is_straight(v) {
        let i = choose|i: int| 0 <= i < v.parts.len() && #[trigger] v.parts[i] == seq!['.', '.'];
        assert(v.parts.contains(unix_path::dot_dot()));
    }
}

/// A user's Cargo installation is looked for where the user's environment says, or
/// else in the usual directories, and only inside the user's home.
pub proof fn law_an_installation_is_looked_for_in_the_home(
    account: UnixAccount,
    cargo_home: Option<String>,
    rustup_home: Option<String>,
    binary: &str,
    r: Result<UserInstallContext, AccountError>,
)
    requires
        call_ensures(
            UserInstallContext::locate,
            (&account, cargo_home, rustup_home, binary),
            r,
        ),
    ensures
        r matches Ok(c) ==> {
            &&& c.uid == account.uid && c.gid == account.gid && c.home@ == account.home@
                && c.account_name@ == account.name@
            &&& is_inside(c.cargo_home@, account.home@)
            &&& is_inside(c.rustup_home@, account.home@)
            &&& cargo_home matches Some(given) ==> c.cargo_home@ == given@
            &&& rustup_home matches Some(given) ==> c.rustup_home@ == given@
            &&& cargo_home is None ==> c.cargo_home@ == unix_path::joined(
                account.home@,
                ".cargo"@,
            )
            &&& rustup_home is None ==> c.rustup_home@ == unix_path::joined(
                account.home@,
                ".rustup"@,
            )
            &&& c.cargo@ == unix_path::joined(c.cargo_home@, "bin/cargo"@)
            &&& c.rustup@ == unix_path::joined(c.cargo_home@, "bin/rustup"@)
            &&& c.installed_binary@ == unix_path::joined(
                unix_path::joined(c.cargo_home@, "bin"@),
                binary@,
            )
        },
        cargo_home is Some && !is_inside(cargo_home->0@, account.home@) ==> r is Err,
        rustup_home is Some && !is_inside(rustup_home->0@, account.home@) ==> r is Err,
        cargo_home is Some && rustup_home is Some && is_inside(cargo_home->0@, account.home@)
            && is_inside(rustup_home->0@, account.home@) ==> r is Ok,
{
    let a = super::account::chosen_home(account.home@, cargo_home, ".cargo"@);
    let b = super::account::chosen_home(account.home@, rustup_home, ".rustup"@);
    lemma_inside(a, account.home@);
    lemma_inside(b, account.home@);
}

/// A caller's process is believed exactly where its effective user, the user of
/// the connection and the user of the account are one.
pub proof fn law_a_caller_is_who_it_says(
    peer: PeerCredentials,
    account: UnixAccount,
    status: &str,
    effective: Result<u32, AccountError>,
    r: Result<(), AccountError>,
)
    requires
        call_ensures(super::account::read_effective_uid, (status,), effective),
        call_ensures(validate_peer_process, (peer, &account, status), r),
    ensures
        r is Ok <==> (effective matches Ok(uid) && uid == peer.uid && uid == account.uid),
{
}

/// The effective user of a process is the second number behind the first `Uid:` of
/// its status.
pub proof fn law_the_effective_user_is_read(
    status: &str,
    before: Seq<char>,
    own: nat,
    effective: u32,
    rest: Seq<char>,
    after: Seq<char>,
    r: Result<u32, AccountError>,
)
    requires
        call_ensures(super::account::read_effective_uid, (status,), r),
        before.len() == 0 || before.last() == '\n',
        forall|i: int|
            0 <= i < text::split(before, '\n').len() ==> !"Uid:"@.is_prefix_of(
                #[trigger] text::split(before, '\n')[i],
            ),
        forall|i: int| 0 <= i < rest.len() ==> #[trigger] rest[i] != '\n' && rest[i] != '\r',
        status@ == before + ("Uid:\t"@ + text::decimal(own) + "\t"@ + text::decimal(
            effective as nat,
        ) + "\t"@ + rest).push('\n') + after,
    ensures
        r == Ok::<u32, AccountError>(effective),
{
    let line = "Uid:\t"@ + text::decimal(own) + "\t"@ + text::decimal(effective as nat) + "\t"@
        + rest;
    reveal_strlit("Uid:\t");
    reveal_strlit("Uid:");
    reveal_strlit("\t");
    text::lemma_decimal_value(own);
    text::lemma_decimal_value(effective as nat);
    let own_digits = text::decimal(own);
    let digits = text::decimal(effective as nat);
    let n = own_digits.len() as int;
    let m = digits.len() as int;
    assert(!line.contains('\n') && (line.len() > 0 && line.last() != '\r')) by {
        assert forall|i: int| 0 <= i < line.len() implies line[i] != '\n' && line[i] != '\r' by {
            if 5 <= i < 5 + n {
                assert(text::is_digit(own_digits[i - 5]));
                assert(line[i] == own_digits[i - 5]);
            } else if 6 + n <= i < 6 + n + m {
                assert(text::is_digit(digits[i - 6 - n]));
                assert(line[i] == digits[i - 6 - n]);
            } else if i >= 7 + n + m {
                assert(line[i] == rest[i - 7 - n - m]);
            }
        }
    }
    let pieces = text::split(status@, '\n');
    let first = text::split(before, '\n');
    lemma_line_between(before, line, after);
    text::lemma_split_nonempty(before, '\n');
    text::lemma_split_nonempty(after, '\n');
    let k = first.len() - 1;
    let lines = text::lines(status@);
    assert(pieces == first.drop_last() + seq![line] + text::split(after, '\n'));
    assert(pieces[k] == line);
    assert(text::without_return(line) == line);
    assert(lines.len() > k);
    assert(lines[k] == line);
    let p = |i: int| !super::account::is_uid_line(lines[i]);
    assert forall|i: int| 0 <= i < k implies #[trigger] p(i) by {
        assert(pieces[i] == first[i]);
        assert(lines[i] == text::without_return(first[i]));
        assert(!"Uid:"@.is_prefix_of(first[i]));
        let l = lines[i];
        if "Uid:"@.is_prefix_of(l) {
            assert(l.subrange(0, 4) =~= first[i].subrange(0, 4));
            assert("Uid:"@ =~= first[i].subrange(0, 4));
        }
    }
    assert("Uid:"@ =~= line.subrange(0, 4));
    assert(!p(k));
    lemma_first_failing(p, lines.len(), 0, k);
    assert(super::account::uid_line(lines) == k);
    let ids = line.skip(4);
    let none = Seq::<char>::empty();
    let tail = digits.push('\t') + rest;
    let body = own_digits.push('\t') + tail;
    assert(ids =~= none.push('\t') + body);
    law_white_space_parts_words(none, '\t', body);
    law_white_space_parts_words(own_digits, '\t', tail);
    law_white_space_parts_words(digits, '\t', rest);
    assert(forall|i: int| 0 <= i < n ==> !text::is_white(#[trigger] own_digits[i])) by {
        assert forall|i: int| 0 <= i < n implies !text::is_white(#[trigger] own_digits[i]) by {
            assert(text::is_digit(own_digits[i]));
        }
    }
    assert(forall|i: int| 0 <= i < m ==> !text::is_white(#[trigger] digits[i])) by {
        assert forall|i: int| 0 <= i < m implies !text::is_white(#[trigger] digits[i]) by {
            assert(text::is_digit(digits[i]));
        }
    }
    let found = text::words(ids);
    assert(text::words(none) == Seq::<Seq<char>>::empty());
    assert(found =~= seq![own_digits, digits] + text::words(rest));
    assert(found[1] == digits);
    text::lemma_parsed_decimal(effective as nat, u32::MAX as nat);
}

/// A line between what ends with a line feed and what follows one.
proof fn lemma_line_between(before: Seq<char>, line: Seq<char>, after: Seq<char>)
    requires
        before.len() == 0 || before.last() == '\n',
        !line.contains('\n'),
    ensures
        text::split(before + line.push('\n') + after, '\n') == text::split(
            before,
            '\n',
        ).drop_last() + seq![line] + text::split(after, '\n'),
{
    unix_path::lemma_split_single(line, '\n');
    if before.len() == 0 {
        assert(before + line.push('\n') + after =~= line.push('\n') + after);
        unix_path::lemma_split_concat(line, after, '\n');
        assert(text::split(before, '\n').drop_last() =~= Seq::empty());
        assert(text::split(before, '\n').drop_last() + seq![line] + text::split(after, '\n')
            =~= seq![line] + text::split(after, '\n'));
    } else {
        let front = before.drop_last();
        assert(before + line.push('\n') + after =~= front.push('\n') + (line.push('\n') + after));
        unix_path::lemma_split_concat(front, line.push('\n') + after, '\n');
        unix_path::lemma_split_concat(line, after, '\n');
        assert(text::split(before, '\n').drop_last() =~= text::split(front, '\n'));
        assert(text::split(front, '\n') + (seq![line] + text::split(after, '\n')) =~= text::split(
            front,
            '\n',
        ) + seq![line] + text::split(after, '\n'));
    }
}

/// The value of a variable in a process environment is that of the first entry
/// that sets it, byte for byte.
pub proof fn law_a_variable_is_read_from_the_environment(
    environment: Vec<u8>,
    name: Vec<u8>,
    before: Seq<u8>,
    value: Seq<u8>,
    after: Seq<u8>,
    r: Option<Vec<u8>>,
)
    requires
        call_ensures(environment_path, (&environment, &name), r),
        value.len() > 0,
        forall|i: int| 0 <= i < value.len() ==> #[trigger] value[i] != 0,
        forall|i: int| 0 <= i < name@.len() ==> #[trigger] name@[i] != 0,
        forall|i: int|
            0 <= i < zero_split(before).len() ==> !name@.push(61).is_prefix_of(
                #[trigger] zero_split(before)[i],
            ),
        environment@ == before.push(0) + (name@.push(61) + value).push(0) + after,
    ensures
        r matches Some(found) && found@ == value,
{
    let entry = name@.push(61u8) + value;
    lemma_zero_concat(before, entry.push(0) + after);
    lemma_zero_concat(entry, after);
    lemma_zero_single(entry);
    assert(environment@ =~= before.push(0) + (entry.push(0) + after));
    let all = zero_split(environment@);
    let first = zero_split(before);
    assert(all =~= first + seq![entry] + zero_split(after));
    let k = first.len() as int;
    let p = |i: int| !super::account::sets_variable(all[i], name@);
    assert forall|i: int| 0 <= i < k implies #[trigger] p(i) by {
        assert(all[i] == first[i]);
    }
    assert(all[k] == entry);
    assert(name@.push(61u8) =~= entry.subrange(0, name@.len() as int + 1));
    assert(!p(k));
    lemma_first_failing(p, all.len(), 0, k);
    assert(entry.skip(name@.len() as int + 1) =~= value);
}

proof fn lemma_zero_nonempty(b: Seq<u8>)
    ensures
        zero_split(b).len() > 0,
    decreases b.len(),
{
    if b.len() > 0 {
        lemma_zero_nonempty(b.drop_last());
    }
}

proof fn lemma_zero_concat(a: Seq<u8>, b: Seq<u8>)
    ensures
        zero_split(a.push(0) + b) == zero_split(a) + zero_split(b),
    decreases b.len(),
{
    let whole = a.push(0) + b;
    lemma_zero_nonempty(b);
    if b.len() == 0 {
        assert(whole =~= a.push(0));
        assert(whole.drop_last() =~= a);
        assert(zero_split(whole) =~= zero_split(a) + zero_split(b));
    } else {
        lemma_zero_concat(a, b.drop_last());
        lemma_zero_nonempty(b.drop_last());
        assert(whole.drop_last() =~= a.push(0) + b.drop_last());
        assert(whole.last() == b.last());
        assert(zero_split(whole) =~= zero_split(a) + zero_split(b));
    }
}

proof fn lemma_zero_single(s: Seq<u8>)
    requires
        forall|i: int| 0 <= i < s.len() ==> #[trigger] s[i] != 0,
    ensures
        zero_split(s) == seq![s],
    decreases s.len(),
{
    if s.len() > 0 {
        let front = s.drop_last();
        assert forall|i: int| 0 <= i < front.len() implies #[trigger] front[i] != 0 by {
            assert(s[i] != 0);
        }
        lemma_zero_single(front);
        assert(s[s.len() - 1] != 0);
        assert(front.push(s.last()) =~= s);
        assert(zero_split(s) =~= seq![s]);
    } else {
        assert(s =~= Seq::empty());
    }
}

/// An account is taken for a person's exactly where it is not root's, its number is
/// not below that of the first person, its home is a plain path that is there,
/// and its shell admits a login.
pub proof fn law_only_people_are_served(
    account: UnixAccount,
    login_defs: &str,
    home_is_dir: bool,
    least: Result<u32, AccountError>,
    r: Result<(), AccountError>,
)
    requires
        call_ensures(super::account::login_uid_min, (login_defs,), least),
        call_ensures(
            UnixAccount::validate_interactive,
            (&account, login_defs, home_is_dir),
            r,
        ),
    ensures
        r is Ok <==> {
            &&& account.uid != 0
            &&& least matches Ok(n) && account.uid >= n
            &&& unix_path::is_plain(path(account.home@))
            &&& home_is_dir
            &&& unix_path::file_name(path(account.shell@)) != Some("nologin"@)
            &&& unix_path::file_name(path(account.shell@)) != Some("false"@)
        },
{
}

/// The build account is used exactly where it lives in its own home, admits no
/// login and has its own group; all its directories are in that home and differ.
pub proof fn law_the_build_account_is_its_own(
    account: Option<UnixAccount>,
    group: Option<String>,
    r: Result<BuildAccount, AccountError>,
)
    requires
        call_ensures(BuildAccount::ensure, (account, &group), r),
    ensures
        r is Ok <==> (account matches Some(a) && path(a.home@) == path("/var/lib/capulus-build"@)
            && path(a.shell@) == path("/usr/sbin/nologin"@) && (group matches Some(g) && g@
            == "capulus-build"@)),
        r matches Ok(build) ==> {
            &&& Some(build.account) == account
            &&& build.cargo_tools_home@ == "/var/lib/capulus-build/"@ + "cargo-tools"@
            &&& build.rustup_home@ == "/var/lib/capulus-build/"@ + "rustup"@
            &&& build.cache_home@ == "/var/lib/capulus-build/"@ + "cache"@
            &&& build.target_home@ == "/var/lib/capulus-build/"@ + "target"@
            &&& build.jobs_home@ == "/var/lib/capulus-build/"@ + "jobs"@
        },
{
    reveal_strlit("/var/lib/capulus-build/");
    reveal_strlit("cargo-tools");
    reveal_strlit("rustup");
    reveal_strlit("cache");
    reveal_strlit("target");
    reveal_strlit("jobs");
    reveal_strlit("/var/lib/capulus-build/cargo-tools");
    reveal_strlit("/var/lib/capulus-build/rustup");
    reveal_strlit("/var/lib/capulus-build/cache");
    reveal_strlit("/var/lib/capulus-build/target");
    reveal_strlit("/var/lib/capulus-build/jobs");
    assert("/var/lib/capulus-build/cargo-tools"@ =~= "/var/lib/capulus-build/"@ + "cargo-tools"@);
    assert("/var/lib/capulus-build/rustup"@ =~= "/var/lib/capulus-build/"@ + "rustup"@);
    assert("/var/lib/capulus-build/cache"@ =~= "/var/lib/capulus-build/"@ + "cache"@);
    assert("/var/lib/capulus-build/target"@ =~= "/var/lib/capulus-build/"@ + "target"@);
    assert("/var/lib/capulus-build/jobs"@ =~= "/var/lib/capulus-build/"@ + "jobs"@);
}

/// Managed operations are root's, and nothing but a real directory is taken for a
/// directory of the build account.
pub proof fn law_managed_operations_are_roots(
    is_root: bool,
    r: Result<(), AccountError>,
    name: String,
    found: bool,
    is_directory: bool,
    missing: Result<bool, AccountError>,
)
    requires
        call_ensures(require_root, (is_root,), r),
        call_ensures(directory_is_missing, (&name, found, is_directory), missing),
    ensures
        r is Ok <==> is_root,
        missing == Ok::<bool, AccountError>(true) <==> !found,
        missing == Ok::<bool, AccountError>(false) <==> found && is_directory,
{
}

// ---------------------------------------------------------------------------
// Builds
// ---------------------------------------------------------------------------

/// Each job builds in a directory of its own, whose name no other product or job
/// has, with Cargo's home and the results apart in it.
pub proof fn law_each_job_builds_apart(
    jobs_home: &str,
    a: RedeployRequest,
    b: RedeployRequest,
    at_a: BuildPaths,
    at_b: BuildPaths,
)
    requires
        call_ensures(build_paths, (jobs_home, &a), at_a),
        call_ensures(build_paths, (jobs_home, &b), at_b),
        jobs_home@.len() > 0 && jobs_home@.last() != '/',
        is_name(a.product@),
        is_name(b.product@),
        a.job@.len() == 16,
        b.job@.len() == 16,
    ensures
        at_a.job_root@ == at_b.job_root@ ==> a.product@ == b.product@ && a.job@ == b.job@,
        at_a.job_root@ == jobs_home@ + "/"@ + a.product@ + "-"@ + text::hex(a.job@),
        at_a.cargo_home@ == at_a.job_root@ + "/cargo"@,
        at_a.install_root@ == at_a.job_root@ + "/install"@,
{
    reveal_strlit("/");
    reveal_strlit("-");
    reveal_strlit("cargo");
    reveal_strlit("/cargo");
    reveal_strlit("install");
    reveal_strlit("/install");
    text::lemma_hex_len(a.job@);
    text::lemma_hex_len(b.job@);
    let x = a.product@ + "-"@ + text::hex(a.job@);
    let y = b.product@ + "-"@ + text::hex(b.job@);
    assert(x[0] == a.product@[0] && y[0] == b.product@[0]);
    assert(unix_path::joined(jobs_home@, x) == jobs_home@.push('/') + x);
    assert(unix_path::joined(jobs_home@, y) == jobs_home@.push('/') + y);
    assert(jobs_home@.push('/') + x =~= jobs_home@ + "/"@ + a.product@ + "-"@ + text::hex(a.job@));
    let h = text::hex(a.job@);
    assert(text::is_lower_hex(h[31]));
    assert(at_a.job_root@.last() == h[31]);
    assert(at_a.job_root@.push('/') + "cargo"@ =~= at_a.job_root@ + "/cargo"@);
    assert(at_a.job_root@.push('/') + "install"@ =~= at_a.job_root@ + "/install"@);
    if at_a.job_root@ == at_b.job_root@ {
        let u = jobs_home@.push('/') + x;
        let v = jobs_home@.push('/') + y;
        let n = jobs_home@.len() + 1;
        assert(x =~= u.skip(n as int));
        assert(y =~= v.skip(n as int));
        assert(x == y);
        assert(text::hex(a.job@) =~= x.skip(x.len() - 32));
        assert(text::hex(b.job@) =~= y.skip(y.len() - 32));
        assert(a.product@ =~= x.take(x.len() - 33));
        assert(b.product@ =~= y.take(y.len() - 33));
        super::protocol::lemma_hex_injective(a.job@, b.job@);
    }
}

/// Everything that is written of a registry but its configuration is removed when
/// Cargo has returned: the credentials and the certificates, which the
/// configuration finds where they are written.
pub proof fn law_secrets_are_removed_after_the_build(
    cargo_home: &str,
    configuration: CargoConfiguration<'_>,
    files: Vec<SecretFile>,
    removed: Vec<String>,
    ca_path: String,
)
    requires
        call_ensures(registry_files, (cargo_home, &configuration), files),
        call_ensures(secret_paths, (cargo_home,), removed),
        call_ensures(registry_ca_path, (cargo_home,), ca_path),
    ensures
        forall|i: int|
            0 <= i < files@.len() ==> texts(removed@).contains((#[trigger] files@[i]).path@)
                || files@[i].contents@ == configuration.config@,
        exists|i: int|
            0 <= i < files@.len() && (#[trigger] files@[i]).contents@ == configuration.config@
                && files@[i].path@ == unix_path::joined(cargo_home@, "config.toml"@),
        configuration.credentials matches Some(credentials) ==> exists|i: int|
            0 <= i < files@.len() && (#[trigger] files@[i]).contents@ == credentials@
                && files@[i].path@ == unix_path::joined(cargo_home@, "credentials.toml"@),
        configuration.credentials is Some && configuration.ca_pem is Some ==> exists|i: int|
            0 <= i < files@.len() && (#[trigger] files@[i]).contents@ == configuration.ca_pem->0@
                && files@[i].path@ == ca_path@,
{
    let views = super::builder::secret_views(files@);
    let gone = texts(removed@);
    assert forall|i: int| 0 <= i < files@.len() implies views[i] == (
        (#[trigger] files@[i]).path@,
        files@[i].contents@,
    ) by {}
    assert(gone[0] == unix_path::joined(cargo_home@, "credentials.toml"@));
    assert(gone[1] == unix_path::joined(cargo_home@, "registry-ca.pem"@));
    let n = views.len() - 1;
    assert(views[n] == (unix_path::joined(cargo_home@, "config.toml"@), configuration.config@));
    assert(files@[n].contents@ == configuration.config@);
    if let Some(credentials) = configuration.credentials {
        assert(views[0] == (unix_path::joined(cargo_home@, "credentials.toml"@), credentials@));
        assert(files@[0].contents@ == credentials@);
        if let Some(pem) = configuration.ca_pem {
            assert(views[1] == (unix_path::joined(cargo_home@, "registry-ca.pem"@), pem@));
            assert(files@[1].contents@ == pem@);
        }
    }
}

/// An installer of Rustup is run only where it is not too large and its digest is
/// the one that was published for it, whatever stands behind the digest.
pub proof fn law_only_the_published_installer_is_run(
    bytes: Vec<u8>,
    response: &str,
    behind: Seq<char>,
    other: Vec<u8>,
    checksum: Result<String, BuildError>,
    expected: &str,
    r: Result<(), BuildError>,
)
    requires
        response@ == digest::digest_text(other@).push(' ') + behind,
        call_ensures(expected_checksum, (response,), checksum),
        checksum matches Ok(s) ==> expected@ == s@,
        checksum is Err ==> expected@.len() == 0,
        call_ensures(verify_installer, (&bytes, expected), r),
        digest::digest_text(other@).len() == 64,
        forall|i: int|
            0 <= i < 64 ==> text::is_lower_hex(#[trigger] digest::digest_text(other@)[i]),
    ensures
        checksum matches Ok(s) && s@ == digest::digest_text(other@),
        r is Ok <==> bytes@.len() <= 67_108_864 && digest::digest_text(bytes@)
            == digest::digest_text(other@),
{
    let d = digest::digest_text(other@);
    assert forall|i: int| 0 <= i < d.len() implies !text::is_white(#[trigger] d[i]) by {
        assert(text::is_lower_hex(d[i]));
    }
    law_white_space_parts_words(d, ' ', behind);
    assert(text::words(response@)[0] == d);
    assert(super::journal::is_digest(d)) by {
        assert forall|i: int| 0 <= i < d.len() implies super::journal::is_hex(#[trigger] d[i]) by {
            assert(text::is_lower_hex(d[i]));
        }
    }
    let lowered = d.map_values(|c: char| text::lower(c));
    assert(lowered =~= d) by {
        assert forall|i: int| 0 <= i < d.len() implies lowered[i] == d[i] by {
            assert(text::is_lower_hex(d[i]));
        }
    }
}

/// Rustup is fetched over HTTPS from its own site for the machine's platform, and
/// only for platforms that are known.
pub proof fn law_rustup_comes_from_its_site(
    architecture: &str,
    system: &str,
    r: Result<&'static str, BuildError>,
    platform: &str,
    url: String,
)
    requires
        call_ensures(rustup_target, (architecture, system), r),
        call_ensures(rustup_url, (platform,), url),
    ensures
        r is Ok <==> system@ == "linux"@ && (architecture@ == "x86_64"@ || architecture@
            == "aarch64"@),
        r matches Ok(p) ==> p@ == architecture@ + "-unknown-linux-gnu"@,
        url@ == "https://static.rust-lang.org/rustup/dist/"@ + platform@ + "/rustup-init"@,
{
    reveal_strlit("x86_64");
    reveal_strlit("aarch64");
    reveal_strlit("-unknown-linux-gnu");
    reveal_strlit("x86_64-unknown-linux-gnu");
    reveal_strlit("aarch64-unknown-linux-gnu");
    assert("x86_64-unknown-linux-gnu"@ =~= "x86_64"@ + "-unknown-linux-gnu"@);
    assert("aarch64-unknown-linux-gnu"@ =~= "aarch64"@ + "-unknown-linux-gnu"@);
}

/// A program reports a version exactly where that is the last word that it prints.
pub proof fn law_a_program_reports_its_version(
    output: &str,
    before: Seq<char>,
    last: Seq<char>,
    binary: &str,
    expected: Version,
    r: Result<(), BuildError>,
)
    requires
        call_ensures(check_reported_version, (output, binary, &expected), r),
        output@ == before.push(' ') + last.push('\n'),
        last.len() > 0,
        forall|i: int| 0 <= i < last.len() ==> !text::is_white(#[trigger] last[i]),
    ensures
        r is Ok <==> last == expected@.text(),
{
    let none = Seq::<char>::empty();
    law_white_space_parts_words(before, ' ', last.push('\n'));
    law_white_space_parts_words(last, '\n', none);
    assert(last.push('\n') + none =~= last.push('\n'));
    assert(text::words(none) == Seq::<Seq<char>>::empty());
    assert(text::words(last.push('\n')) =~= seq![last]);
    assert(text::words(output@).last() == last);
}

/// What was built is taken only from a regular file of the account that built it,
/// and run only where someone may execute it.
pub proof fn law_artifacts_are_the_builders(
    owner: ArtifactOwner,
    name: String,
    facts: ArtifactFacts,
    source: Result<(), BuildError>,
    program: Result<(), BuildError>,
)
    requires
        call_ensures(ArtifactOwner::check_source, (&owner, &name, &facts), source),
        call_ensures(ArtifactOwner::check, (&owner, &name, &facts), program),
    ensures
        source is Ok <==> facts.regular && facts.uid == owner.uid && facts.gid == owner.gid,
        program is Ok <==> source is Ok && (facts.mode & 1 != 0 || facts.mode & 8 != 0 || facts.mode
            & 64 != 0),
{
    lemma_executable(facts.mode);
}

/// A command is let run until its deadline and no longer; one that has ended counts
/// by how it ended, even at its deadline.
pub proof fn law_a_deadline_ends_what_still_runs(
    exited: Option<bool>,
    elapsed: Duration,
    timeout: Duration,
    r: DeadlineStep,
)
    requires
        call_ensures(deadline_step, (exited, elapsed, timeout), r),
    ensures
        r is Succeeded <==> exited == Some(true),
        r is Failed <==> exited == Some(false),
        r is Terminate <==> exited is None && elapsed@ >= timeout@,
        r is Wait <==> exited is None && elapsed@ < timeout@,
{
}

/// A user-program update is accepted exactly where its names are names, its
/// version is that of a release, its root is a directory other than that of the
/// whole system, and its time is from a minute to a day.
pub proof fn law_an_update_is_accepted_where_it_is_in_order(
    options: UserProgramUpdateOptions,
    text: &str,
    version: Option<Version>,
    r: Result<UserProgramUpdate, UserProgramError>,
)
    requires
        text@ == options.version@,
        call_ensures(Version::parse, (text,), version),
        call_ensures(UserProgramUpdateOptions::validate, (options,), r),
    ensures
        r is Ok <==> {
            &&& is_name(options.package@)
            &&& is_name(options.cargo_binary@)
            &&& version matches Some(v) && v.pre@.len() == 0 && v.build@.len() == 0
            &&& options.registry matches Some(name) ==> is_name(name@)
            &&& is_straight(path(options.cargo_root@))
            &&& path(options.cargo_root@) != path("/"@)
            &&& 60_000_000_000 <= options.timeout@ <= 86_400_000_000_000
        },
{
    lemma_is_name(options.package@);
    lemma_is_name(options.cargo_binary@);
    if let Some(name) = options.registry {
        lemma_is_name(name@);
    }
    lemma_inside(options.cargo_root@, options.cargo_root@);
    assert(path(options.cargo_root@).parts.is_prefix_of(path(options.cargo_root@).parts)) by {
        let parts = path(options.cargo_root@).parts;
        assert(parts.subrange(0, parts.len() as int) =~= parts);
    }
}

proof fn lemma_is_name(s: Seq<char>)
    ensures
        super::product::identifier(s) == is_name(s),
{
    if super::product::identifier(s) {
        assert forall|i: int| 0 <= i < s.len() implies ('a' <= #[trigger] s[i] <= 'z') || ('0'
            <= s[i] <= '9') || s[i] == '-' || s[i] == '_' by {
            assert(super::product::identifier_char(s[i]));
        }
    }
    if is_name(s) {
        assert forall|i: int| 0 <= i < s.len() implies super::product::identifier_char(
            #[trigger] s[i],
        ) by {}
    }
}

/// An update that runs is ended by Cargo's own end before anything else, then by
/// an interrupt, then by its time, and by nothing else.
pub proof fn law_an_update_runs_until_it_ends_or_is_ended(
    options: UserProgramUpdateOptions,
    update: UserProgramUpdate,
    exited: Option<bool>,
    cancelled: bool,
    elapsed: Duration,
    r: InstallStep,
)
    requires
        call_ensures(
            UserProgramUpdateOptions::validate,
            (options,),
            Ok::<UserProgramUpdate, UserProgramError>(update),
        ),
        call_ensures(UserProgramUpdate::install_step, (&update, exited, cancelled, elapsed), r),
    ensures
        r is Succeeded <==> exited == Some(true),
        r is Failed <==> exited == Some(false),
        r is StopCancelled <==> exited is None && cancelled,
        r is StopTimedOut <==> exited is None && !cancelled && elapsed@ >= options.timeout@,
        r is Wait <==> exited is None && !cancelled && elapsed@ < options.timeout@,
{
    update.law_an_update_is_of_its_options(options);
}

/// What an interrupted reinstallation left is removed only where it bears the name
/// of one and is a real directory of a user's; every directory that is made for
/// one bears such a name.
pub proof fn law_only_left_installations_are_removed(
    product: ManagedProduct,
    job: JobId,
    root: String,
    name: &str,
    is_directory: bool,
    uid: u32,
    r: Result<(), UserInstallError>,
)
    requires
        product@.accepted(),
        job@.len() == 16,
        call_ensures(ephemeral_root, (&product, &job), root),
        name@ == product@.product@ + "-"@ + text::hex(job@),
        call_ensures(check_orphan, (name, is_directory, uid), r),
    ensures
        root@ == "/run/capulus/user-installs/"@ + name@,
        r is Ok <==> is_directory && uid != 0,
{
    reveal_strlit("/run/capulus/user-installs");
    reveal_strlit("/run/capulus/user-installs/");
    reveal_strlit("-");
    text::lemma_hex_len(job@);
    let p = product@.product@;
    let h = text::hex(job@);
    assert(super::product::identifier_char(p[0]));
    assert(name@[0] == p[0]);
    assert("/run/capulus/user-installs"@.push('/') =~= "/run/capulus/user-installs/"@);
    lemma_hyphen_before(p, h);
    assert(name@ =~= p.push('-') + h);
    assert(name@.take(p.len() as int) =~= p);
    assert(name@.skip(p.len() as int + 1) =~= h);
}

proof fn lemma_hyphen_before(p: Seq<char>, h: Seq<char>)
    requires
        forall|i: int| 0 <= i < h.len() ==> text::is_lower_hex(#[trigger] h[i]),
    ensures
        super::user_install::last_hyphen(p.push('-') + h) == p.len(),
    decreases h.len(),
{
    let s = p.push('-') + h;
    if h.len() == 0 {
        assert(s.last() == '-');
    } else {
        let front = h.drop_last();
        assert(text::is_lower_hex(h[h.len() - 1]));
        assert(s.last() == h.last());
        assert forall|i: int| 0 <= i < front.len() implies text::is_lower_hex(#[trigger] front[i]) by {
            assert(text::is_lower_hex(h[i]));
        }
        lemma_hyphen_before(p, front);
        assert(s.drop_last() =~= p.push('-') + front);
    }
}

// ---------------------------------------------------------------------------
// Frames, answers and reports
// ---------------------------------------------------------------------------

/// A payload within the limit that is sent is read back as it was, whatever
/// follows; nothing over the limit is read, and nothing that was cut off.
pub proof fn law_a_frame_is_read_as_it_was_sent(
    payload: Vec<u8>,
    sent: Result<Vec<u8>, ManagementError>,
    received: Vec<u8>,
    rest: Seq<u8>,
    r: Result<Vec<u8>, ManagementError>,
)
    requires
        call_ensures(write_frame, (&payload,), sent),
        sent is Ok,
        received@ == sent->Ok_0@ + rest,
        call_ensures(read_frame, (&received,), r),
    ensures
        payload@.len() <= 65_536 <==> (r matches Ok(read) && read@ == payload@),
        payload@.len() > 65_536 <==> r is Err,
        sent->Ok_0@.len() == payload@.len() + 4,
        sent->Ok_0@[0] as int * 0x100_0000 + sent->Ok_0@[1] as int * 0x1_0000 + sent->Ok_0@[2] as int
            * 0x100 + sent->Ok_0@[3] as int == payload@.len(),
{
    let bytes = sent->Ok_0@;
    super::protocol::law_frame_round_trip(bytes, payload@, rest);
    let h = bytes.take(4);
    assert(h[0] == bytes[0] && h[1] == bytes[1] && h[2] == bytes[2] && h[3] == bytes[3]);
}

/// A client takes a response for an answer exactly where it bears the identifier
/// of the request and the version that the client speaks, and the version that a
/// client asks for is the one that it speaks.
pub proof fn law_a_client_believes_only_its_own_answer(
    id: RequestId,
    request: ManagementRequest,
    envelope: RequestEnvelope,
    response: ResponseEnvelope,
    r: Result<ManagementResponse, ManagementError>,
)
    requires
        call_ensures(ManagementClient::envelope, (id, request), envelope),
        call_ensures(ManagementClient::accept, (&id, response), r),
    ensures
        envelope.request_id@ == id@,
        envelope.request == request,
        envelope.minimum_protocol_major == 1 && envelope.maximum_protocol_major == 1,
        r matches Ok(answer) ==> response.request_id@ == id@ && response.protocol_major == 1
            && response.body == ResponseBody::Answer(answer),
        response.request_id@ == id@ && response.protocol_major == 1 && response.body is Answer
            ==> r is Ok,
{
}

/// The agent says what it is, tells of a release no more than its version, says why
/// it did not schedule a job, and keeps to itself why a repair failed or a job
/// was not found.
pub proof fn law_an_agent_says_no_more_than_it_should(
    product: ManagedProduct,
    described: Result<ManagementResponse, ProtocolError>,
    a: ResolvedRelease,
    b: ResolvedRelease,
    of_a: Result<ManagementResponse, ProtocolError>,
    of_b: Result<ManagementResponse, ProtocolError>,
    scheduled: Result<RedeployOutcome, String>,
    redeploy: Result<ManagementResponse, ProtocolError>,
    found: Option<RedeployJob>,
    status: Result<ManagementResponse, ProtocolError>,
    repaired: Option<RepairOutcome>,
    repair: Result<ManagementResponse, ProtocolError>,
)
    requires
        call_ensures(describe, (&product,), described),
        call_ensures(answer_resolve, (&Ok(a),), of_a),
        call_ensures(answer_resolve, (&Ok(b),), of_b),
        a.version@ == b.version@,
        call_ensures(answer_redeploy, (scheduled,), redeploy),
        call_ensures(answer_status, (found,), status),
        call_ensures(answer_repair, (repaired,), repair),
    ensures
        described matches Ok(ManagementResponse::Info(info)) && info.product@ == product@.product@
            && info.package@ == product@.package@ && info.version@ == product@.version@.text()
            && info.protocol_major == 1,
        of_a matches Ok(ManagementResponse::Resolved { version: x }) && (of_b matches Ok(
            ManagementResponse::Resolved { version: y },
        ) && x@ == y@ && x@ == a.version@.text()),
        scheduled matches Ok(outcome) ==> redeploy == Ok::<ManagementResponse, ProtocolError>(
            ManagementResponse::Redeploy(outcome),
        ),
        scheduled matches Err(why) ==> (redeploy matches Err(e) && e.message@ == why@),
        found matches Some(job) ==> status == Ok::<ManagementResponse, ProtocolError>(
            ManagementResponse::Job(job),
        ),
        found is None ==> status is Err,
        repaired matches Some(outcome) ==> repair == Ok::<ManagementResponse, ProtocolError>(
            ManagementResponse::Repair(outcome),
        ),
        repaired is None ==> repair is Err,
{
}

/// Each method of the protocol is taken for what it asks, and what is not known is
/// refused.
pub proof fn law_requests_are_taken_for_what_they_ask(request: ManagementRequest, r: AgentAction)
    requires
        call_ensures(requested_action, (request,), r),
    ensures
        r is Describe <==> request is Info,
        r is Repair <==> request is Repair,
        r is Refuse <==> request is Unknown,
        request matches ManagementRequest::Resolve { target } ==> r == AgentAction::Resolve(target),
        request matches ManagementRequest::JobStatus { job } ==> r == AgentAction::LookUp(job),
        request matches ManagementRequest::Redeploy { target, reinstall_requesting_user } ==> (
        r matches AgentAction::Redeploy { target: t, reinstall_requesting_user: u } && t == target
            && u == reinstall_requesting_user),
{
}

/// A hidden worker command runs exactly the job that it names, and only as root.
pub proof fn law_a_worker_runs_the_job_that_it_is_given(
    product: ManagedProduct,
    job: JobId,
    named: String,
    is_root: bool,
    r: Result<LifecycleAction, LifecycleError>,
)
    requires
        job@.len() == 16,
        named@ == text::hex(job@),
        call_ensures(
            AgentLifecycleCommand::run,
            (&AgentLifecycleCommand::RedeployWorker { job: named }, &product, is_root),
            r,
        ),
    ensures
        is_root <==> (r matches Ok(LifecycleAction::RunWorker { job: id, .. }) && id@ == job@),
        !is_root ==> r is Err,
{
    text::lemma_hex_len(job@);
    if let Ok(LifecycleAction::RunWorker { job: id, .. }) = r {
        if is_root {
            super::protocol::lemma_hex_injective(id@, job@);
        }
    }
}

/// An agent is healthy exactly where it says that it is this product and package,
/// in this version, with the protocol that is spoken here; no other answer counts,
/// and the wait for it lasts a minute.
pub proof fn law_only_the_expected_agent_is_healthy(
    info: AgentInfo,
    product: &str,
    package: &str,
    expected: Version,
    r: Result<(), HealthError>,
    response: Result<ManagementResponse, String>,
    answered: Result<(), HealthError>,
    elapsed: Duration,
    waits: bool,
)
    requires
        call_ensures(validate_health, (&info, product, package, &expected), r),
        call_ensures(management_health, (response, product, package, &expected), answered),
        call_ensures(keeps_waiting, (&elapsed,), waits),
    ensures
        r is Ok <==> info.product@ == product@ && info.package@ == package@ && info.version@
            == expected@.text() && info.protocol_major == 1,
        answered is Ok ==> (response matches Ok(ManagementResponse::Info(said)) && said.product@
            == product@ && said.package@ == package@ && said.version@ == expected@.text()
            && said.protocol_major == 1),
        response == Ok::<ManagementResponse, String>(ManagementResponse::Info(info)) ==> (answered
            is Ok <==> r is Ok),
        waits <==> elapsed@ < 60_000_000_000,
{
}

/// A process takes over descriptors only where they were passed to it, no more than
/// the limit, with the names that are required.
pub proof fn law_descriptors_are_taken_only_by_their_process(
    pid: Option<String>,
    process: u32,
    fds: Option<String>,
    names: Option<String>,
    required: &[&str],
    r: Result<Vec<String>, ActivationError>,
)
    requires
        call_ensures(activated_names, (&pid, process, &fds, &names, required), r),
        r is Ok,
    ensures
        pid matches Some(p) && text::parsed_decimal(p@, u32::MAX as nat) == Some(process as nat),
        fds matches Some(n) && (text::parsed_decimal(n@, usize::MAX as nat) matches Some(count)
            && count <= 16 && r->Ok_0@.len() == count),
        texts(r->Ok_0@).no_duplicates(),
        texts(r->Ok_0@).to_set() == required@.map_values(|s: &str| s@).to_set(),
{
    let count = text::parsed_decimal(fds->0@, usize::MAX as nat)->0;
    let wanted = super::activation::names_of(required@);
    super::activation::law_names_in_any_order(count, names->0@, wanted, r);
    assert(wanted =~= required@.map_values(|s: &str| s@));
    assert(texts(r->Ok_0@).len() == r->Ok_0@.len());
}

// ---------------------------------------------------------------------------
// What systemd reports
// ---------------------------------------------------------------------------

/// A unit counts as running until it is inactive or has failed, as far as its state
/// is known; a stop is over exactly then, and is waited for until its deadline; a
/// unit file counts as enabled where it is enabled or linked, for good or until
/// the next start of the system.
pub proof fn law_states_are_read_as_they_are(
    activity: UnitActivity,
    runs: bool,
    in_time: bool,
    wait: StopWait,
    state: UnitFileActivity,
    enabled: bool,
)
    requires
        call_ensures(counts_as_running, (activity,), runs),
        call_ensures(stop_wait, (activity, in_time), wait),
        call_ensures(counts_as_enabled, (state,), enabled),
    ensures
        runs <==> !(activity is Inactive) && !(activity is Failed) && !(activity is Other),
        wait is Stopped <==> activity is Inactive || activity is Failed,
        wait is LookAgain <==> !(wait is Stopped) && in_time,
        enabled <==> state is Enabled || state is EnabledRuntime || state is Linked || state
            is LinkedRuntime,
{
}

/// The application socket is removed only where it is a socket of root's.
pub proof fn law_only_roots_socket_is_removed(
    place: String,
    found: bool,
    is_socket: bool,
    uid: u32,
    r: Result<bool, SystemdError>,
)
    requires
        call_ensures(removable_socket, (&place, found, is_socket, uid), r),
    ensures
        r == Ok::<bool, SystemdError>(true) <==> found && is_socket && uid == 0,
        r is Err <==> found && !(is_socket && uid == 0),
{
}

} // verus!
