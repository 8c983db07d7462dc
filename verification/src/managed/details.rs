//! What holds of the smaller decisions about programs, names and records.

use vstd::prelude::*;

use super::account;
use super::account::{BuildAccount, ProgramFacts, UnixAccount, UnixGroup, UserInstallContext};
use super::builder;
use super::builder::BuildError;
use super::installation;
use super::installation::{FileFacts, FileStep, InstallationError};
use super::job;
use super::job::{JobError, RedeployAuthorization, RedeployRequest, ScheduleProgress};
use super::journal;
use super::journal::{InstallationJournal, InstallationRecord, UninstallationRecord};
use super::operation::{InstallationPaths, RepairProgress};
use super::product;
use super::manifest::product_units;
use super::product::{
    application_socket_name, management_socket_name, service_name, ManagedProduct,
};
use super::protocol;
use super::protocol::{
    JobId, JobPhase, ManagementError, ManagementResponse, PeerCredentials, ProtocolError,
    RedeployOutcome, RequestEnvelope, ResponseEnvelope,
};
use super::release::ResolvedRelease;
use super::server;
use super::server::ManagementHandler;
use super::systemd::{
    enablement, make_way, obsolete, operation_views, sockets, starts, stops, SystemdManager,
    UnitActionView, UnitOperation,
};
use super::transaction;
use super::transaction::{SystemInstallation, SystemUninstallation};
use super::user_install::verify_installed_version;
use super::user_program;
use super::user_program::{UserProgramError, UserProgramUpdate, VersionOutput};
use super::worker::WorkerProgress;
use crate::text;
use crate::text::texts;
use crate::unix_path;
use crate::unix_path::path;
use crate::version::Version;

verus! {

/// An account belongs to a group by its own group or by name.
pub proof fn law_members_are_named_or_have_the_group(
    group: UnixGroup,
    account: UnixAccount,
    member: bool,
)
    requires
        call_ensures(UnixGroup::has_member, (&group, &account), member),
    ensures
        member <==> account.gid == group.gid || exists|i: int|
            0 <= i < group.members@.len() && (#[trigger] group.members@[i])@ == account.name@,
{
    let names = texts(group.members@);
    if names.contains(account.name@) {
        let i = choose|i: int| 0 <= i < names.len() && names[i] == account.name@;
        assert(group.members@[i]@ == account.name@);
    }
    if exists|i: int|
        0 <= i < group.members@.len() && (#[trigger] group.members@[i])@ == account.name@ {
        let i = choose|i: int|
            0 <= i < group.members@.len() && (#[trigger] group.members@[i])@ == account.name@;
        assert(names[i] == account.name@);
    }
}

/// A program counts as the user's only where it is a regular file of the user that
/// can be run. Cargo may also be a link of the user's to the Rustup beside it,
/// where that counts.
pub proof fn law_only_the_users_own_programs_count(
    cargo: &str,
    cargo_facts: ProgramFacts,
    rustup: &str,
    rustup_facts: ProgramFacts,
    uid: u32,
    owned: bool,
    rustup_owned: bool,
    usable: bool,
)
    requires
        call_ensures(account::owned_executable_regular_file, (&cargo_facts, uid), owned),
        call_ensures(account::owned_executable_regular_file, (&rustup_facts, uid), rustup_owned),
        call_ensures(
            account::owned_cargo_executable,
            (cargo, &cargo_facts, rustup, &rustup_facts, uid),
            usable,
        ),
    ensures
        owned ==> cargo_facts.found && cargo_facts.regular && cargo_facts.uid == uid
            && cargo_facts.mode & 0o111 != 0,
        cargo_facts.found && cargo_facts.regular && cargo_facts.uid == uid && cargo_facts.mode
            & 0o111 != 0 ==> owned,
        usable ==> cargo_facts.found && cargo_facts.uid == uid,
        cargo_facts.regular ==> (usable <==> owned),
        usable && !cargo_facts.regular ==> cargo_facts.symlink && rustup_owned
            && cargo_facts.link_target is Some && path(cargo_facts.link_target->Some_0@) == path(
            "rustup"@,
        ) && unix_path::parent(path(cargo@)) == unix_path::parent(path(rustup@)),
        cargo_facts.found && !cargo_facts.regular && cargo_facts.symlink && cargo_facts.uid == uid
            && cargo_facts.link_target is Some && path(cargo_facts.link_target->Some_0@) == path(
            "rustup"@,
        ) && unix_path::parent(path(cargo@)) == unix_path::parent(path(rustup@))
            && unix_path::file_name(path(rustup@)) == Some("rustup"@) && rustup_owned ==> usable,
{
}

/// The account for builds is made as a system account without a login shell.
pub proof fn law_the_build_account_cannot_log_in(list: Vec<String>)
    requires
        call_ensures(BuildAccount::user_arguments, (), list),
    ensures
        texts(list@).contains("--system"@),
        texts(list@).last() == "capulus-build"@,
        crate::build_laws::has_value(texts(list@), "--shell"@, "/usr/sbin/nologin"@),
        crate::build_laws::has_value(texts(list@), "--home-dir"@, "/var/lib/capulus-build"@),
        crate::build_laws::has_value(texts(list@), "--gid"@, "capulus-build"@),
{
    let w = texts(list@);
    assert(w[0] == "--system"@);
    assert(w[1] == "--gid"@ && w[2] == "capulus-build"@);
    assert(w[3] == "--home-dir"@ && w[4] == "/var/lib/capulus-build"@);
    assert(w[6] == "--shell"@ && w[7] == "/usr/sbin/nologin"@);
}

/// The tools of the build account are in its own directory.
pub proof fn law_build_tools_are_the_accounts_own(
    build: BuildAccount,
    cargo: String,
    rustup: String,
)
    requires
        call_ensures(BuildAccount::cargo, (&build,), cargo),
        call_ensures(BuildAccount::rustup, (&build,), rustup),
    ensures
        cargo@ == unix_path::joined(build.cargo_tools_home@, "bin/cargo"@),
        rustup@ == unix_path::joined(build.cargo_tools_home@, "bin/rustup"@),
{
}

/// An installer is run only where it is no larger than the limit and has the
/// published digest; an output is read only up to its limit.
pub proof fn law_downloads_are_bounded_and_checked(
    length: usize,
    actual: &str,
    expected: &str,
    r: Result<(), BuildError>,
    size: u64,
    limit: u64,
    description: &str,
    read: Result<(), BuildError>,
)
    requires
        call_ensures(builder::check_installer, (length, actual, expected), r),
        call_ensures(builder::check_output_size, (size, limit, description), read),
    ensures
        r is Ok <==> length <= 67_108_864 && actual@ == expected@,
        r is Err ==> (r->Err_0 is InstallerTooLarge <==> length > 67_108_864),
        read is Ok <==> size <= limit,
{
}

/// A program runs as installed only where it is the very program that its path
/// leads to.
pub proof fn law_the_running_program_is_the_installed_one(
    running: &str,
    resolved: &str,
    installed: &str,
    r: Result<(), BuildError>,
)
    requires
        call_ensures(builder::check_running_program, (running, resolved, installed), r),
    ensures
        r is Ok <==> path(running@) == path(resolved@),
        r is Err ==> r->Err_0 is NotInstalledProgram && r->Err_0->NotInstalledProgram_0@
            == installed@,
{
}

/// A reported version counts where the last word of the report is the version.
pub proof fn law_the_last_word_tells_the_version(
    output: &str,
    expected: Version,
    before: Seq<Seq<char>>,
    word: Seq<char>,
    r: Result<(), super::user_install::UserInstallError>,
    ends: bool,
    version: &str,
)
    requires
        text::words(output@) == before.push(word),
        version@ == expected@.text(),
        call_ensures(verify_installed_version, (output, &expected), r),
        call_ensures(user_program::ends_with_word, (output, version), ends),
    ensures
        r is Ok <==> word == expected@.text(),
        ends <==> r is Ok,
{
    assert(text::words(output@).last() == word);
}

/// A program is current only where it ran well, printed no more than is read, and
/// told the version of the update.
pub proof fn law_a_current_program_told_its_version(
    update: UserProgramUpdate,
    output: VersionOutput,
    current: bool,
)
    requires
        call_ensures(UserProgramUpdate::is_current, (&update, &output), current),
    ensures
        current ==> output.success && output.stdout_text is Some && text::words(
            output.stdout_text->Some_0@,
        ).len() > 0 && text::words(output.stdout_text->Some_0@).last() == update.target().text(),
        !output.success ==> !current,
        output.success && output.stdout@.len() <= 4096
            && output.stderr@.len() <= 4096 && output.stdout_text
            is Some && text::words(output.stdout_text->Some_0@).len() > 0 && text::words(
            output.stdout_text->Some_0@,
        ).last() == update.target().text() ==> current,
{
}

/// Programs of a user are never installed by root, and they are in the Cargo
/// directory of the user's home.
pub proof fn law_root_installs_no_user_programs(
    is_root: bool,
    home: Option<String>,
    checked: Result<(), UserProgramError>,
    root: Result<String, UserProgramError>,
)
    requires
        call_ensures(user_program::check_install_user, (is_root,), checked),
        call_ensures(user_program::current_user_cargo_root, (is_root, &home), root),
    ensures
        checked is Ok <==> !is_root,
        root is Ok <==> !is_root && home is Some && home->Some_0@.len() > 0 && home->Some_0@[0]
            == '/',
        root is Ok ==> root->Ok_0@ == unix_path::joined(home->Some_0@, ".cargo"@),
        root is Err && !is_root ==> (root->Err_0 is NoHome <==> home is None),
{
}

/// The directories that lead to a directory are made from the top down, each in
/// the one before it, and the last is the directory itself.
pub proof fn law_directories_are_made_from_the_top(
    directory: String,
    r: Result<Vec<String>, InstallationError>,
    i: int,
)
    requires
        call_ensures(installation::directory_chain, (&directory,), r),
    ensures
        r is Ok <==> unix_path::is_plain(path(directory@)),
        r is Ok && 0 < i < r->Ok_0@.len() ==> unix_path::parent(path(r->Ok_0@[i]@)) == Some(
            path(r->Ok_0@[i - 1]@),
        ),
        r is Ok && r->Ok_0@.len() > 0 ==> path(r->Ok_0@.last()@) == path(directory@) && path(
            r->Ok_0@[0]@,
        ).parts.len() == 1,
{
    if r is Ok {
        let chain = r->Ok_0@;
        let whole = path(directory@).parts;
        if 0 < i < chain.len() {
            assert(path(chain[i]@).parts == whole.take(i + 1));
            assert(path(chain[i - 1]@).parts == whole.take(i));
            assert(whole.take(i + 1).drop_last() =~= whole.take(i));
        }
        if chain.len() > 0 {
            let n = chain.len() - 1;
            assert(path(chain[n]@).parts == whole.take(n + 1));
            assert(whole.take(n + 1) =~= whole);
            assert(path(chain[0]@).parts == whole.take(1));
        }
    }
}

/// A file that was removed counts as gone exactly where it is not there.
pub proof fn law_removed_files_are_gone(
    record: UninstallationRecord,
    exists: bool,
    r: Result<(), InstallationError>,
)
    requires
        call_ensures(UninstallationRecord::verify_removed, (&record, exists), r),
    ensures
        r is Ok <==> !exists,
        r is Err ==> r->Err_0.path == record.destination,
{
}

/// The next file of an installation is the first that is not committed, and it is
/// committed as that file is by itself. There is none exactly where all are.
pub proof fn law_files_are_committed_in_their_order(
    journal: InstallationJournal,
    installation: SystemInstallation,
    facts: FileFacts,
    next: Option<Result<Vec<FileStep>, InstallationError>>,
    alone: Result<Vec<FileStep>, InstallationError>,
    order: Vec<usize>,
)
    requires
        journal.committed_records == 0,
        !journal.accepted,
        journal.records@.len() > 0,
        call_ensures(SystemInstallation::new, (journal,), installation),
        call_ensures(SystemInstallation::commit_next, (&installation, &facts), next),
        call_ensures(InstallationRecord::commit, (&journal.records@[0], &facts), alone),
        call_ensures(transaction::reverse_order, (journal.records@.len() as usize,), order),
        journal.records@.len() <= usize::MAX,
    ensures
        next is Some,
        next->Some_0 is Ok <==> alone is Ok,
        alone is Ok ==> installation::step_views(next->Some_0->Ok_0@) == installation::step_views(
            alone->Ok_0@,
        ),
        alone is Err ==> next->Some_0->Err_0.fault == alone->Err_0.fault
            && next->Some_0->Err_0.path == alone->Err_0.path,
        order@.len() == journal.records@.len(),
        forall|i: int|
            0 <= i < order@.len() ==> #[trigger] order@[i] + i == journal.records@.len() - 1,
{
}

/// The next file of an uninstallation is the first that is not set aside, and it
/// is set aside as that file is by itself.
pub proof fn law_files_are_removed_in_their_order(
    removal: SystemUninstallation,
    facts: FileFacts,
    next: Option<Result<Vec<FileStep>, InstallationError>>,
    alone: Result<Vec<FileStep>, InstallationError>,
)
    requires
        removal@.committed_records < removal@.records@.len(),
        call_ensures(SystemUninstallation::remove_next, (&removal, &facts), next),
        call_ensures(
            UninstallationRecord::remove,
            (&removal@.records@[removal@.committed_records as int], &facts),
            alone,
        ),
    ensures
        next is Some,
        next->Some_0 is Ok <==> alone is Ok,
        alone is Ok ==> installation::step_views(next->Some_0->Ok_0@) == installation::step_views(
            alone->Ok_0@,
        ),
        alone is Err ==> next->Some_0->Err_0.fault == alone->Err_0.fault
            && next->Some_0->Err_0.path == alone->Err_0.path,
{
}

/// The units that an installation writes are its new files in the directory of
/// units, all of them and no others.
pub proof fn law_written_units_are_in_the_unit_directory(
    journal: InstallationJournal,
    units: Vec<String>,
    k: int,
)
    requires
        call_ensures(InstallationJournal::committed_unit_paths, (&journal,), units),
    ensures
        0 <= k < journal.records@.len() && journal.records@[k].new_digest is Some
            && unix_path::parent(path(journal.records@[k].destination@)) == Some(
            path("/etc/systemd/system"@),
        ) ==> texts(units@).contains(journal.records@[k].destination@),
        0 <= k < units@.len() ==> unix_path::parent(path(units@[k]@)) == Some(
            path("/etc/systemd/system"@),
        ) && writes_file(journal.records@, units@[k]@),
{
    lemma_written(journal.records@);
    let all = texts(units@);
    assert(all.len() == units@.len());
    if 0 <= k < units@.len() {
        assert(all[k] == units@[k]@);
    }
}

/// Whether a file is one that records write.
pub open spec fn writes_file(records: Seq<InstallationRecord>, file: Seq<char>) -> bool {
    exists|n: int|
        0 <= n < records.len() && (#[trigger] records[n]).destination@ == file
            && records[n].new_digest is Some
}

proof fn lemma_written(records: Seq<InstallationRecord>)
    ensures
        ({
            let all = transaction::unit_files_written(records);
            &&& forall|n: int|
                0 <= n < all.len() ==> unix_path::parent(path(#[trigger] all[n])) == Some(
                    path("/etc/systemd/system"@),
                ) && writes_file(records, all[n])
            &&& forall|k: int|
                0 <= k < records.len() && (#[trigger] records[k]).new_digest is Some
                    && unix_path::parent(path(records[k].destination@)) == Some(
                    path("/etc/systemd/system"@),
                ) ==> all.contains(records[k].destination@)
        }),
    decreases records.len(),
{
    if records.len() > 0 {
        let shorter = records.drop_last();
        lemma_written(shorter);
        let before = transaction::unit_files_written(shorter);
        let all = transaction::unit_files_written(records);
        assert forall|n: int| 0 <= n < all.len() implies unix_path::parent(path(#[trigger] all[n]))
            == Some(path("/etc/systemd/system"@)) && writes_file(records, all[n]) by {
            if n < before.len() {
                assert(all[n] == before[n]);
                let m = choose|m: int|
                    0 <= m < shorter.len() && (#[trigger] shorter[m]).destination@ == before[n]
                        && shorter[m].new_digest is Some;
                assert(records[m] == shorter[m]);
            } else {
                assert(records[records.len() - 1].destination@ == all[n]);
            }
        }
        assert forall|k: int|
            0 <= k < records.len() && (#[trigger] records[k]).new_digest is Some
                && unix_path::parent(path(records[k].destination@)) == Some(
                path("/etc/systemd/system"@),
            ) implies all.contains(records[k].destination@) by {
            if k < shorter.len() {
                assert(shorter[k] == records[k]);
                let n = choose|n: int| 0 <= n < before.len() && before[n] == records[k].destination@;
                assert(all[n] == records[k].destination@);
            } else {
                assert(all[all.len() - 1] == records[k].destination@);
            }
        }
    }
}

/// A request is for the product and the release that it was made for, and what is
/// noted of it as active is its own.
pub proof fn law_a_request_is_made_for_its_job(
    id: JobId,
    product: &ManagedProduct,
    release: ResolvedRelease,
    authorization: RedeployAuthorization,
    request: RedeployRequest,
    uid: Option<u32>,
    active: job::ActiveJob,
    unit: String,
    started: RedeployOutcome,
    expected: String,
)
    requires
        call_ensures(RedeployRequest::for_job, (id, product, release, authorization), request),
        call_ensures(RedeployAuthorization::required_uid, (&authorization,), uid),
        call_ensures(RedeployRequest::active, (&request,), active),
        call_ensures(job::started_outcome, (&request, unit), started),
        call_ensures(SystemdManager::redeploy_unit_name, (product, &id), expected),
    ensures
        request.job == id && active.job == id && started.job == id,
        request.product@ == product@.product@ && request.package@ == product@.package@,
        request.release == release && active.version == release.version,
        request.required_user == authorization.required_user,
        active.required_uid == uid,
        uid is Some <==> authorization.required_user is Some,
        uid is Some ==> uid->Some_0 == authorization.required_user->Some_0.uid,
        started.started && started.unit == unit && started.version@ == release.version@.text(),
        expected@ == product@.product@ + "-redeploy-"@ + text::hex(id@) + ".service"@,
{
}

/// A job has ended exactly where it is complete or failed, and every phase comes
/// behind those before it.
pub proof fn law_ended_phases_come_last(phase: JobPhase, ended: bool, rank: u8)
    requires
        call_ensures(JobPhase::is_terminal, (&phase,), ended),
        call_ensures(job::phase_rank, (&phase,), rank),
    ensures
        ended <==> phase is Complete || phase is Failed,
        ended <==> rank >= 10,
        phase is Queued <==> rank == 0,
{
}

/// A text is an identifier where it begins with a lower-case letter and holds only
/// such letters, digits, hyphens and underscores, at most sixty-four of them.
pub proof fn law_identifiers_are_plain_names(value: &str, valid: bool)
    requires
        call_ensures(product::is_valid_identifier, (value,), valid),
    ensures
        valid <==> 1 <= value@.len() <= 64 && text::is_lower(value@[0]) && forall|i: int|
            0 <= i < value@.len() ==> text::is_lower(#[trigger] value@[i]) || text::is_digit(
                value@[i],
            ) || value@[i] == '-' || value@[i] == '_',
{
    if 1 <= value@.len() <= 64 && text::is_lower(value@[0]) && forall|i: int|
        0 <= i < value@.len() ==> text::is_lower(#[trigger] value@[i]) || text::is_digit(value@[i])
            || value@[i] == '-' || value@[i] == '_' {
        assert forall|i: int| 0 <= i < value@.len() implies product::identifier_char(
            #[trigger] value@[i],
        ) by {}
    }
    if valid {
        assert forall|i: int| 0 <= i < value@.len() implies text::is_lower(#[trigger] value@[i])
            || text::is_digit(value@[i]) || value@[i] == '-' || value@[i] == '_' by {
            assert(product::identifier_char(value@[i]));
        }
    }
}

/// The units of a product are named after it, each in its own way.
pub proof fn law_units_are_named_after_their_product(
    product: &ManagedProduct,
    service: String,
    application: String,
    management: String,
    all: Vec<String>,
)
    requires
        call_ensures(ManagedProduct::service_name, (product,), service),
        call_ensures(ManagedProduct::application_socket_name, (product,), application),
        call_ensures(ManagedProduct::management_socket_name, (product,), management),
        call_ensures(SystemdManager::managed_unit_names, (product,), all),
    ensures
        service@ == product@.product@ + "-agent.service"@,
        application@ == product@.product@ + "-agent.socket"@,
        management@ == product@.product@ + "-capulus.socket"@,
        texts(all@) == seq![service@, application@, management@],
{
}

/// A frame header tells the length that it was made of, and a frame that is read
/// is no larger than the limit.
pub proof fn law_a_header_tells_its_length(
    length: usize,
    header: [u8; 4],
    read: Result<usize, ManagementError>,
)
    requires
        call_ensures(
            protocol::frame_header,
            (length,),
            Ok::<[u8; 4], ManagementError>(header),
        ),
        call_ensures(protocol::frame_length, (&header,), read),
    ensures
        read is Ok <==> length <= 65_536,
        read is Ok ==> read->Ok_0 == length,
        header@[0] as int * 16_777_216 + header@[1] as int * 65_536 + header@[2] as int * 256
            + header@[3] as int == length,
{
}

/// What is sent is what was serialised, where that is no larger than the limit.
pub proof fn law_what_is_sent_was_serialised(
    bytes: Vec<u8>,
    sent: Result<Vec<u8>, ManagementError>,
    received: Result<&Vec<u8>, ManagementError>,
)
    requires
        call_ensures(protocol::encode, (Ok::<Vec<u8>, String>(bytes),), sent),
        call_ensures(protocol::decode, (&bytes,), received),
    ensures
        sent is Ok <==> bytes@.len() <= 65_536,
        received is Ok <==> bytes@.len() <= 65_536,
        sent is Ok ==> sent->Ok_0@ == bytes@ && received->Ok_0@ == bytes@,
        sent is Err ==> sent->Err_0 is FrameTooLarge && received->Err_0 is FrameTooLarge,
{
}

/// A digest is sixty-four hexadecimal digits.
pub proof fn law_digests_are_hexadecimal(value: &str, valid: bool, contents: &str, made: String)
    requires
        call_ensures(journal::valid_digest, (value,), valid),
        call_ensures(super::preparation::contents_digest, (contents,), made),
    ensures
        valid ==> value@.len() == 64,
        made@.len() == 64,
        value@ == made@ ==> valid,
{
}

/// Whether there was an application socket before is told by the records.
pub proof fn law_a_previous_socket_is_found(journal: InstallationJournal, found: bool)
    requires
        journal.product@.len() > 0,
        journal.product@[0] != '/',
        call_ensures(InstallationJournal::previous_application_socket_file, (&journal,), found),
    ensures
        found <==> exists|i: int|
            0 <= i < journal.records@.len() && path((#[trigger] journal.records@[i]).destination@)
                == path("/etc/systemd/system/"@ + (journal.product@ + "-agent.socket"@))
                && journal.records@[i].original_digest is Some,
{
    let name = journal.product@ + "-agent.socket"@;
    assert(name[0] == journal.product@[0]);
    reveal_strlit("/etc/systemd/system");
    reveal_strlit("/etc/systemd/system/");
    assert("/etc/systemd/system"@.push('/') =~= "/etc/systemd/system/"@);
    assert(product::unit_path(name) == "/etc/systemd/system/"@ + name);
}

/// The job's identifier is told by its bytes alone.
pub proof fn law_jobs_are_told_apart(
    bytes: [u8; 16],
    other: [u8; 16],
    first: JobId,
    second: JobId,
    same: bool,
    one: String,
    two: String,
)
    requires
        call_ensures(JobId::from_bytes, (bytes,), first),
        call_ensures(JobId::from_bytes, (other,), second),
        call_ensures(JobId::same, (&first, &second), same),
        call_ensures(JobId::text, (&first,), one),
        call_ensures(JobId::text, (&second,), two),
    ensures
        same <==> bytes@ == other@,
        same <==> one@ == two@,
{
    crate::text_laws::law_bytes_are_told_by_their_digits(bytes@, other@);
}

/// Root may redeploy and repair. Anyone else must be an operator with a program
/// of their own, and a redeploy of theirs must reinstall that program.
pub proof fn law_operators_act_for_themselves(
    peer: PeerCredentials,
    operator: bool,
    reinstall: bool,
    captured: Option<UserInstallContext>,
    has_program: bool,
    redeploy: Result<RedeployAuthorization, JobError>,
    repair: Result<(), JobError>,
)
    requires
        call_ensures(job::authorize_redeploy, (peer, operator, reinstall, captured), redeploy),
        call_ensures(job::authorize_repair, (peer, operator, has_program), repair),
    ensures
        redeploy is Ok <==> peer.uid == 0 || operator && reinstall && captured is Some,
        redeploy matches Ok(a) ==> (a.root <==> peer.uid == 0) && (peer.uid == 0
            ==> a.required_user is None) && (peer.uid != 0 ==> a.required_user == captured),
        repair is Ok <==> peer.uid == 0 || operator && has_program,
        peer.uid != 0 && !operator ==> redeploy is Err && redeploy->Err_0 is NotOperator && repair
            is Err && repair->Err_0 is NotOperator,
{
}

/// An operator is a member of the very group that the product names.
pub proof fn law_operators_are_of_the_named_group(
    product: &ManagedProduct,
    account: UnixAccount,
    group: UnixGroup,
    member: bool,
    found: bool,
    lost: bool,
)
    requires
        call_ensures(UnixGroup::has_member, (&group, &account), member),
        call_ensures(job::is_operator, (product, &account, &Some(group)), found),
        call_ensures(job::is_operator, (product, &account, &None::<UnixGroup>), lost),
    ensures
        !lost,
        found <==> member && product@.management_socket.group is Some
            && product@.management_socket.group->Some_0@ == group.name@,
{
}

/// What was staged is cleaned up as a whole: the directories that are removed are
/// those in which the directories of the staged files stand, and no others.
pub proof fn law_staging_directories_are_removed_whole(
    journal: InstallationJournal,
    roots: Vec<String>,
    i: int,
    k: int,
)
    requires
        forall|n: int|
            0 <= n < journal.records@.len() ==> transaction::absolute_below(
                (#[trigger] journal.records@[n]).staged@,
            ),
        call_ensures(InstallationJournal::staging_roots, (&journal,), roots),
    ensures
        0 <= i < journal.records@.len() ==> exists|n: int|
            0 <= n < roots@.len() && stands_two_above(
                (#[trigger] roots@[n])@,
                journal.records@[i].staged@,
            ),
        0 <= k < roots@.len() ==> exists|n: int|
            0 <= n < journal.records@.len() && stands_two_above(
                roots@[k]@,
                (#[trigger] journal.records@[n]).staged@,
            ),
        0 <= i < k < roots@.len() ==> path(roots@[i]@) != path(roots@[k]@),
{
    let f = |r: InstallationRecord| transaction::grandparent(path(r.staged@));
    let above = journal.records@.map_values(f);
    let all = transaction::roots_of(roots@);
    assert(all.len() == roots@.len());
    if 0 <= i < journal.records@.len() {
        assert(above[i] == transaction::grandparent(path(journal.records@[i].staged@)));
        assert(above.to_set().contains(above[i]));
        assert(all.to_set().contains(above[i]));
        let n = choose|n: int| 0 <= n < all.len() && all[n] == above[i];
        assert(path(roots@[n]@) == above[i]);
        assert(transaction::absolute_below(journal.records@[i].staged@));
        lemma_two_above(roots@[n]@, journal.records@[i].staged@);
        assert(stands_two_above(roots@[n]@, journal.records@[i].staged@));
    }
    if 0 <= k < roots@.len() {
        assert(all[k] == path(roots@[k]@));
        assert(all.to_set().contains(all[k]));
        assert(above.to_set().contains(all[k]));
        let n = choose|n: int| 0 <= n < above.len() && above[n] == all[k];
        assert(transaction::absolute_below(journal.records@[n].staged@));
        lemma_two_above(roots@[k]@, journal.records@[n].staged@);
        assert(stands_two_above(roots@[k]@, journal.records@[n].staged@));
    }
    if 0 <= i < k < roots@.len() {
        assert(all[i] == path(roots@[i]@) && all[k] == path(roots@[k]@));
    }
}

proof fn lemma_two_above(directory: Seq<char>, file: Seq<char>)
    requires
        transaction::absolute_below(file),
        path(directory) == transaction::grandparent(path(file)),
    ensures
        stands_two_above(directory, file),
{
    let parts = path(file).parts;
    assert(parts.take(parts.len() - 2) =~= parts.drop_last().drop_last());
}

/// Whether a directory is two parts above a file.
pub open spec fn stands_two_above(directory: Seq<char>, file: Seq<char>) -> bool {
    &&& path(directory).absolute == path(file).absolute
    &&& path(directory).parts.len() + 2 == path(file).parts.len()
    &&& path(directory).parts == path(file).parts.drop_last().drop_last()
}

/// A server answers a request in its own protocol with what its handler says, and
/// refuses any other, under the identifier of the request.
pub proof fn law_a_server_answers_with_its_handler<H: ManagementHandler>(
    handler: &H,
    peer: PeerCredentials,
    envelope: RequestEnvelope,
    r: ResponseEnvelope,
)
    requires
        call_ensures(server::serve::<H>, (handler, peer, envelope), r),
    ensures
        r.request_id == envelope.request_id,
        r.protocol_major == 1,
        !(envelope.minimum_protocol_major <= 1 <= envelope.maximum_protocol_major) ==> r.body
            is Error && r.body->Error_0.code is UnsupportedProtocol,
        envelope.minimum_protocol_major <= 1 <= envelope.maximum_protocol_major ==> exists|
            handled: Result<ManagementResponse, ProtocolError>,
        | #[trigger]
            call_ensures(H::handle, (handler, peer, envelope.request), handled) && (handled is Ok
                ==> r.body is Answer && r.body->Answer_0 == handled->Ok_0) && (handled is Err
                ==> r.body is Error && r.body->Error_0 == handled->Err_0),
{
    if envelope.minimum_protocol_major <= 1 <= envelope.maximum_protocol_major {
        let handled = choose|handled: Result<ManagementResponse, ProtocolError>|
            call_ensures(H::handle, (handler, peer, envelope.request), handled)
                && #[trigger] server::answers_with(r, envelope.request_id, handled);
        assert(call_ensures(H::handle, (handler, peer, envelope.request), handled));
    }
}

/// An installation has its files in the directory of its product, and begins with
/// nothing done.
pub proof fn law_operations_begin_with_nothing_done(
    product: &str,
    paths: InstallationPaths,
    clean: RepairProgress,
    interrupted: RepairProgress,
    started: WorkerProgress,
    scheduled: ScheduleProgress,
)
    requires
        call_ensures(InstallationPaths::new, (product,), paths),
        call_ensures(RepairProgress::begin, (false,), clean),
        call_ensures(RepairProgress::begin, (true,), interrupted),
        call_ensures(WorkerProgress::start, (), started),
        call_ensures(ScheduleProgress::begin, (), scheduled),
    ensures
        paths.directory@ == unix_path::joined("/var/lib/capulus/installations"@, product@),
        paths.journal@ == unix_path::joined(paths.directory@, "active.json"@),
        paths.removal_journal@ == unix_path::joined(paths.directory@, "uninstall.json"@),
        paths.journal@ != paths.removal_journal@,
        clean.step is RecoverUninstallation && !clean.changed,
        interrupted.step is RecoverInstallation && !interrupted.changed,
        started.step is TakeRequest && !started.user_required && started.error is None
            && started.reinstalled is None,
        scheduled.step is Reconcile && scheduled.start_error is None,
{
    reveal_strlit("active.json");
    reveal_strlit("uninstall.json");
    let d = paths.directory@;
    let a = paths.journal@;
    let b = paths.removal_journal@;
    if a == b {
        assert(a.len() - 11 == b.len() - 14);
    }
}

/// The program of an update is in the directory for programs of its Cargo root.
pub proof fn law_an_updated_program_is_in_its_root(update: UserProgramUpdate, out: String)
    requires
        call_ensures(UserProgramUpdate::program_path, (&update,), out),
    ensures
        out@ == unix_path::joined(unix_path::joined(update.root(), "bin"@), update.binary()),
{
}

/// Whether the purpose of an operation tells what it does: the unit that it stops,
/// starts or restarts, or what it does to all of them.
pub open spec fn is_told(
    operation: (UnitActionView, Seq<char>),
    start: Seq<char>,
    restart: Seq<char>,
) -> bool {
    match operation.0 {
        UnitActionView::Stop(unit) => operation.1 == "stop "@ + unit,
        UnitActionView::Start(unit) => operation.1 == start + " "@ + unit || operation.1
            == "start "@ + unit,
        UnitActionView::Restart(unit) => operation.1 == restart + unit,
        UnitActionView::Enable(_) => operation.1 == "enable managed units"@,
        UnitActionView::Disable(_) => operation.1 == "disable obsolete managed units"@
            || operation.1 == "disable managed units"@,
        _ => true,
    }
}

/// Every operation on units tells in its purpose what it does, and to which unit.
pub proof fn law_operations_tell_their_unit(
    product: &ManagedProduct,
    target: Vec<String>,
    previous: Vec<String>,
    had_service: bool,
    activated: Vec<UnitOperation>,
    restored: Vec<UnitOperation>,
    refreshed: Vec<UnitOperation>,
    deactivated: Vec<UnitOperation>,
    i: int,
)
    requires
        call_ensures(
            SystemdManager::activate_installation,
            (product, &target, &previous, had_service),
            activated,
        ),
        call_ensures(
            SystemdManager::restore_installation,
            (product, &target, &previous, had_service),
            restored,
        ),
        call_ensures(SystemdManager::refresh_installation, (product, &previous), refreshed),
        call_ensures(SystemdManager::deactivate_installation, (product,), deactivated),
    ensures
        0 <= i < activated@.len() ==> is_told(
            (activated@[i].action@, activated@[i].purpose@),
            "start"@,
            "restart "@,
        ),
        0 <= i < restored@.len() ==> is_told(
            (restored@[i].action@, restored@[i].purpose@),
            "restore"@,
            "restart restored "@,
        ),
        0 <= i < refreshed@.len() ==> is_told(
            (refreshed@[i].action@, refreshed@[i].purpose@),
            "start"@,
            "restart "@,
        ),
        0 <= i < deactivated@.len() ==> is_told(
            (deactivated@[i].action@, deactivated@[i].purpose@),
            "start"@,
            "restart "@,
        ),
{
    let name = product@.product@;
    let service = service_name(name);
    let t = texts(target@);
    let p = texts(previous@);
    let units = product_units(product@);
    let a = operation_views(activated@);
    let b = operation_views(restored@);
    let c = operation_views(refreshed@);
    let d = operation_views(deactivated@);
    reveal_strlit("start");
    reveal_strlit("start ");
    reveal_strlit(" ");
    assert("start"@ + " "@ =~= "start "@);
    lemma_told_way(name, p, t, had_service, "start"@, "restart "@);
    lemma_told_way(name, t, p, had_service, "restore"@, "restart restored "@);
    lemma_told_enablement(t, p, "start"@, "restart "@);
    lemma_told_enablement(p, t, "restore"@, "restart restored "@);
    lemma_told_enablement(units, p, "start"@, "restart "@);
    lemma_told_stops(obsolete(p, units), "start"@, "restart "@);
    lemma_told_starts(sockets(t), "start"@, "start"@, "restart "@);
    lemma_told_starts(sockets(units), "start"@, "start"@, "restart "@);
    lemma_told_starts(sockets(p), "restore"@, "restore"@, "restart restored "@);
    lemma_told_stops(
        seq![service, application_socket_name(name), management_socket_name(name)],
        "start"@,
        "restart "@,
    );
    assert(all_told(a, "start"@, "restart "@));
    assert(all_told(b, "restore"@, "restart restored "@));
    assert(all_told(c, "start"@, "restart "@));
    assert(all_told(d, "start"@, "restart "@));
    if 0 <= i < activated@.len() {
        assert(a[i] == (activated@[i].action@, activated@[i].purpose@));
    }
    if 0 <= i < restored@.len() {
        assert(b[i] == (restored@[i].action@, restored@[i].purpose@));
    }
    if 0 <= i < refreshed@.len() {
        assert(c[i] == (refreshed@[i].action@, refreshed@[i].purpose@));
    }
    if 0 <= i < deactivated@.len() {
        assert(d[i] == (deactivated@[i].action@, deactivated@[i].purpose@));
    }
}

/// Whether every operation of a plan tells what it does.
pub open spec fn all_told(
    plan: Seq<(UnitActionView, Seq<char>)>,
    start: Seq<char>,
    restart: Seq<char>,
) -> bool {
    forall|i: int| 0 <= i < plan.len() ==> is_told(#[trigger] plan[i], start, restart)
}

proof fn lemma_told_stops(units: Seq<Seq<char>>, start: Seq<char>, restart: Seq<char>)
    ensures
        all_told(stops(units), start, restart),
{
    assert forall|i: int| 0 <= i < stops(units).len() implies is_told(
        #[trigger] stops(units)[i],
        start,
        restart,
    ) by {
        assert(stops(units)[i] == (UnitActionView::Stop(units[i]), "stop "@ + units[i]));
    }
}

proof fn lemma_told_starts(
    units: Seq<Seq<char>>,
    verb: Seq<char>,
    start: Seq<char>,
    restart: Seq<char>,
)
    requires
        verb == start,
    ensures
        all_told(starts(units, verb), start, restart),
{
    assert forall|i: int| 0 <= i < starts(units, verb).len() implies is_told(
        #[trigger] starts(units, verb)[i],
        start,
        restart,
    ) by {
        assert(starts(units, verb)[i] == (
            UnitActionView::Start(units[i]),
            verb + " "@ + units[i],
        ));
    }
}

proof fn lemma_told_enablement(
    target: Seq<Seq<char>>,
    previous: Seq<Seq<char>>,
    start: Seq<char>,
    restart: Seq<char>,
)
    ensures
        all_told(enablement(target, previous), start, restart),
{
}

proof fn lemma_told_way(
    product: Seq<char>,
    previous: Seq<Seq<char>>,
    target: Seq<Seq<char>>,
    had_service: bool,
    start: Seq<char>,
    restart: Seq<char>,
)
    ensures
        all_told(make_way(product, previous, target, had_service), start, restart),
{
    lemma_told_stops(obsolete(previous, target), start, restart);
    lemma_told_stops(
        seq![
            application_socket_name(product),
            management_socket_name(product),
            service_name(product),
        ],
        start,
        restart,
    );
}

} // verus!
