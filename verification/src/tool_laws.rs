//! What holds of the tools for commands, credentials, files and locks.

use vstd::prelude::*;

use crate::cancel::{
    error_is_cancelled, Cancellation, ErrorChain, InterruptAction, Interrupts, SleepStep,
};
use crate::duration::Duration;
use crate::gcp;
use crate::gcp::{
    AccessTokenReply, CachedAccessToken, CredentialSource, GcpError,
};
use crate::lock;
use crate::lock::{LockEvent, LockNext, LockRequest, LockStep, WaitDisplay};
use crate::paths;
use crate::process;
use crate::process::{CommandLine, CommandOutput, ProcessError};
use crate::search::{first_failing, lemma_none_failing};
use crate::shell;
use crate::store;
use crate::store::{StoreError, TomlStore, WriteStep};
use crate::temp;
use crate::termination::{CliTermination, TerminationReport};
use crate::text;
use crate::text::texts;
use crate::text_laws::law_trimming_takes_only_the_ends;
use crate::unix_path;
use crate::unix_path::path;

verus! {

/// Whether a text may be missing or blank.
pub open spec fn is_blank(value: Option<String>) -> bool {
    match value {
        Some(s) => text::trimmed(s@).len() == 0,
        None => true,
    }
}

/// Whether a found text is a given one without the white space around it.
pub open spec fn is_trim_of(found: Option<String>, value: Option<String>) -> bool {
    found is Some && value is Some && found->Some_0@ == text::trimmed(value->Some_0@)
}

/// Whether a text says that nothing is set.
pub open spec fn says_nothing_is_set(value: Option<String>) -> bool {
    value is Some && gcp::is_unset(text::trimmed(value->Some_0@))
}

/// A kept project that counts is used before any other. Else the first variable
/// that is not blank names the project, and what `gcloud` is set to counts only
/// where every variable is blank. None is used but for those.
pub proof fn law_a_project_is_found_in_order(
    cached: &str,
    variables: Vec<Option<String>>,
    configured: Option<String>,
    kept: Option<String>,
    found: Option<String>,
    k: int,
)
    requires
        call_ensures(gcp::detect_project, (Some(cached), true, &variables, &configured), kept),
        call_ensures(gcp::detect_project, (Some(cached), false, &variables, &configured), found),
    ensures
        text::trimmed(cached@).len() > 0 ==> kept is Some && kept->Some_0@ == text::trimmed(
            cached@,
        ),
        text::trimmed(cached@).len() == 0 ==> text::opt(kept) == text::opt(found),
        (0 <= k < variables@.len() && !is_blank(variables@[k]) && (forall|j: int|
            0 <= j < k ==> is_blank(#[trigger] variables@[j]))) ==> is_trim_of(
            found,
            variables@[k],
        ),
        (forall|j: int| 0 <= j < variables@.len() ==> is_blank(#[trigger] variables@[j])) ==> {
            &&& found is Some <==> !is_blank(configured) && !says_nothing_is_set(configured)
            &&& found is Some ==> is_trim_of(found, configured)
        },
{
    let list = gcp::opts(variables@);
    assert forall|j: int| 0 <= j < variables@.len() implies (gcp::given(#[trigger] list[j]) is None
        <==> is_blank(variables@[j])) by {}
    let p = |i: int| gcp::given(list[i]) is None;
    lemma_none_failing(p, list.len(), 0);
    let i = first_failing(p, list.len(), 0);
    if 0 <= k < variables@.len() && !is_blank(variables@[k]) && (forall|j: int|
        0 <= j < k ==> is_blank(#[trigger] variables@[j])) {
        assert(!p(k)) by {
            assert(gcp::given(list[k]) is Some);
        }
        if i < k {
            assert(is_blank(variables@[i]));
            assert(gcp::given(list[i]) is None);
            assert(p(i));
            assert(false);
        }
        if i > k {
            assert(p(k));
        }
        assert(i == k);
    }
    if forall|j: int| 0 <= j < variables@.len() ==> is_blank(#[trigger] variables@[j]) {
        if i < list.len() {
            assert(is_blank(variables@[i]));
            assert(gcp::given(list[i]) is None);
            assert(p(i));
        }
    }
}

/// The credential file that is used is there, and none before it is.
pub proof fn law_the_first_present_credentials_are_used(
    candidates: Vec<String>,
    present: Vec<bool>,
    chosen: Option<String>,
    k: int,
)
    requires
        candidates@.len() == present@.len(),
        call_ensures(gcp::choose_credentials, (&candidates, &present), chosen),
    ensures
        chosen is None <==> (forall|j: int| 0 <= j < present@.len() ==> !#[trigger] present@[j]),
        (0 <= k < present@.len() && present@[k] && (forall|j: int|
            0 <= j < k ==> !#[trigger] present@[j])) ==> chosen == Some(candidates@[k]),
{
    let p = |i: int| !present@[i];
    lemma_none_failing(p, present@.len(), 0);
    let i = first_failing(p, present@.len(), 0);
    if i < present@.len() {
        assert(!p(i));
        assert(present@[i]);
    } else {
        assert forall|j: int| 0 <= j < present@.len() implies !#[trigger] present@[j] by {
            assert(p(j));
        }
    }
    if 0 <= k < present@.len() && present@[k] && (forall|j: int|
        0 <= j < k ==> !#[trigger] present@[j]) {
        if i > k {
            assert(p(k));
        }
        assert(i == k);
    }
}

/// The credential files that are looked for are the kept one, where it counts,
/// the one that the variable names, and last the one in the home directory.
pub proof fn law_credentials_are_looked_for_in_order(
    cached: &str,
    variable: Option<String>,
    home: Option<String>,
    all: Vec<String>,
    without: Vec<String>,
)
    requires
        call_ensures(gcp::detect_credentials_path, (Some(cached), true, &variable, &home), all),
        call_ensures(
            gcp::detect_credentials_path,
            (Some(cached), false, &variable, &home),
            without,
        ),
    ensures
        text::trimmed(cached@).len() > 0 ==> texts(all@) == seq![text::trimmed(cached@)] + texts(
            without@,
        ),
        text::trimmed(cached@).len() == 0 ==> texts(all@) == texts(without@),
        !is_blank(variable) ==> without@.len() >= 1 && without@[0]@ == text::trimmed(
            variable->Some_0@,
        ),
        home matches Some(h) ==> without@.len() >= 1 && without@.last()@ == unix_path::joined(
            h@,
            ".config/gcloud/application_default_credentials.json"@,
        ),
        without@.len() == (if is_blank(variable) {
            0int
        } else {
            1int
        }) + (if home is Some {
            1int
        } else {
            0int
        }),
{
    let w = texts(without@);
    assert(texts(all@).len() == all@.len());
    assert(w.len() == without@.len());
    if without@.len() > 0 {
        assert(w[0] == without@[0]@);
        assert(w.last() == without@.last()@);
    }
    if text::trimmed(cached@).len() > 0 {
        assert(texts(all@) =~= seq![text::trimmed(cached@)] + w);
    } else {
        assert(texts(all@) =~= w);
    }
}

/// The configured credentials are used before the active account, and that
/// before credentials that were found. There is no source only where none of
/// them is there.
pub proof fn law_a_credential_source_is_chosen_in_order(
    configured: &str,
    account: Option<String>,
    found: Option<String>,
    with: Result<CredentialSource, GcpError>,
    without: Result<CredentialSource, GcpError>,
)
    requires
        call_ensures(CredentialSource::choose_source, (Some(configured), account, found), with),
        call_ensures(CredentialSource::choose_source, (None::<&str>, account, found), without),
    ensures
        text::trimmed(configured@).len() > 0 ==> with is Ok && with->Ok_0 is ApplicationDefault
            && with->Ok_0->ApplicationDefault_0@ == text::trimmed(configured@),
        text::trimmed(configured@).len() == 0 ==> with == without,
        account is Some ==> without == Ok::<CredentialSource, GcpError>(
            CredentialSource::ActiveAccount(account->Some_0),
        ),
        account is None && found is Some ==> without == Ok::<CredentialSource, GcpError>(
            CredentialSource::ApplicationDefault(found->Some_0),
        ),
        without is Err <==> account is None && found is None,
        without is Err ==> without->Err_0 is NoCredentials,
{
}

/// Two sources have one key only where they are one source.
pub proof fn law_sources_are_told_apart(
    first: CredentialSource,
    second: CredentialSource,
    one: String,
    other: String,
)
    requires
        call_ensures(CredentialSource::key, (&first,), one),
        call_ensures(CredentialSource::key, (&second,), other),
        one@ == other@,
    ensures
        first is ActiveAccount <==> second is ActiveAccount,
        first is ActiveAccount ==> first->ActiveAccount_0@ == second->ActiveAccount_0@,
        first is ApplicationDefault ==> first->ApplicationDefault_0@
            == second->ApplicationDefault_0@,
{
    reveal_strlit("account:");
    reveal_strlit("adc:");
    match (first, second) {
        (CredentialSource::ActiveAccount(_), CredentialSource::ApplicationDefault(_)) => {
            assert(one@[1] == 'c' && other@[1] == 'd');
        },
        (CredentialSource::ApplicationDefault(_), CredentialSource::ActiveAccount(_)) => {
            assert(one@[1] == 'd' && other@[1] == 'c');
        },
        _ => {},
    }
    match (first, second) {
        (CredentialSource::ActiveAccount(a), CredentialSource::ActiveAccount(b)) => {
            assert(one@.skip(8) =~= a@);
            assert(other@.skip(8) =~= b@);
        },
        (CredentialSource::ApplicationDefault(a), CredentialSource::ApplicationDefault(b)) => {
            assert(one@.skip(4) =~= a@);
            assert(other@.skip(4) =~= b@);
        },
        _ => {},
    }
}

/// A token that was asked for is kept and found again: for the same source,
/// until a minute before its expiry. For another source, or later, it is not
/// found.
pub proof fn law_a_kept_token_is_found_again(
    reply: AccessTokenReply,
    source: CredentialSource,
    asked_at: u128,
    got: Result<(String, CachedAccessToken), GcpError>,
    other: CredentialSource,
    now: u128,
    same: Option<String>,
    another: Option<String>,
    first_key: String,
    second_key: String,
)
    requires
        call_ensures(gcp::access_token, (&reply, &source, asked_at), got),
        got is Ok,
        call_ensures(
            gcp::load_cached_access_token,
            (Some(got->Ok_0.1), &source, now),
            same,
        ),
        call_ensures(
            gcp::load_cached_access_token,
            (Some(got->Ok_0.1), &other, now),
            another,
        ),
        call_ensures(CredentialSource::key, (&source,), first_key),
        call_ensures(CredentialSource::key, (&other,), second_key),
        now + 60_000 <= u128::MAX,
    ensures
        got->Ok_0.0@ == text::trimmed(reply.token@),
        same is Some <==> now + 60_000 < got->Ok_0.1.expires_at_epoch_ms,
        same matches Some(s) ==> s@ == got->Ok_0.0@,
        first_key@ != second_key@ ==> another is None,
        (reply.token_expiry is None && asked_at + 3_600_000 <= u128::MAX) ==> (same is Some <==> now
            < asked_at + 3_540_000),
{
    lemma_trimmed_twice(reply.token@);
}

proof fn lemma_trimmed_twice(s: Seq<char>)
    ensures
        text::trimmed(text::trimmed(s)) == text::trimmed(s),
{
    let p = |c: char| text::is_white(c);
    law_trimming_takes_only_the_ends(s, p);
    let t = text::trimmed(s);
    if t.len() > 0 {
        assert(text::trim_front(t, p) == t);
        assert(text::trim_back(t, p) == t);
    }
}

/// There is no token exactly where the reply's is blank.
pub proof fn law_a_blank_token_is_refused(
    reply: AccessTokenReply,
    source: CredentialSource,
    now: u128,
    got: Result<(String, CachedAccessToken), GcpError>,
)
    requires
        call_ensures(gcp::access_token, (&reply, &source, now), got),
    ensures
        got is Err <==> text::trimmed(reply.token@).len() == 0,
        got is Err ==> got->Err_0 is EmptyToken,
{
}

/// A time since 1970 is told in whole milliseconds, and a token whose expiry
/// cannot be read is kept for an hour.
pub proof fn law_expiries_are_in_milliseconds(nanos: i128, now: u128, read: u128, usual: u128)
    requires
        nanos >= 0,
        now + 3_600_000 <= u128::MAX,
        call_ensures(gcp::expiry_from, (Some(nanos), now), read),
        call_ensures(gcp::expiry_from, (None::<i128>, now), usual),
    ensures
        read * 1_000_000 <= nanos < read * 1_000_000 + 1_000_000,
        usual - now == 3_600_000,
{
}

/// The active account is the first line that is not blank of what a successful
/// command printed, and there is none where it failed.
pub proof fn law_the_first_listed_account_is_active(
    stdout: &str,
    found: Option<String>,
    failed: Option<String>,
    k: int,
)
    requires
        call_ensures(gcp::active_account, (true, stdout), found),
        call_ensures(gcp::active_account, (false, stdout), failed),
    ensures
        failed is None,
        ({
            let lines = text::lines(stdout@);
            &&& found is None <==> (forall|j: int|
                0 <= j < lines.len() ==> text::trimmed(#[trigger] lines[j]).len() == 0)
            &&& (0 <= k < lines.len() && text::trimmed(lines[k]).len() > 0 && (forall|j: int|
                0 <= j < k ==> text::trimmed(#[trigger] lines[j]).len() == 0)) ==> found is Some
                && found->Some_0@ == text::trimmed(lines[k])
        }),
{
    let lines = text::lines(stdout@);
    let p = |i: int| text::trimmed(lines[i]).len() == 0;
    lemma_none_failing(p, lines.len(), 0);
    let i = first_failing(p, lines.len(), 0);
    if i < lines.len() {
        assert(!p(i));
        assert(text::trimmed(lines[i]).len() > 0);
    } else {
        assert forall|j: int| 0 <= j < lines.len() implies text::trimmed(#[trigger] lines[j]).len()
            == 0 by {
            assert(p(j));
        }
    }
    if 0 <= k < lines.len() && text::trimmed(lines[k]).len() > 0 && (forall|j: int|
        0 <= j < k ==> text::trimmed(#[trigger] lines[j]).len() == 0) {
        if i > k {
            assert(p(k));
        }
        if i < k {
            assert(text::trimmed(lines[i]).len() == 0);
        }
    }
}

/// A lock is in the directory of locks, under a name of lower-case letters,
/// digits, `-`, `_` and `.`. It is not asked for exactly where the variable holds
/// the token of that very tool, and two tools with one token have one lock.
pub proof fn law_a_lock_belongs_to_its_tool(
    root: &str,
    tool: &str,
    other: &str,
    variable: Option<String>,
    request: LockRequest,
    another: LockRequest,
)
    requires
        call_ensures(lock::lock_request, (root, tool, &variable), request),
        call_ensures(lock::lock_request, (root, other, &variable), another),
    ensures
        request.tool@.len() > 0,
        forall|i: int|
            0 <= i < request.tool@.len() ==> {
                let c = #[trigger] request.tool@[i];
                text::is_lower(c) || text::is_digit(c) || c == '-' || c == '_' || c == '.'
            },
        request.path@ == unix_path::joined(root@, request.tool@ + ".lock"@),
        request.bypassed <==> variable is Some && variable->Some_0@ == request.token@,
        request.tool@ == another.tool@ <==> request.token@ == another.token@,
        request.bypassed && another.bypassed ==> request.path@ == another.path@,
        tool@.len() > 0 ==> request.tool@.len() == tool@.len(),
        forall|i: int|
            0 <= i < tool@.len() && (text::is_lower(tool@[i]) || text::is_digit(tool@[i]) || tool@[i]
                == '-' || tool@[i] == '_' || tool@[i] == '.') ==> #[trigger] request.tool@[i]
                == tool@[i],
{
    reveal_strlit("tool");
    reveal_strlit("capulus:");
    if tool@.len() > 0 {
        assert forall|i: int| 0 <= i < request.tool@.len() implies ({
            let c = #[trigger] request.tool@[i];
            text::is_lower(c) || text::is_digit(c) || c == '-' || c == '_' || c == '.'
        }) by {
            assert(request.tool@[i] == lock::name_char(tool@[i]));
        }
    }
    assert(request.token@.skip(8) =~= request.tool@);
    assert(another.token@.skip(8) =~= another.tool@);
}

/// A lock that another holds is waited for where the caller waits, and refused
/// where it does not; it is taken only after it was found free and its file was
/// written, and a failure is never passed over.
pub proof fn law_a_lock_is_taken_in_order(
    request: LockRequest,
    directory: &str,
    wait: bool,
    step: LockStep,
    event: LockEvent,
    next: LockNext,
)
    requires
        call_ensures(LockRequest::advance, (&request, directory, wait, step, event), next),
    ensures
        next is Taken <==> step is WriteMetadata && !(event is Failed),
        event is Failed && !(step is Sleep) ==> next is Refused,
        step is TryLock && event is Busy ==> (wait <==> next == LockNext::Continue(LockStep::Sleep))
            && (!wait <==> next is Refused),
        step is TryLock && event is Done ==> next == LockNext::Continue(LockStep::WriteMetadata),
        step is CreateDirectory && event is Done ==> next == LockNext::Continue(LockStep::OpenFile),
        step is OpenFile && event is Done ==> next == LockNext::Continue(LockStep::TryLock),
        step is Sleep && event is Done ==> next == LockNext::Continue(LockStep::TryLock),
        step is Sleep && event is Interrupted ==> next is Refused,
{
}

/// A file is replaced by way of a temporary one: the mode is set before anything
/// is written to it, what was written is synced before it is moved, and nothing
/// is written to the file itself.
pub proof fn law_a_file_is_replaced_in_order(
    file: String,
    file_mode: Option<u32>,
    dir_mode: Option<u32>,
    steps: Vec<WriteStep>,
    i: int,
)
    requires
        unix_path::parent(path(file@)) is Some,
        call_ensures(store::atomic_write, (&file, file_mode, dir_mode), steps),
        0 <= i < steps@.len(),
    ensures
        !(steps@[i] is WriteInPlace),
        steps@[0] == (WriteStep::EnsureParent { file, mode: dir_mode }),
        steps@[i] is WriteTemporary && file_mode is Some ==> i > 0 && steps@[i - 1]
            == WriteStep::SetTemporaryMode(file_mode->Some_0),
        steps@[i] is MoveTemporaryTo ==> i > 2 && steps@[i] == (WriteStep::MoveTemporaryTo { file })
            && steps@[i - 1] is SyncTemporary && steps@[i - 2] is FlushTemporary && steps@[i - 3]
            is WriteTemporary,
        steps@[i] is SetMode ==> file_mode is Some && steps@[i] == (WriteStep::SetMode {
            file,
            mode: file_mode->Some_0,
        }),
        file_mode matches Some(m) ==> steps@.last() == (WriteStep::SetMode { file, mode: m }),
        file_mode is None ==> steps@.last() == (WriteStep::MoveTemporaryTo { file }),
        steps@[1] == (WriteStep::CreateTemporaryBeside { file }),
{
}

/// A stored value is the one that was parsed; a file that is missing or blank
/// stands for no value, and any failure is told with the file's path.
pub proof fn law_a_stored_value_is_the_parsed_one(
    file: String,
    content: Result<Option<String>, String>,
    parsed: Result<u64, String>,
    loaded: Result<Option<u64>, StoreError>,
)
    requires
        call_ensures(store::load_optional_toml::<u64>, (&file, content, parsed), loaded),
    ensures
        content is Err ==> loaded == Err::<Option<u64>, StoreError>(
            StoreError::Read { path: file, source: content->Err_0 },
        ),
        content is Ok && is_blank(content->Ok_0) ==> loaded == Ok::<Option<u64>, StoreError>(None),
        content is Ok && !is_blank(content->Ok_0) && parsed is Ok ==> loaded == Ok::<
            Option<u64>,
            StoreError,
        >(Some(parsed->Ok_0)),
        content is Ok && !is_blank(content->Ok_0) && parsed is Err ==> loaded == Err::<
            Option<u64>,
            StoreError,
        >(StoreError::Parse { path: file, source: parsed->Err_0 }),
{
}

/// A program ends with the code of its command, with 130 where it was cancelled
/// and with 1 where it failed; only a failure is told.
pub proof fn law_a_program_ends_as_its_command_did(
    termination: CliTermination,
    report: TerminationReport,
)
    requires
        call_ensures(CliTermination::report, (termination,), report),
    ensures
        match termination.result {
            Ok(code) => {
                &&& 0 <= code < 256 ==> report.code == code && report.error is None
                &&& !(0 <= code < 256) ==> report.code == 1 && report.error is Some
            },
            Err(error) => {
                let cancelled = exists|i: int|
                    0 <= i < error.causes@.len() && (#[trigger] error.causes@[i]) is Cancelled;
                &&& cancelled ==> report.code == 130 && report.error is None
                &&& !cancelled ==> report.code == 1 && report.error is Some
            },
        },
{
}

/// Sleep is over only when no time remains, takes no more than remains and is
/// never longer than the pause between two looks at the request to stop.
pub proof fn law_sleep_ends_when_asked(
    state: Interrupts,
    cancellation: Cancellation,
    remaining: Duration,
    step: SleepStep,
    requested: bool,
)
    requires
        call_ensures(Cancellation::sleep_step, (cancellation, &state, remaining), step),
        call_ensures(Cancellation::is_requested, (cancellation, &state), requested),
    ensures
        requested <==> step is Interrupted,
        !requested ==> (step is Over <==> remaining@ == 0),
        step matches SleepStep::SleepFor(d) ==> 0 < d@ <= remaining@ && (d@ < remaining@ ==> d@
            == 50_000_000) && d@
            <= 50_000_000,
{
}

/// An output is handed on exactly where the command succeeded, and a failure
/// tells the action and the first of these that is not blank: what stood in the
/// error output, what stood in the output, the exit status.
pub proof fn law_failures_are_told_with_their_detail(
    action: &str,
    command: CommandLine,
    output: CommandOutput,
    checked: Result<CommandOutput, ProcessError>,
    told: Result<String, ProcessError>,
    line: String,
)
    requires
        call_ensures(process::require_success, (action, &command, output), checked),
        call_ensures(process::run_text, (action, &command, output), told),
        call_ensures(process::render_command, (&command,), line),
    ensures
        checked is Ok <==> output.success,
        told is Ok <==> output.success,
        checked matches Ok(o) ==> o == output,
        told matches Ok(s) ==> s@ == text::trimmed(output.stdout@),
        checked is Err ==> checked->Err_0 is Failed && checked->Err_0->Failed_action@ == action@
            && checked->Err_0->Failed_rendered@ == line@ && told is Err && told->Err_0 is Failed
            && told->Err_0->Failed_detail@ == checked->Err_0->Failed_detail@
            && told->Err_0->Failed_rendered@ == line@,
        checked is Err && text::trimmed(output.stderr@).len() > 0
            ==> checked->Err_0->Failed_detail@ == text::trimmed(output.stderr@),
        checked is Err && text::trimmed(output.stderr@).len() == 0 && text::trimmed(
            output.stdout@,
        ).len() > 0 ==> checked->Err_0->Failed_detail@ == text::trimmed(output.stdout@),
{
}

/// A cut text is no longer than asked, keeps the beginning, and is changed only
/// where it was too long; then it ends in an ellipsis.
pub proof fn law_a_cut_text_keeps_its_beginning(value: &str, max_chars: usize, out: String)
    requires
        call_ensures(process::truncate_ellipsis, (value, max_chars), out),
    ensures
        value@.len() <= max_chars ==> out@ == value@,
        value@.len() > max_chars && max_chars > 0 ==> out@.len() == max_chars && out@.last()
            == '\u{2026}' && forall|i: int|
            0 <= i < max_chars - 1 ==> #[trigger] out@[i] == value@[i],
{
}

/// How a shell reads a line of words that spaces part.
pub open spec fn line_reads(line: Seq<char>, words: Seq<Seq<char>>) -> bool
    decreases words.len(),
{
    if words.len() == 0 {
        line.len() == 0
    } else {
        exists|n: int|
            #![trigger line.take(n)]
            0 <= n <= line.len() && shell::shell_reads(line.take(n), shell::Quoting::Plain) == Some(
                words[0],
            ) && n > 0 && (if words.len() == 1 {
                n == line.len()
            } else {
                n < line.len() && line[n] == ' ' && line_reads(line.skip(n + 1), words.skip(1))
            })
    }
}

proof fn lemma_joined_from_front(list: Seq<Seq<char>>, sep: Seq<char>)
    requires
        list.len() >= 2,
    ensures
        text::joined(list, sep) == list[0] + sep + text::joined(list.skip(1), sep),
    decreases list.len(),
{
    let tail = list.skip(1);
    if list.len() == 2 {
        assert(list.drop_last().len() == 1 && list.drop_last()[0] == list[0]);
        assert(text::joined(list.drop_last(), sep) == list[0]);
        assert(text::joined(tail, sep) == list[1]);
    } else {
        lemma_joined_from_front(list.drop_last(), sep);
        assert(list.drop_last().skip(1) =~= tail.drop_last());
        assert(tail.last() == list.last());
        let middle = text::joined(tail.drop_last(), sep);
        assert(text::joined(tail, sep) == middle + sep + list.last());
        assert(list[0] + sep + middle + sep + list.last() =~= list[0] + sep + (middle + sep
            + list.last()));
    }
}

proof fn lemma_quoted_line_reads(arguments: Seq<Seq<char>>)
    requires
        arguments.len() > 0,
    ensures
        line_reads(text::joined(process::quoted_arguments(arguments), " "@), arguments),
    decreases arguments.len(),
{
    reveal_strlit(" ");
    let all = process::quoted_arguments(arguments);
    let line = text::joined(all, " "@);
    let first = shell::quoted(arguments[0]);
    assert(all[0] == first);
    shell::law_shell_reads_quoted_text(arguments[0]);
    let n = first.len() as int;
    assert(n > 0);
    if arguments.len() == 1 {
        assert(line =~= first);
        assert(line.take(n) =~= first);
    } else {
        assert(all.skip(1) =~= process::quoted_arguments(arguments.skip(1)));
        lemma_quoted_line_reads(arguments.skip(1));
        let rest = text::joined(process::quoted_arguments(arguments.skip(1)), " "@);
        lemma_joined_from_front(all, " "@);
        assert(line =~= first + " "@ + rest);
        assert(line.take(n) =~= first);
        assert(line.skip(n + 1) =~= rest);
    }
}

/// A shell reads the arguments of a rendered command as they are.
pub proof fn law_a_rendered_command_can_be_read(command: CommandLine, line: String)
    requires
        command@.arguments.len() > 0,
        call_ensures(process::render_command, (&command,), line),
    ensures
        line@.take(command@.program.len() as int) == command@.program,
        line@.len() > command@.program.len(),
        line@[command@.program.len() as int] == ' ',
        line_reads(line@.skip((command@.program.len() + 1) as int), command@.arguments),
{
    reveal_strlit(" ");
    let rest = text::joined(process::quoted_arguments(command@.arguments), " "@);
    lemma_quoted_line_reads(command@.arguments);
    assert(line@.take(command@.program.len() as int) =~= command@.program);
    assert(line@.skip((command@.program.len() + 1) as int) =~= rest);
}

/// A tool is there exactly where it could be asked for its version and told it.
pub proof fn law_a_tool_is_available_where_it_tells_its_version(
    program: &str,
    asked: Option<CommandOutput>,
    answer: Result<(), ProcessError>,
)
    requires
        call_ensures(process::ensure_command_available, (program, &asked), answer),
    ensures
        answer is Ok <==> asked is Some && asked->Some_0.success,
        asked is None <==> answer is Err && answer->Err_0 is NotFound,
{
}

/// The directory of a tool is one part below the home directory, hidden there,
/// and one part below any other root.
pub proof fn law_a_tool_has_a_directory_of_its_own(
    home: &str,
    tool: &str,
    name: String,
    hidden: String,
    plain: String,
)
    requires
        call_ensures(paths::sanitize_component, (tool,), name),
        call_ensures(paths::app_dir, (home, tool), hidden),
        call_ensures(paths::tool_dir, (home, tool), plain),
    ensures
        unix_path::is_part(name@),
        hidden@ == unix_path::joined(home@, "."@ + name@),
        plain@ == unix_path::joined(home@, name@),
        forall|i: int|
            0 <= i < name@.len() ==> {
                let c = #[trigger] name@[i];
                text::is_lower(c) || text::is_digit(c) || c == '-' || c == '_'
            },
{
    paths::law_component_is_a_safe_name(tool@);
}

/// A file name ends in a dot and its extension, where there is one.
pub proof fn law_an_extension_stands_behind_a_dot(extension: &str, out: String)
    requires
        call_ensures(temp::temp_suffix, (extension,), out),
    ensures
        extension@.len() == 0 <==> out@.len() == 0,
        extension@.len() > 0 ==> out@[0] == '.' && out@.skip(1) == extension@,
{
    reveal_strlit(".");
    assert(extension@.len() > 0 ==> out@.skip(1) =~= extension@);
}

/// An argument, several arguments or a variable are put behind what a command
/// has, which stays as it is.
pub proof fn law_a_command_grows_at_its_end()
    ensures
        forall|command: &mut CommandLine, argument: &str| #[trigger]
            call_ensures(CommandLine::arg, (command, argument), ()) ==> {
                let before = mut_ref_current(command)@;
                let after = mut_ref_future(command)@;
                &&& after.arguments == before.arguments.push(argument@)
                &&& after.program == before.program && after.environment == before.environment
            },
        forall|command: &mut CommandLine, arguments: &Vec<String>| #[trigger]
            call_ensures(CommandLine::args, (command, arguments), ()) ==> {
                let before = mut_ref_current(command)@;
                let after = mut_ref_future(command)@;
                &&& after.arguments.len() == before.arguments.len() + arguments@.len()
                &&& before.arguments.is_prefix_of(after.arguments)
                &&& forall|i: int|
                    0 <= i < arguments@.len() ==> after.arguments[before.arguments.len() + i] == (
                    #[trigger] arguments@[i])@
                &&& after.program == before.program && after.environment == before.environment
            },
        forall|command: &mut CommandLine, name: &str, value: &str| #[trigger]
            call_ensures(CommandLine::env, (command, name, value), ()) ==> {
                let before = mut_ref_current(command)@;
                let after = mut_ref_future(command)@;
                &&& after.environment == before.environment.push((name@, value@))
                &&& after.program == before.program && after.arguments == before.arguments
            },
{
}

/// The first interrupt is remembered and any later one ends the program.
pub proof fn law_a_second_interrupt_ends_the_program()
    ensures
        forall|
            state: &mut Interrupts,
            later: &mut Interrupts,
            first: InterruptAction,
            second: InterruptAction,
        |
            #[trigger] call_ensures(Interrupts::note_interrupt, (state,), first)
                && #[trigger] call_ensures(Interrupts::note_interrupt, (later,), second)
                && mut_ref_current(later) == mut_ref_future(state) ==> {
                &&& first is Remember <==> !mut_ref_current(state).asked()
                &&& mut_ref_future(state).asked() && mut_ref_future(later).asked()
                &&& second == InterruptAction::ExitAtOnce(130)
            },
{
}

/// A store holds the value that was loaded, under the path that it was loaded
/// from, and saves what was serialised in the steps that replace a file.
pub proof fn law_a_store_keeps_its_value_and_path(
    file: String,
    value: u64,
    store: TomlStore<u64>,
    optional: TomlStore<u64>,
    serialized: String,
    file_mode: Option<u32>,
    dir_mode: Option<u32>,
    saved: Result<(String, Vec<WriteStep>), StoreError>,
    steps: Vec<WriteStep>,
    inner: u64,
    at: &String,
)
    requires
        call_ensures(
            TomlStore::<u64>::load,
            (file, Ok::<u64, StoreError>(value)),
            Ok::<TomlStore<u64>, StoreError>(store),
        ),
        call_ensures(
            TomlStore::<u64>::load_or_default,
            (file, Ok::<Option<u64>, StoreError>(Some(value))),
            Ok::<TomlStore<u64>, StoreError>(optional),
        ),
        call_ensures(
            TomlStore::<u64>::save,
            (&store, Ok::<String, String>(serialized), file_mode, dir_mode),
            saved,
        ),
        call_ensures(TomlStore::<u64>::into_inner, (store,), inner),
        call_ensures(TomlStore::<u64>::path, (&store,), at),
        call_ensures(store::atomic_write, (&file, file_mode, dir_mode), steps),
    ensures
        inner == value && optional.held() == value,
        *at == file && optional.file() == file,
        saved is Ok && saved->Ok_0.0 == serialized && saved->Ok_0.1@ == steps@,
{
}

/// Bytes are written in place, after the directory is there and before the mode
/// is set.
pub proof fn law_bytes_are_written_in_place(
    file: String,
    file_mode: Option<u32>,
    dir_mode: Option<u32>,
    steps: Vec<WriteStep>,
)
    requires
        call_ensures(store::write_bytes, (&file, file_mode, dir_mode), steps),
    ensures
        steps@.contains(WriteStep::WriteInPlace { file }),
        unix_path::parent(path(file@)) is Some ==> steps@[0] == (WriteStep::EnsureParent {
            file,
            mode: dir_mode,
        }) && steps@[1] == (WriteStep::WriteInPlace { file }),
        file_mode matches Some(m) ==> steps@.last() == (WriteStep::SetMode { file, mode: m }),
        file_mode is None ==> steps@.last() == (WriteStep::WriteInPlace { file }),
{
    let i = if unix_path::parent(path(file@)) is Some {
        1int
    } else {
        0int
    };
    assert(steps@[i] == (WriteStep::WriteInPlace { file }));
}

/// The configured credentials are handed to `gcloud` in its variable, and there is
/// none where they are blank.
pub proof fn law_credentials_are_handed_on(
    credentials: &str,
    with: CommandLine,
    without: CommandLine,
)
    requires
        call_ensures(gcp::command, (Some(credentials),), with),
        call_ensures(gcp::command, (None::<&str>,), without),
    ensures
        with@.program == "gcloud"@ && without@.program == "gcloud"@,
        with@.arguments.len() == 0 && without@.arguments.len() == 0,
        without@.environment.len() == 0,
        text::trimmed(credentials@).len() == 0 ==> with@.environment.len() == 0,
        text::trimmed(credentials@).len() > 0 ==> with@.environment == seq![
            ("GOOGLE_APPLICATION_CREDENTIALS"@, text::trimmed(credentials@)),
        ],
{
}

/// The words that print a token differ between the two sources by one word alone.
pub proof fn law_each_source_prints_its_own_token(
    account: CredentialSource,
    default: CredentialSource,
    own: Vec<String>,
    shared: Vec<String>,
)
    requires
        account is ActiveAccount,
        default is ApplicationDefault,
        call_ensures(CredentialSource::command_args, (&account,), own),
        call_ensures(CredentialSource::command_args, (&default,), shared),
    ensures
        texts(own@) == seq!["auth"@, "print-access-token"@, "--format=json"@],
        texts(shared@) == texts(own@).insert(1, "application-default"@),
{
    assert(texts(own@) =~= seq!["auth"@, "print-access-token"@, "--format=json"@]);
    assert(texts(shared@) =~= texts(own@).insert(1, "application-default"@));
}

/// A message is put in front of an error and says what it is from then on; whether
/// the error was a cancellation stays.
pub proof fn law_a_message_stands_before_its_error(
    error: ErrorChain,
    message: String,
    longer: ErrorChain,
    before: bool,
    after: bool,
    cancelled: ErrorChain,
    is_cancelled: bool,
)
    requires
        call_ensures(ErrorChain::context, (error, message), longer),
        call_ensures(error_is_cancelled, (&error,), before),
        call_ensures(error_is_cancelled, (&longer,), after),
        call_ensures(ErrorChain::cancelled, (), cancelled),
        call_ensures(error_is_cancelled, (&cancelled,), is_cancelled),
    ensures
        longer.words() == message@,
        longer.causes@.len() == error.causes@.len() + 1,
        longer.causes@.skip(1) == error.causes@,
        before == after,
        is_cancelled,
{
    assert(longer.causes@.skip(1) =~= error.causes@);
    assert(cancelled.causes@[0] is Cancelled);
}

/// A command without an exit code counts as failed, and a streamed command is told
/// by its exit status alone.
pub proof fn law_exit_codes_are_handed_on(
    code: i32,
    known: i32,
    unknown: i32,
    action: &str,
    command: CommandLine,
    success: bool,
    r: Result<(), ProcessError>,
)
    requires
        call_ensures(process::run_status_code, (Some(code),), known),
        call_ensures(process::run_status_code, (None::<i32>,), unknown),
        call_ensures(
            process::require_streamed_success,
            (action, &command, success, Some(code)),
            r,
        ),
    ensures
        known == code,
        unknown == 1,
        r is Ok <==> success,
        r is Err ==> r->Err_0 is Failed && r->Err_0->Failed_action@ == action@
            && r->Err_0->Failed_detail@ == "exit status "@ + text::signed_decimal(code as int),
{
}

/// A wait is shown once: as a task where there is an interface, else as a spinner
/// on a terminal, else by one notice.
pub proof fn law_a_wait_is_shown_once(
    has_ui: bool,
    task_shown: bool,
    spinner_shown: bool,
    interactive: bool,
    notice_printed: bool,
    r: WaitDisplay,
)
    requires
        call_ensures(
            lock::wait_display,
            (has_ui, task_shown, spinner_shown, interactive, notice_printed),
            r,
        ),
    ensures
        r is StartTask <==> has_ui && !task_shown,
        r is TickSpinner <==> !has_ui && spinner_shown,
        r is StartSpinner <==> !has_ui && !spinner_shown && interactive,
        r is PrintNotice <==> !has_ui && !spinner_shown && !interactive && !notice_printed,
{
}

/// The variable that passes a lock on is kept by the two programs that raise
/// privileges, and no other program is given a word.
pub proof fn law_the_lock_is_passed_on(program: &str, list: Vec<String>)
    requires
        call_ensures(lock::privileged_arguments, (program,), list),
    ensures
        program@ == "sudo"@ ==> texts(list@) == seq![
            "--preserve-env=CAPULUS_SINGLE_INSTANCE_BYPASS"@,
        ],
        program@ == "doas"@ ==> texts(list@) == seq!["-E"@],
        program@ != "sudo"@ && program@ != "doas"@ ==> texts(list@).len() == 0,
{
    reveal_strlit("sudo");
    reveal_strlit("doas");
    assert("sudo"@[0] != "doas"@[0]);
}

} // verus!
