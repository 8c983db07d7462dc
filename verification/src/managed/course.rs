//! The course of managed operations: what follows what, and what a failure leads
//! to.

use vstd::prelude::*;

use super::installation::{FileFacts, InstallationError};
use super::job::{ScheduleEvent, ScheduleNext, ScheduleProgress, Scheduling};
use super::journal::{
    installation_stage, uninstallation_stage, InstallationJournal, InstallationRecord,
    UninstallationJournal, UninstallationRecord,
};
use super::manifest::{
    file_paths, product_files, InstallationManifest, ManagedFile, ManagedFileView,
};
use super::operation::{
    PrepareNext, PrepareProgress, PrepareStep, RecoverNext, RecoverStep, RepairEvent, RepairNext,
    RepairProgress, RepairStep, StepEnd, UndoNext, UndoStep,
};
use super::preparation;
use super::preparation::{Observation, PlannedFile};
use super::product::{service_name, unit_path, ManagedProduct};
use super::protocol::{
    JobId, JobPhase, ManagementResponse, ProtocolError, RequestId, ResponseEnvelope,
};
use super::server;
use super::transaction::{undo_outcome, Recovery, SystemInstallation, TransactionError, UndoOutcome};
use super::worker;
use super::worker::{WorkerEvent, WorkerNext, WorkerProgress, WorkerStep};
use crate::digest;
use crate::search::{first_failing, lemma_none_failing};
use crate::text::{opt, texts};
use crate::unix_path;
use crate::unix_path::{path, PathView};

verus! {

/// A preparation recovers what was interrupted, looks at what is there, writes
/// its journal and only then stages one file after the other. A failure while
/// staging is cleaned up after, and any other stops it.
pub proof fn law_a_preparation_runs_in_order(
    progress: PrepareProgress,
    planned: usize,
    error: String,
    next: PrepareNext,
    failed: PrepareNext,
    clean: PrepareProgress,
    interrupted: PrepareProgress,
)
    requires
        progress.sound(),
        call_ensures(PrepareProgress::advance, (progress, StepEnd::Done, planned), next),
        call_ensures(
            PrepareProgress::advance,
            (progress, StepEnd::Failed(error), planned),
            failed,
        ),
        call_ensures(PrepareProgress::begin, (false,), clean),
        call_ensures(PrepareProgress::begin, (true,), interrupted),
    ensures
        clean.step is RecoverUninstallation,
        interrupted.step is RecoverInstallation,
        progress.step is RecoverInstallation ==> next is Continue && next->Continue_0.step
            is RecoverUninstallation,
        progress.step is RecoverUninstallation ==> next is Continue && next->Continue_0.step
            is CheckArtifacts,
        progress.step is CheckArtifacts ==> next is Continue && next->Continue_0.step
            is ReadEnabledUnits,
        progress.step is ReadEnabledUnits ==> next is Continue && next->Continue_0.step
            is PlanRecords,
        progress.step is PlanRecords ==> next is Continue && next->Continue_0.step is WriteJournal
            && next->Continue_0.records == planned,
        progress.step is WriteJournal && progress.records > 0 ==> next is Continue
            && next->Continue_0.step == PrepareStep::Stage(0),
        next is Ready <==> (progress.step is WriteJournal && progress.records == 0) || (
        progress.step is Stage && progress.step->Stage_0 + 1 == progress.records),
        progress.step is Stage && progress.step->Stage_0 + 1 < progress.records ==> next is Continue
            && next->Continue_0.step is Stage && next->Continue_0.step->Stage_0
            == progress.step->Stage_0 + 1 && next->Continue_0.records == progress.records,
        progress.step is CleanStaging ==> next is Continue && next->Continue_0.step
            is RemoveJournal,
        next is Failed <==> progress.step is RemoveJournal,
        progress.step is RemoveJournal ==> Some(next->Failed_0) == progress.error,
        progress.step is Stage ==> failed is Continue && failed->Continue_0.step is CleanStaging
            && failed->Continue_0.error == Some(error),
        !(progress.step is Stage) ==> failed == PrepareNext::Failed(error),
{
}

/// A recovery ends only after its files, its units and what was staged are in
/// order and its journal is gone; a failure stops it where it is.
pub proof fn law_a_recovery_runs_in_order(
    step: RecoverStep,
    error: String,
    next: RecoverNext,
    failed: RecoverNext,
    kept: RecoverStep,
    undone: RecoverStep,
)
    requires
        call_ensures(RecoverStep::advance, (step, StepEnd::Done), next),
        call_ensures(RecoverStep::advance, (step, StepEnd::Failed(error)), failed),
        call_ensures(RecoverStep::begin, (Recovery::VerifyAndRefresh,), kept),
        call_ensures(RecoverStep::begin, (Recovery::RollBackAndRestore,), undone),
    ensures
        kept is VerifyFiles,
        undone is UndoFiles,
        failed == RecoverNext::Failed(error),
        !(next is Failed),
        next is Recovered <==> step is RemoveJournal,
        step is VerifyFiles <==> next == RecoverNext::Continue(RecoverStep::RefreshUnits),
        step is UndoFiles <==> next == RecoverNext::Continue(RecoverStep::RestoreUnits),
        step is RefreshUnits || step is RestoreUnits <==> next == RecoverNext::Continue(
            RecoverStep::CleanStaging,
        ),
        step is CleanStaging <==> next == RecoverNext::Continue(RecoverStep::RemoveJournal),
{
}

/// Undoing restores the units also where the files could not be restored, and
/// removes the journal only where both went well.
pub proof fn law_undoing_restores_both_before_it_ends(
    files: StepEnd,
    end: StepEnd,
    first: UndoNext,
    second: UndoNext,
    third: UndoNext,
    fourth: UndoNext,
)
    requires
        call_ensures(UndoStep::advance, (UndoStep::UndoFiles, files), first),
        call_ensures(UndoStep::advance, (UndoStep::RestoreUnits { files }, end), second),
        call_ensures(UndoStep::advance, (UndoStep::CleanStaging, end), third),
        call_ensures(UndoStep::advance, (UndoStep::RemoveJournal, end), fourth),
    ensures
        first == UndoNext::Continue(UndoStep::RestoreUnits { files }),
        files is Done && end is Done ==> second == UndoNext::Continue(UndoStep::CleanStaging),
        files is Failed && end is Done ==> second == UndoNext::Stopped(
            UndoOutcome::FilesFailed(files->Failed_0),
        ),
        files is Done && end is Failed ==> second == UndoNext::Stopped(
            UndoOutcome::UnitsFailed(end->Failed_0),
        ),
        files is Failed && end is Failed ==> second == UndoNext::Stopped(
            UndoOutcome::BothFailed { files: files->Failed_0, units: end->Failed_0 },
        ),
        end is Done ==> third == UndoNext::Continue(UndoStep::RemoveJournal) && fourth is Undone,
        end is Failed ==> third == UndoNext::Failed(end->Failed_0) && fourth == UndoNext::Failed(
            end->Failed_0,
        ),
{
}

/// What came of undoing tells which of the two halves failed, and why.
pub proof fn law_an_undoing_tells_what_failed(
    files: Result<(), String>,
    units: Result<(), String>,
    r: UndoOutcome,
)
    requires
        call_ensures(undo_outcome, (files, units), r),
    ensures
        r is Undone <==> files is Ok && units is Ok,
        r is FilesFailed <==> files is Err && units is Ok,
        r is UnitsFailed <==> files is Ok && units is Err,
        r is FilesFailed ==> r->FilesFailed_0 == files->Err_0,
        r is UnitsFailed ==> r->UnitsFailed_0 == units->Err_0,
        r is BothFailed ==> r->files == files->Err_0 && r->units == units->Err_0,
{
}

/// A repair looks at every file in its order and refreshes the units last. It
/// tells that something changed exactly where a file was repaired.
pub proof fn law_a_repair_looks_at_every_file(
    progress: RepairProgress,
    files: Vec<ManagedFile>,
    error: String,
    done: RepairNext,
    failed: RepairNext,
)
    requires
        files@.len() <= usize::MAX,
        progress.sound(files@.len() as int),
        !(progress.step is Inspect),
        call_ensures(RepairProgress::advance, (progress, &files, RepairEvent::Done), done),
        call_ensures(
            RepairProgress::advance,
            (progress, &files, RepairEvent::Failed(error)),
            failed,
        ),
    ensures
        failed == RepairNext::Failed(error),
        progress.step is RecoverInstallation ==> done is Continue && done->Continue_0.step
            is RecoverUninstallation && done->Continue_0.changed == progress.changed,
        progress.step is RecoverUninstallation ==> done is Continue && done->Continue_0.changed
            == progress.changed,
        progress.step is RecoverUninstallation && files@.len() > 0 ==> done->Continue_0.step
            == RepairStep::Inspect(0),
        progress.step is RecoverUninstallation && files@.len() == 0 ==> done->Continue_0.step
            is Refresh,
        progress.step is Repair ==> done is Continue && done->Continue_0.changed && (
        progress.step->file + 1 < files@.len() ==> done->Continue_0.step is Inspect
            && done->Continue_0.step->Inspect_0 == progress.step->file + 1) && (progress.step->file
            + 1 == files@.len() ==> done->Continue_0.step is Refresh),
        done is Repaired <==> progress.step is Refresh,
        progress.step is Refresh ==> done->Repaired_0.changed == progress.changed,
{
}

/// A worker goes through its steps in their order, tells the user's program apart
/// from the system, and completes exactly where the installation was accepted and
/// no work for the user failed.
pub proof fn law_a_worker_runs_in_order(progress: WorkerProgress, next: WorkerNext)
    requires
        progress.expects(WorkerEvent::Done),
        call_ensures(WorkerProgress::advance, (progress, WorkerEvent::Done), next),
    ensures
        next is Complete <==> progress.step is Finalize && progress.error is None,
        next is Complete ==> next->required_user_reinstalled == progress.reinstalled,
        next is Fail <==> progress.step is RollBack || progress.step is Finalize && progress.error
            is Some,
        next is Fail && progress.step is Finalize ==> next->Fail_0.system_committed
            && next->Fail_0.rollback_succeeded is None,
        next is Fail && progress.step is RollBack ==> !next->Fail_0.system_committed
            && next->Fail_0.rollback_succeeded == Some(true),
        next is Continue ==> {
            let after = next->Continue_0;
            &&& after.user_required == progress.user_required
            &&& after.reinstalled == progress.reinstalled
            &&& opt(after.error) == opt(progress.error)
            &&& after.step is PrepareBuild <==> progress.step is NotePreparing
            &&& after.step is EnsureToolchain <==> progress.step is NoteToolchain
            &&& after.step is CompileAndPrepareUser <==> progress.step is NoteBuilding
            &&& after.step is PrepareInstallation <==> progress.step is NoteStaging
            &&& after.step is CommitFiles <==> progress.step is NoteCommitting
            &&& after.step is Activate <==> progress.step is CommitFiles
            &&& after.step is NoteRestarting <==> progress.step is Activate
            &&& after.step is AwaitHealth <==> progress.step is NoteRestarting
            &&& after.step is NoteReinstalling <==> progress.step is AwaitHealth
                && progress.user_required
            &&& after.step is ReinstallUser <==> progress.step is NoteReinstalling
            &&& after.step is CleanUpUser <==> progress.step is RecordReinstalled
            &&& after.step is Finalize <==> progress.step is CleanUpUser || progress.step
                is AwaitHealth && !progress.user_required
            &&& after.step is NoteToolchain <==> progress.step is PrepareBuild
            &&& after.step is NoteBuilding <==> progress.step is EnsureToolchain
            &&& after.step is NoteValidating <==> progress.step is CompileAndPrepareUser
            &&& after.step is NoteStaging <==> progress.step is NoteValidating
            &&& after.step is NoteCommitting <==> progress.step is PrepareInstallation
            &&& !(after.step is RollBack)
        },
{
}

/// Whether nothing of the system was changed before a step.
pub open spec fn changes_nothing_yet(step: WorkerStep) -> bool {
    ||| step is TakeRequest
    ||| step is NotePreparing
    ||| step is PrepareBuild
    ||| step is NoteToolchain
    ||| step is EnsureToolchain
    ||| step is NoteBuilding
    ||| step is CompileAndPrepareUser
    ||| step is NoteValidating
    ||| step is NoteStaging
    ||| step is PrepareInstallation
    ||| step is NoteCommitting
}

/// A failure before anything was changed is told as it is. One after that rolls
/// the installation back, except that of the work for the user, which is noted.
pub proof fn law_a_workers_failure_is_undone(
    progress: WorkerProgress,
    error: String,
    next: WorkerNext,
)
    requires
        progress.expects(WorkerEvent::Failed(error)),
        call_ensures(WorkerProgress::advance, (progress, WorkerEvent::Failed(error)), next),
    ensures
        next is Fail <==> changes_nothing_yet(progress.step),
        next is Fail ==> next->Fail_0.error@ == error@ && !next->Fail_0.system_committed
            && next->Fail_0.rollback_succeeded is None && next->Fail_0.required_user_reinstalled
            is None,
        next is Continue <==> !changes_nothing_yet(progress.step),
        next is Continue ==> next->Continue_0.error is Some,
        progress.step is RecordReinstalled ==> next->Continue_0.step is CleanUpUser
            && next->Continue_0.reinstalled == progress.reinstalled,
        progress.step is CleanUpUser ==> next->Continue_0.step is Finalize
            && next->Continue_0.reinstalled == progress.reinstalled,
        next is Continue && !(progress.step is RecordReinstalled) && !(progress.step is CleanUpUser)
            ==> next->Continue_0.step is RollBack && next->Continue_0.error->Some_0@ == error@,
{
}

/// An installation that could not be accepted is rolled back; one that was
/// accepted stays, whatever failed after that. A rollback that failed is told
/// with what was left.
pub proof fn law_an_accepted_installation_stays(
    progress: WorkerProgress,
    error: String,
    accepted: bool,
    files_committed: bool,
    finalized: WorkerNext,
    rolled_back: WorkerNext,
)
    requires
        progress.step is Finalize ==> call_ensures(
            WorkerProgress::advance,
            (progress, WorkerEvent::FinalizeFailed { error, accepted }),
            finalized,
        ),
        progress.step is RollBack ==> call_ensures(
            WorkerProgress::advance,
            (progress, WorkerEvent::RollBackFailed { error, files_committed }),
            rolled_back,
        ),
    ensures
        progress.step is Finalize && accepted ==> finalized is Fail
            && finalized->Fail_0.system_committed && finalized->Fail_0.rollback_succeeded is None
            && finalized->Fail_0.required_user_reinstalled == progress.reinstalled,
        progress.step is Finalize && !accepted ==> finalized is Continue
            && finalized->Continue_0.step is RollBack && finalized->Continue_0.error is Some,
        progress.step is RollBack ==> rolled_back is Fail && rolled_back->Fail_0.system_committed
            == files_committed && rolled_back->Fail_0.rollback_succeeded == Some(false)
            && rolled_back->Fail_0.required_user_reinstalled == progress.reinstalled,
{
}

/// Taking the request decides whether work for the user is due, and a
/// reinstallation keeps its outcome and its error.
pub proof fn law_a_worker_keeps_what_it_was_told(
    progress: WorkerProgress,
    user_required: bool,
    outcome: bool,
    attempt: Option<String>,
    taken: WorkerNext,
    reinstalled: WorkerNext,
)
    requires
        progress.step is TakeRequest ==> call_ensures(
            WorkerProgress::advance,
            (progress, WorkerEvent::Taken { user_required }),
            taken,
        ),
        progress.step is ReinstallUser ==> call_ensures(
            WorkerProgress::advance,
            (progress, WorkerEvent::Reinstalled { outcome, error: attempt }),
            reinstalled,
        ),
    ensures
        progress.step is TakeRequest ==> taken is Continue && taken->Continue_0.step
            is NotePreparing && taken->Continue_0.user_required == user_required,
        progress.step is ReinstallUser ==> reinstalled is Continue && reinstalled->Continue_0.step
            is RecordReinstalled && reinstalled->Continue_0.reinstalled == Some(outcome) && opt(
            reinstalled->Continue_0.error,
        ) == opt(attempt) && reinstalled->Continue_0.user_required == progress.user_required,
{
}

/// A note tells the phase of its step, and that the system is committed exactly
/// from the restart on.
pub proof fn law_notes_tell_the_phase(
    step: WorkerStep,
    note: Option<(JobPhase, &'static str, bool)>,
)
    requires
        call_ensures(worker::step_note, (step,), note),
    ensures
        step is NotePreparing <==> note is Some && note->Some_0.0 is Preparing,
        step is NoteToolchain <==> note is Some && note->Some_0.0 is Toolchain,
        step is NoteBuilding <==> note is Some && note->Some_0.0 is Building,
        step is NoteValidating <==> note is Some && note->Some_0.0 is Validating,
        step is NoteStaging <==> note is Some && note->Some_0.0 is Staging,
        step is NoteCommitting <==> note is Some && note->Some_0.0 is CommittingSystem,
        step is NoteRestarting <==> note is Some && note->Some_0.0 is RestartingAgent,
        step is NoteReinstalling <==> note is Some && note->Some_0.0 is ReinstallingUser,
        note matches Some(n) ==> (n.2 <==> !changes_nothing_yet(step)),
{
}

/// A job is scheduled in order: the request is written before the state of the
/// job, and that before its unit is started. A unit that did not start leaves a
/// failed job without a request; any other failure is told at once.
pub proof fn law_a_job_is_scheduled_in_order(
    progress: ScheduleProgress,
    error: String,
    next: ScheduleNext,
    failed: ScheduleNext,
)
    requires
        call_ensures(ScheduleProgress::advance, (progress, ScheduleEvent::Failed(error)), failed),
        progress.expects(ScheduleEvent::Done),
        call_ensures(ScheduleProgress::advance, (progress, ScheduleEvent::Done), next),
    ensures
        failed is Continue <==> progress.step is StartUnit,
        failed is Continue ==> failed->Continue_0.step is FailJob
            && failed->Continue_0.start_error == Some(error),
        !(failed is Continue) ==> failed == ScheduleNext::Failed(error),
        next is Started <==> progress.step is StartUnit,
        next is Failed <==> progress.step is RemoveRequest,
        next is Failed ==> Some(next->Failed_0) == progress.start_error,
        progress.step is FailJob ==> next is Continue && next->Continue_0.step is RemoveRequest
            && next->Continue_0.start_error == progress.start_error,
        progress.step is Reconcile ==> next is Continue && next->Continue_0.step is ReadActive,
        progress.step is ClearActive ==> next is Continue && next->Continue_0.step
            is ValidateRequest,
        progress.step is ValidateRequest ==> next is Continue && next->Continue_0.step
            is WriteRequest,
        progress.step is WriteRequest ==> next is Continue && next->Continue_0.step is Initialize,
        progress.step is Initialize ==> next is Continue && next->Continue_0.step is StartUnit,
{
}

/// What is decided about the active job is what is done: a job is started, the
/// old one is cleared first, the old one is shared, or the request is refused.
pub proof fn law_a_decision_is_followed(
    progress: ScheduleProgress,
    decision: Result<Scheduling, super::job::JobError>,
    next: ScheduleNext,
)
    requires
        progress.step is ReadActive,
        call_ensures(ScheduleProgress::advance, (progress, ScheduleEvent::Decided(decision)), next),
    ensures
        decision is Err <==> next is Refused,
        decision is Err ==> next->Refused_0 == decision->Err_0,
        decision is Ok && decision->Ok_0 is Share <==> next is Shared,
        next is Shared ==> next->Shared_0 == decision->Ok_0->Share_0,
        decision is Ok && decision->Ok_0 is Start <==> next is Continue && next->Continue_0.step
            is ValidateRequest,
        decision is Ok && decision->Ok_0 is Replace <==> next is Continue && next->Continue_0.step
            is ClearActive,
{
}

/// An activation needs committed files, and a rollback one that was not accepted.
pub proof fn law_a_transaction_ends_one_way(
    installation: SystemInstallation,
    committed: bool,
    accepted: bool,
    activation: Result<(), TransactionError>,
    rollback: Result<(), TransactionError>,
)
    requires
        call_ensures(SystemInstallation::files_committed, (&installation,), committed),
        call_ensures(SystemInstallation::acceptance_committed, (&installation,), accepted),
        call_ensures(SystemInstallation::check_activation, (&installation,), activation),
        call_ensures(SystemInstallation::check_rollback, (&installation,), rollback),
    ensures
        activation is Ok <==> committed,
        rollback is Ok <==> !accepted,
        activation is Err ==> activation->Err_0 is ActivateUncommitted,
        rollback is Err ==> rollback->Err_0 is RollBackAccepted,
{
}

/// An answer keeps the identifier of its request and the protocol; a request in
/// another protocol is refused with that error.
pub proof fn law_every_request_is_answered_under_its_identifier(
    request_id: RequestId,
    handled: Result<ManagementResponse, ProtocolError>,
    minimum: u16,
    maximum: u16,
    answer: ResponseEnvelope,
    refused: ResponseEnvelope,
    supported: bool,
)
    requires
        call_ensures(server::response_to, (request_id, handled), answer),
        call_ensures(server::refusal, (request_id,), refused),
        call_ensures(server::is_supported, (minimum, maximum), supported),
    ensures
        answer.request_id == request_id && refused.request_id == request_id,
        answer.protocol_major == 1 && refused.protocol_major == 1,
        handled is Ok <==> answer.body is Answer,
        handled matches Ok(a) ==> answer.body->Answer_0 == a,
        handled matches Err(e) ==> answer.body is Error && answer.body->Error_0 == e,
        refused.body is Error && refused.body->Error_0.code is UnsupportedProtocol,
        supported <==> minimum <= 1 && 1 <= maximum,
{
}

// ---------------------------------------------------------------------------
// Preparation
// ---------------------------------------------------------------------------

/// An installation touches every file of its manifest, in their order, and then
/// those files of the product that the manifest has no more, to take them away.
pub proof fn law_every_file_is_planned(
    product: &ManagedProduct,
    manifest: &InstallationManifest,
    planned: Vec<PlannedFile>,
    i: int,
    k: int,
)
    requires
        call_ensures(preparation::plan_files, (product, manifest), planned),
        manifest@.files.len() <= usize::MAX,
    ensures
        planned@.len() >= manifest@.files.len(),
        0 <= i < manifest@.files.len() ==> planned@[i].destination@
            == manifest@.files[i].destination() && planned@[i].file == Some(i as usize),
        manifest@.files.len() <= i < planned@.len() ==> planned@[i].file is None && !file_paths(
            manifest@.files,
        ).contains(path(planned@[i].destination@)) && is_file_of(
            product_files(product@),
            planned@[i].destination@,
        ),
        0 <= k < product_files(product@).len() ==> exists|n: int|
            0 <= n < planned@.len() && path((#[trigger] planned@[n]).destination@) == path(
                product_files(product@)[k].destination(),
            ),
{
    let plan = preparation::planned_views(planned@);
    let files = manifest@.files;
    let target = file_paths(files);
    let retired = preparation::retired_plan(product_files(product@), target);
    lemma_retired(product_files(product@), target);
    assert(plan.len() == planned@.len());
    if 0 <= i < planned@.len() {
        assert(plan[i] == (planned@[i].destination@, planned@[i].file));
        if i >= files.len() {
            assert(plan[i] == retired[i - files.len()]);
        }
    }
    if 0 <= k < product_files(product@).len() {
        let p = path(product_files(product@)[k].destination());
        if target.contains(p) {
            let n = choose|n: int| 0 <= n < target.len() && target[n] == p;
            assert(plan[n] == (planned@[n].destination@, planned@[n].file));
            assert(path(planned@[n].destination@) == p);
        } else {
            let n = choose|n: int|
                0 <= n < retired.len() && (#[trigger] retired[n]).0 == product_files(
                    product@,
                )[k].destination();
            let m = files.len() + n;
            assert(plan[m] == retired[n]);
            assert(plan[m] == (planned@[m].destination@, planned@[m].file));
            assert(path(planned@[m].destination@) == p);
        }
    }
}

/// Whether a path is that of a file.
pub open spec fn is_file_of(files: Seq<ManagedFileView>, destination: Seq<char>) -> bool {
    exists|n: int| 0 <= n < files.len() && (#[trigger] files[n]).destination() == destination
}

proof fn lemma_retired(current: Seq<ManagedFileView>, target: Seq<PathView>)
    ensures
        ({
            let retired = preparation::retired_plan(current, target);
            &&& forall|n: int|
                0 <= n < retired.len() ==> (#[trigger] retired[n]).1 is None && !target.contains(
                    path(retired[n].0),
                ) && is_file_of(current, retired[n].0)
            &&& forall|k: int|
                0 <= k < current.len() && !target.contains(
                    path((#[trigger] current[k]).destination()),
                ) ==> holds(retired, current[k].destination())
        }),
    decreases current.len(),
{
    if current.len() > 0 {
        let shorter = current.drop_last();
        lemma_retired(shorter, target);
        let before = preparation::retired_plan(shorter, target);
        let retired = preparation::retired_plan(current, target);
        assert forall|n: int| 0 <= n < retired.len() implies (#[trigger] retired[n]).1 is None
            && !target.contains(path(retired[n].0)) && is_file_of(current, retired[n].0) by {
            if n < before.len() {
                assert(retired[n] == before[n]);
                let m = choose|m: int|
                    0 <= m < shorter.len() && (#[trigger] shorter[m]).destination() == before[n].0;
                assert(current[m] == shorter[m]);
            } else {
                assert(current[current.len() - 1].destination() == retired[n].0);
            }
        }
        assert forall|k: int|
            0 <= k < current.len() && !target.contains(
                path((#[trigger] current[k]).destination()),
            ) implies holds(retired, current[k].destination()) by {
            if k < shorter.len() {
                assert(shorter[k] == current[k]);
                assert(holds(before, shorter[k].destination()));
                let n = choose|n: int|
                    0 <= n < before.len() && (#[trigger] before[n]).0 == current[k].destination();
                assert(retired[n] == before[n]);
            } else {
                assert(retired[retired.len() - 1].0 == current[k].destination());
            }
        }
    }
}

/// Whether a destination is among those of a plan.
pub open spec fn holds(plan: Seq<(Seq<char>, Option<usize>)>, destination: Seq<char>) -> bool {
    exists|n: int| 0 <= n < plan.len() && (#[trigger] plan[n]).0 == destination
}

/// A planned file is staged and set aside in the staging directory beside it,
/// under its own name, the new one apart from the old one. What is there is noted
/// by its digest; what is not an installed file, or cannot be read, is not
/// touched.
pub proof fn law_a_planned_file_is_staged_beside_it(
    product: &ManagedProduct,
    job: JobId,
    destination: String,
    new_digest: Option<String>,
    facts: FileFacts,
    name: &str,
    stage: String,
    r: Result<InstallationRecord, InstallationError>,
)
    requires
        unix_path::is_plain(path(destination@)),
        path(destination@).parts.len() > 0,
        name@ == product@.product@,
        call_ensures(installation_stage, (name, &job), stage),
        call_ensures(
            preparation::plan_record,
            (product, &job, &destination, new_digest, &facts),
            r,
        ),
    ensures
        r is Ok <==> unix_path::parent(path(destination@)) is Some && unix_path::file_name(
            path(destination@),
        ) is Some && (facts.present ==> facts.installed && facts.digest is Some),
        r is Err ==> r->Err_0.path == destination,
        r matches Ok(record) ==> {
            let at = path(destination@);
            let beside = at.parts.drop_last() + path(stage@).parts;
            &&& record.destination@ == destination@
            &&& record.new_digest == new_digest
            &&& facts.present ==> opt(record.original_digest) == opt(facts.digest)
            &&& !facts.present ==> record.original_digest is None
            &&& path(record.staged@).parts == beside.push("new"@).push(at.parts.last())
            &&& path(record.backup@).parts == beside.push("old"@).push(at.parts.last())
            &&& path(record.staged@).absolute == at.absolute
            &&& path(record.backup@).absolute == at.absolute
            &&& path(record.staged@) != path(record.backup@)
        },
{
    if r is Ok {
        let record = r->Ok_0;
        let at = path(destination@);
        let beside = at.parts.drop_last() + path(stage@).parts;
        assert(path(record.staged@).parts =~= beside.push("new"@).push(at.parts.last()));
        assert(path(record.backup@).parts =~= beside.push("old"@).push(at.parts.last()));
        reveal_strlit("new");
        reveal_strlit("old");
        assert("new"@[0] != "old"@[0]);
        assert(path(record.staged@).parts[beside.len() as int] == "new"@);
        assert(path(record.backup@).parts[beside.len() as int] == "old"@);
    }
}

/// A file to be removed is set aside beside it, and it is one that was installed
/// and can be read.
pub proof fn law_a_file_is_removed_only_where_it_was_installed(
    product: &ManagedProduct,
    job: JobId,
    destination: String,
    facts: FileFacts,
    name: &str,
    stage: String,
    r: Result<UninstallationRecord, InstallationError>,
)
    requires
        unix_path::is_plain(path(destination@)),
        path(destination@).parts.len() > 0,
        name@ == product@.product@,
        call_ensures(uninstallation_stage, (name, &job), stage),
        call_ensures(
            preparation::plan_uninstallation_record,
            (product, &job, &destination, &facts),
            r,
        ),
    ensures
        r is Ok <==> facts.present && facts.installed && facts.digest is Some,
        r matches Ok(record) ==> record.destination@ == destination@ && record.digest@
            == facts.digest->Some_0@ && path(record.backup@).parts == (path(
            destination@,
        ).parts.drop_last() + path(stage@).parts).push("old"@).push(path(destination@).parts.last())
            && path(record.backup@).absolute == path(destination@).absolute,
{
    if r is Ok {
        let at = path(destination@);
        assert(path(r->Ok_0.backup@).parts =~= (at.parts.drop_last() + path(stage@).parts).push(
            "old"@,
        ).push(at.parts.last()));
    }
}

/// A journal begins with nothing committed and keeps what it was made of; it
/// tells whether there was a service before.
pub proof fn law_a_journal_begins_with_nothing_done(
    product: &ManagedProduct,
    job: JobId,
    manifest: &InstallationManifest,
    enabled: Vec<String>,
    records: Vec<InstallationRecord>,
    journal: InstallationJournal,
)
    requires
        call_ensures(preparation::plan_journal, (product, &job, manifest, enabled, records), journal),
    ensures
        journal.product@ == product@.product@,
        journal.job == job,
        journal.previously_enabled == enabled,
        journal.records == records,
        texts(journal.target_enable_units@) == manifest@.enable_units,
        journal.committed_records == 0 && !journal.accepted,
        journal.previous_service_file <==> exists|i: int|
            0 <= i < records@.len() && path((#[trigger] records@[i]).destination@) == path(
                unit_path(service_name(product@.product@)),
            ) && records@[i].original_digest is Some,
{
}

/// A prepared journal has a record for every planned file, in their order: with
/// the digest of the text, or of the artifact, that will be there, and of what is
/// there. One file that cannot be touched, and nothing else, refuses the whole.
pub proof fn law_a_prepared_journal_covers_the_plan(
    product: &ManagedProduct,
    job: JobId,
    manifest: &InstallationManifest,
    seen: Vec<Observation>,
    enabled: Vec<String>,
    planned: Vec<PlannedFile>,
    r: Result<InstallationJournal, InstallationError>,
    k: int,
)
    requires
        manifest@.accepted(product@.product@),
        call_ensures(preparation::plan_files, (product, manifest), planned),
        seen@.len() == planned@.len(),
        call_ensures(
            preparation::prepare_journal,
            (product, &job, manifest, &seen, enabled),
            r,
        ),
        0 <= k < planned@.len(),
    ensures
        r matches Ok(j) ==> {
            let record = j.records@[k];
            &&& j.records@.len() == planned@.len()
            &&& j.job == job && j.previously_enabled == enabled
            &&& j.product@ == product@.product@
            &&& record.destination@ == planned@[k].destination@
            &&& record.new_digest is Some <==> planned@[k].file is Some
            &&& seen@[k].facts.present ==> opt(record.original_digest) == opt(seen@[k].facts.digest)
                && seen@[k].facts.installed
            &&& !seen@[k].facts.present ==> record.original_digest is None
            &&& planned@[k].file matches Some(n) ==> (match manifest@.files[n as int] {
                ManagedFileView::Binary { .. } => opt(record.new_digest) == opt(
                    seen@[k].artifact_digest,
                ),
                ManagedFileView::Text { contents, .. } => opt(record.new_digest) == Some(
                    digest::digest_text(vstd::utf8::encode_utf8(contents)),
                ),
            })
        },
        seen@[k].facts.present && !seen@[k].facts.installed ==> r is Err,
        seen@[k].facts.present && seen@[k].facts.digest is None ==> r is Err,
{
    let plan = preparation::installation_plan(product@, manifest@);
    assert(preparation::planned_views(planned@) == plan);
    assert(plan.len() == planned@.len());
    assert(plan[k] == (planned@[k].destination@, planned@[k].file));
    let p = |i: int| preparation::observation_check(manifest@, plan[i], seen@[i]) is None;
    lemma_none_failing(p, plan.len(), 0);
    let i = first_failing(p, plan.len(), 0);
    if i >= plan.len() {
        assert(p(k));
        let j = r->Ok_0;
        assert(preparation::record_observed(
            j.records@[k],
            product@.product@,
            job,
            manifest@,
            plan[k],
            seen@[k],
        ));
    }
}

/// An uninstallation removes each of its files, the agent's own program last.
pub proof fn law_the_agent_is_removed_last(
    product: &ManagedProduct,
    job: JobId,
    enabled: Vec<String>,
    records: Vec<UninstallationRecord>,
    journal: UninstallationJournal,
    i: int,
    j: int,
)
    requires
        call_ensures(
            preparation::plan_uninstallation_journal,
            (product, &job, enabled, &records),
            journal,
        ),
    ensures
        journal.product@ == product@.product@ && journal.job == job,
        journal.previously_enabled == enabled,
        journal.committed_records == 0 && !journal.removal_committed,
        journal.records@.len() == records@.len(),
        0 <= i < records@.len() ==> journal.records@.contains(records@[i]),
        0 <= i < journal.records@.len() ==> records@.contains(journal.records@[i]),
        0 <= i < j < journal.records@.len() && path(journal.records@[i].destination@) == path(
            product@.agent_binary@,
        ) ==> path(journal.records@[j].destination@) == path(product@.agent_binary@),
{
    let agent = path(product@.agent_binary@);
    let rest = preparation::selected(records@, agent, false);
    let last = preparation::selected(records@, agent, true);
    lemma_parted(records@, agent);
    let all = journal.records@;
    assert(all == rest + last);
    if 0 <= i < records@.len() {
        if path(records@[i].destination@) == agent {
            let n = choose|n: int| 0 <= n < last.len() && last[n] == records@[i];
            assert(all[rest.len() + n] == records@[i]);
        } else {
            let n = choose|n: int| 0 <= n < rest.len() && rest[n] == records@[i];
            assert(all[n] == records@[i]);
        }
    }
    if 0 <= i < all.len() {
        if i < rest.len() {
            assert(all[i] == rest[i]);
        } else {
            assert(all[i] == last[i - rest.len()]);
        }
    }
    if 0 <= j < all.len() {
        if j < rest.len() {
            assert(all[j] == rest[j]);
        } else {
            assert(all[j] == last[j - rest.len()]);
        }
    }
}

proof fn lemma_parted(records: Seq<UninstallationRecord>, p: PathView)
    ensures
        ({
            let rest = preparation::selected(records, p, false);
            let last = preparation::selected(records, p, true);
            &&& rest.len() + last.len() == records.len()
            &&& forall|n: int|
                0 <= n < rest.len() ==> path((#[trigger] rest[n]).destination@) != p
                    && records.contains(rest[n])
            &&& forall|n: int|
                0 <= n < last.len() ==> path((#[trigger] last[n]).destination@) == p
                    && records.contains(last[n])
            &&& forall|i: int|
                0 <= i < records.len() && path((#[trigger] records[i]).destination@) == p
                    ==> last.contains(records[i])
            &&& forall|i: int|
                0 <= i < records.len() && path((#[trigger] records[i]).destination@) != p
                    ==> rest.contains(records[i])
        }),
    decreases records.len(),
{
    if records.len() > 0 {
        let shorter = records.drop_last();
        lemma_parted(shorter, p);
        let rest = preparation::selected(records, p, false);
        let last = preparation::selected(records, p, true);
        let rest_before = preparation::selected(shorter, p, false);
        let last_before = preparation::selected(shorter, p, true);
        assert(records[records.len() - 1] == records.last());
        assert forall|n: int| 0 <= n < rest.len() implies path((#[trigger] rest[n]).destination@)
            != p && records.contains(rest[n]) by {
            if n < rest_before.len() {
                assert(rest[n] == rest_before[n]);
                let m = choose|m: int| 0 <= m < shorter.len() && shorter[m] == rest_before[n];
                assert(records[m] == rest[n]);
            }
        }
        assert forall|n: int| 0 <= n < last.len() implies path((#[trigger] last[n]).destination@)
            == p && records.contains(last[n]) by {
            if n < last_before.len() {
                assert(last[n] == last_before[n]);
                let m = choose|m: int| 0 <= m < shorter.len() && shorter[m] == last_before[n];
                assert(records[m] == last[n]);
            }
        }
        assert forall|i: int|
            0 <= i < records.len() && path((#[trigger] records[i]).destination@)
                == p implies last.contains(records[i]) by {
            if i < shorter.len() {
                assert(shorter[i] == records[i]);
                let n = choose|n: int| 0 <= n < last_before.len() && last_before[n] == records[i];
                assert(last[n] == records[i]);
            } else {
                assert(last[last.len() - 1] == records[i]);
            }
        }
        assert forall|i: int|
            0 <= i < records.len() && path((#[trigger] records[i]).destination@)
                != p implies rest.contains(records[i]) by {
            if i < shorter.len() {
                assert(shorter[i] == records[i]);
                let n = choose|n: int| 0 <= n < rest_before.len() && rest_before[n] == records[i];
                assert(rest[n] == records[i]);
            } else {
                assert(rest[rest.len() - 1] == records[i]);
            }
        }
    }
}

} // verus!
