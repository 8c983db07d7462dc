//! What the changes of jobs and transactions keep, and what they rule out.

use vstd::prelude::*;

use super::job::{JobError, RedeployRequest, StoredJob};
use super::protocol::{JobId, JobPhase};
use super::transaction::{SystemInstallation, SystemUninstallation, TransactionError};

verus! {

/// Whether a job is still the same one: its identifier, its product, its release
/// and its unit.
pub open spec fn is_same_job(before: StoredJob, after: StoredJob) -> bool {
    &&& after.boot_id == before.boot_id
    &&& after.status.job == before.status.job
    &&& after.status.product == before.status.product
    &&& after.status.version == before.status.version
    &&& after.status.unit == before.status.unit
}

/// Whether a job has ended.
pub open spec fn has_ended(job: StoredJob) -> bool {
    job.status.phase is Complete || job.status.phase is Failed
}

/// A change of phase keeps what the job is, takes on what it is told, and is
/// refused without a trace where the job has ended.
pub proof fn law_an_update_keeps_the_job()
    ensures
        forall|
            job: &mut StoredJob,
            phase: JobPhase,
            detail: String,
            committed: bool,
            r: Result<(), JobError>,
        | #[trigger]
            call_ensures(StoredJob::update, (job, phase, detail, committed), r) ==> {
                let before = mut_ref_current(job);
                let after = mut_ref_future(job);
                &&& r is Err ==> after == before
                &&& has_ended(before) ==> r is Err
                &&& !has_ended(before) && phase is Failed ==> r is Ok
                &&& phase == before.status.phase ==> r is Err
                &&& r is Ok ==> is_same_job(before, after) && after.status.phase == phase
                    && after.status.system_committed == committed
                    && after.status.rollback_succeeded == before.status.rollback_succeeded
                    && after.status.required_user_reinstalled
                    == before.status.required_user_reinstalled
                &&& r is Ok && detail@.len() <= 2048
                    ==> after.status.detail@ == detail@
            },
{
}

/// A failure ends a job once, with what it left behind; a job that has ended
/// stays as it is.
pub proof fn law_a_failure_ends_a_job_once()
    ensures
        forall|
            job: &mut StoredJob,
            detail: String,
            committed: bool,
            rolled_back: Option<bool>,
            r: Result<String, JobError>,
        | #[trigger]
            call_ensures(StoredJob::fail, (job, detail, committed, rolled_back), r) ==> {
                let before = mut_ref_current(job);
                let after = mut_ref_future(job);
                &&& r is Err <==> has_ended(before)
                &&& r is Err ==> after == before
                &&& r is Ok ==> is_same_job(before, after) && after.status.phase is Failed
                    && after.status.system_committed == committed
                    && after.status.rollback_succeeded == rolled_back
                    && after.status.required_user_reinstalled
                    == before.status.required_user_reinstalled
            },
        forall|
            job: &mut StoredJob,
            detail: String,
            committed: bool,
            rolled_back: Option<bool>,
            reinstalled: Option<bool>,
            r: Result<String, JobError>,
        | #[trigger]
            call_ensures(
                StoredJob::fail_worker,
                (job, detail, committed, rolled_back, reinstalled),
                r,
            ) ==> {
                let before = mut_ref_current(job);
                let after = mut_ref_future(job);
                &&& r is Err <==> has_ended(before)
                &&& r is Err ==> after == before
                &&& r is Ok ==> is_same_job(before, after) && after.status.phase is Failed
                    && after.status.system_committed == committed
                    && after.status.rollback_succeeded == rolled_back
                    && after.status.required_user_reinstalled == reinstalled
            },
{
}

/// A job completes once, with the system committed, and can be neither changed
/// nor failed after that.
pub proof fn law_a_complete_job_stays_complete()
    ensures
        forall|
            job: &mut StoredJob,
            later: &mut StoredJob,
            reinstalled: Option<bool>,
            phase: JobPhase,
            detail: String,
            committed: bool,
            r: Result<(), JobError>,
            again: Result<(), JobError>,
        |
            #[trigger] call_ensures(StoredJob::complete, (job, reinstalled), r) && mut_ref_current(
                later,
            ) == mut_ref_future(job) && #[trigger] call_ensures(
                StoredJob::update,
                (later, phase, detail, committed),
                again,
            ) ==> {
                let before = mut_ref_current(job);
                let after = mut_ref_future(job);
                &&& r is Err <==> has_ended(before)
                &&& r is Err ==> after == before
                &&& r is Ok ==> is_same_job(before, after) && after.status.phase is Complete
                    && after.status.system_committed
                    && after.status.required_user_reinstalled == reinstalled && again is Err
                    && mut_ref_future(later) == after
            },
{
}

/// The outcome of a reinstallation is recorded while the job goes on, and changes
/// nothing else of it.
pub proof fn law_a_recorded_outcome_changes_nothing_else()
    ensures
        forall|job: &mut StoredJob, reinstalled: bool, r: Result<(), JobError>| #[trigger]
            call_ensures(StoredJob::record_required_user_reinstalled, (job, reinstalled), r) ==> {
                let before = mut_ref_current(job);
                let after = mut_ref_future(job);
                &&& r is Err <==> has_ended(before)
                &&& r is Err ==> after == before
                &&& r is Ok ==> is_same_job(before, after) && after.status.phase
                    == before.status.phase && after.status.detail == before.status.detail
                    && after.status.system_committed == before.status.system_committed
                    && after.status.rollback_succeeded == before.status.rollback_succeeded
                    && after.status.required_user_reinstalled == Some(reinstalled)
            },
{
}

/// Each commit counts one more record and changes nothing else; the files are
/// committed only once every record is, and an installation is accepted exactly
/// where its files are committed.
pub proof fn law_an_installation_advances_record_by_record()
    ensures
        forall|installation: &mut SystemInstallation| #[trigger]
            call_ensures(SystemInstallation::note_committed, (installation,), ()) && mut_ref_current(
                installation,
            )@.committed_records < mut_ref_current(installation)@.records@.len() <= usize::MAX ==> {
                let before = mut_ref_current(installation)@;
                let after = mut_ref_future(installation)@;
                &&& after.committed_records == before.committed_records + 1
                &&& after.records == before.records && after.job == before.job && after.product
                    == before.product && after.previously_enabled == before.previously_enabled
                    && after.target_enable_units == before.target_enable_units
                    && after.previous_service_file == before.previous_service_file
                    && after.accepted == before.accepted
            },
        forall|installation: &mut SystemInstallation| #[trigger]
            call_ensures(SystemInstallation::note_files_committed, (installation,), ())
                ==> mut_ref_future(installation)@ == mut_ref_current(installation)@
                && mut_ref_future(installation).committed(),
        forall|installation: &mut SystemInstallation| #[trigger]
            call_ensures(SystemInstallation::note_rolled_back, (installation,), ())
                ==> mut_ref_future(installation)@ == mut_ref_current(installation)@
                && !mut_ref_future(installation).committed(),
        forall|installation: &mut SystemInstallation, r: Result<(), TransactionError>| #[trigger]
            call_ensures(SystemInstallation::accept, (installation,), r) ==> {
                let before = mut_ref_current(installation);
                let after = mut_ref_future(installation);
                &&& r is Ok <==> before.committed()
                &&& r is Ok ==> after@.accepted && after.committed() && after@.records
                    == before@.records && after@.committed_records == before@.committed_records
                    && after@.job == before@.job && after@.product == before@.product
                    && after@.previously_enabled == before@.previously_enabled
                &&& r is Err ==> after == before
            },
{
}

/// A removal counts one more record each time and changes nothing else; it is
/// final once it is committed.
pub proof fn law_an_uninstallation_advances_record_by_record()
    ensures
        forall|removal: &mut SystemUninstallation| #[trigger]
            call_ensures(SystemUninstallation::note_removed, (removal,), ()) && mut_ref_current(
                removal,
            )@.committed_records < mut_ref_current(removal)@.records@.len() <= usize::MAX ==> {
                let before = mut_ref_current(removal)@;
                let after = mut_ref_future(removal)@;
                &&& after.committed_records == before.committed_records + 1
                &&& after.records == before.records && after.job == before.job && after.product
                    == before.product && after.previously_enabled == before.previously_enabled
                    && after.removal_committed == before.removal_committed
            },
        forall|removal: &mut SystemUninstallation| #[trigger]
            call_ensures(SystemUninstallation::note_deactivated, (removal,), ()) ==> mut_ref_future(
                removal,
            )@ == mut_ref_current(removal)@ && mut_ref_future(removal).inactive(),
        forall|removal: &mut SystemUninstallation| #[trigger]
            call_ensures(SystemUninstallation::commit_removal, (removal,), ()) ==> {
                let before = mut_ref_current(removal);
                let after = mut_ref_future(removal);
                &&& after@.removal_committed
                &&& after@.records == before@.records && after@.committed_records
                    == before@.committed_records && after@.job == before@.job && after@.product
                    == before@.product && after@.previously_enabled == before@.previously_enabled
                &&& after.inactive() == before.inactive()
            },
{
}

/// Files are removed only after the units were stopped, and a removal ends only
/// after every file was.
pub proof fn law_a_removal_waits_for_its_turn(
    removal: SystemUninstallation,
    check: Result<(), TransactionError>,
    end: Result<(), TransactionError>,
    done: bool,
)
    requires
        call_ensures(SystemUninstallation::check_removal, (&removal,), check),
        call_ensures(SystemUninstallation::check_finalize, (&removal,), end),
        call_ensures(SystemUninstallation::removal_committed, (&removal,), done),
    ensures
        check is Ok <==> removal.inactive(),
        end is Ok <==> removal@.committed_records == removal@.records@.len(),
        done <==> removal@.removal_committed,
        check is Err ==> check->Err_0 is RemoveBeforeDeactivation,
        end is Err ==> end->Err_0 is FinalizeIncomplete,
{
}

/// A queued job is the requested one, with nothing done, and a reboot interrupts
/// only a job that has not ended.
pub proof fn law_a_queued_job_is_the_requested_one(
    boot_id: String,
    request: RedeployRequest,
    unit: String,
    queued: StoredJob,
    now: &str,
    interrupted: bool,
    job: JobId,
    product: &str,
    identified: Result<(), JobError>,
)
    requires
        call_ensures(StoredJob::queued, (boot_id, &request, unit), queued),
        call_ensures(StoredJob::interrupted_by_reboot, (&queued, now), interrupted),
        call_ensures(StoredJob::check_identity, (&queued, &job, product), identified),
    ensures
        queued.boot_id == boot_id,
        queued.status.job == request.job,
        queued.status.product == request.product,
        queued.status.version@ == request.release.version@.text(),
        queued.status.unit == unit,
        queued.status.phase is Queued,
        !queued.status.system_committed,
        queued.status.rollback_succeeded is None && queued.status.required_user_reinstalled
            is None,
        interrupted <==> now@ != boot_id@,
        identified is Ok <==> request.job@ == job@ && request.product@ == product@,
{
}

} // verus!
