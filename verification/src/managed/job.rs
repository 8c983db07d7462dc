//! Redeploy jobs: who may start one, when two requests share one, and how its
//! stored state moves from phase to phase.

use vstd::prelude::*;

use super::account::{UnixAccount, UnixGroup, UserInstallContext};
use super::product::{ManagedProduct, ManagedProductOptions};
use super::protocol::{JobId, JobPhase, PeerCredentials, RedeployJob, RedeployOutcome};
use super::release::{ReleaseValidationError, ResolvedRelease};
use crate::duration::{Duration, NANOS_PER_SECOND};
use crate::text;
use crate::unix_path;
use crate::version::{semver_before, Version};

verus! {

pub const STATE_ROOT: &'static str = "/var/lib/capulus/jobs";

pub const RUNTIME_ROOT: &'static str = "/run/capulus/jobs";

pub const LOCK_ROOT: &'static str = "/run/capulus/locks";

/// How long a transient unit may take to appear after its request was written.
pub const TRANSIENT_START_GRACE_SECONDS: u64 = 5;

/// The most characters that the public detail of a job has.
pub const MAX_DETAIL_CHARS: usize = 2048;

/// A request for a redeploy, as the worker gets it.
#[derive(Clone, PartialEq, Eq)]
pub struct RedeployRequest {
    pub job: JobId,
    pub product: String,
    pub package: String,
    pub release: ResolvedRelease,
    pub required_user: Option<UserInstallContext>,
}

/// The state of a job as it is kept on disk.
#[derive(Clone, Debug, PartialEq, Eq)]
pub struct StoredJob {
    pub boot_id: String,
    pub status: RedeployJob,
}

/// The job of a product that is active.
#[derive(Clone, Debug, PartialEq, Eq)]
pub struct ActiveJob {
    pub job: JobId,
    pub version: Version,
    pub required_uid: Option<u32>,
}

/// What a caller may do.
#[derive(Debug, PartialEq, Eq)]
pub struct RedeployAuthorization {
    pub root: bool,
    pub required_user: Option<UserInstallContext>,
}

/// Why a redeploy was refused or a job cannot move on.
#[derive(Debug, PartialEq, Eq)]
#[allow(inconsistent_fields)]
pub enum JobError {
    MismatchedProduct,
    Release(ReleaseValidationError),
    NotOperator,
    RequiresReinstall,
    NoManagedCli,
    Downgrade,
    IncomparableVersion,
    AlreadyActive { job: JobId, version: String },
    IdentityMismatch,
    TerminalTransition,
    BackwardTransition { current: JobPhase, next: JobPhase },
    FailTerminal(JobId),
    BootId,
    NotPrivate(String),
    NotRootDirectory(String),
}

/// The name of a phase.
pub open spec fn phase_text(phase: JobPhase) -> Seq<char> {
    match phase {
        JobPhase::Queued => "Queued"@,
        JobPhase::Preparing => "Preparing"@,
        JobPhase::Toolchain => "Toolchain"@,
        JobPhase::Resolving => "Resolving"@,
        JobPhase::Building => "Building"@,
        JobPhase::Validating => "Validating"@,
        JobPhase::Staging => "Staging"@,
        JobPhase::CommittingSystem => "CommittingSystem"@,
        JobPhase::RestartingAgent => "RestartingAgent"@,
        JobPhase::ReinstallingUser => "ReinstallingUser"@,
        JobPhase::Complete => "Complete"@,
        JobPhase::Failed => "Failed"@,
    }
}

fn phase_name(phase: &JobPhase) -> (r: &'static str)
    ensures
        r@ == phase_text(*phase),
{
    match phase {
        JobPhase::Queued => "Queued",
        JobPhase::Preparing => "Preparing",
        JobPhase::Toolchain => "Toolchain",
        JobPhase::Resolving => "Resolving",
        JobPhase::Building => "Building",
        JobPhase::Validating => "Validating",
        JobPhase::Staging => "Staging",
        JobPhase::CommittingSystem => "CommittingSystem",
        JobPhase::RestartingAgent => "RestartingAgent",
        JobPhase::ReinstallingUser => "ReinstallingUser",
        JobPhase::Complete => "Complete",
        JobPhase::Failed => "Failed",
    }
}

impl JobError {
    /// The words for the error.
    pub open spec fn words(self) -> Seq<char> {
        match self {
            JobError::MismatchedProduct =>
                "redeploy request does not match the installed managed product"@,
            JobError::Release(e) => e.words(),
            JobError::NotOperator =>
                "management request requires root or the product operator group"@,
            JobError::RequiresReinstall =>
                "non-root redeploys must reinstall the requesting user's Cargo CLI"@,
            JobError::NoManagedCli =>
                "requesting user has no existing Cargo-installed managed CLI"@,
            JobError::Downgrade =>
                "non-root callers cannot downgrade a managed system installation"@,
            JobError::IncomparableVersion =>
                "managed version is not a semantic version"@,
            JobError::AlreadyActive { job, version } => "redeploy "@ + text::hex(job@)
                + " is already active for version "@ + version@,
            JobError::IdentityMismatch =>
                "stored redeploy status identity does not match its path"@,
            JobError::TerminalTransition => "cannot transition a terminal redeploy job"@,
            JobError::BackwardTransition { current, next } =>
                "invalid redeploy phase transition from "@ + phase_text(current) + " to "@
                + phase_text(next),
            JobError::FailTerminal(job) => "cannot fail terminal redeploy job "@ + text::hex(job@),
            JobError::BootId => "kernel boot ID is malformed"@,
            JobError::NotPrivate(p) =>
                "Capulus state is not a private root-owned regular file: "@ + p@,
            JobError::NotRootDirectory(p) =>
                "Capulus directory is not a root-owned real directory: "@ + p@,
        }
    }

    /// The words for the error.
    pub fn message(&self) -> (out: String)
        ensures
            out@ == self.words(),
    {
        match self {
            JobError::MismatchedProduct =>
                "redeploy request does not match the installed managed product".to_owned(),
            JobError::Release(e) => e.message().to_owned(),
            JobError::NotOperator =>
                "management request requires root or the product operator group".to_owned(),
            JobError::RequiresReinstall =>
                "non-root redeploys must reinstall the requesting user's Cargo CLI".to_owned(),
            JobError::NoManagedCli =>
                "requesting user has no existing Cargo-installed managed CLI".to_owned(),
            JobError::Downgrade =>
                "non-root callers cannot downgrade a managed system installation".to_owned(),
            JobError::IncomparableVersion =>
                "managed version is not a semantic version".to_owned(),
            JobError::AlreadyActive { job, version } => {
                let id = job.text();
                "redeploy ".to_owned().concat(id.as_str()).concat(
                    " is already active for version ",
                ).concat(version.as_str())
            },
            JobError::IdentityMismatch =>
                "stored redeploy status identity does not match its path".to_owned(),
            JobError::TerminalTransition =>
                "cannot transition a terminal redeploy job".to_owned(),
            JobError::BackwardTransition { current, next } =>
                "invalid redeploy phase transition from ".to_owned().concat(
                phase_name(current),
            ).concat(" to ").concat(phase_name(next)),
            JobError::FailTerminal(job) => {
                let id = job.text();
                "cannot fail terminal redeploy job ".to_owned().concat(id.as_str())
            },
            JobError::BootId => "kernel boot ID is malformed".to_owned(),
            JobError::NotPrivate(p) =>
                "Capulus state is not a private root-owned regular file: ".to_owned().concat(
                p.as_str(),
            ),
            JobError::NotRootDirectory(p) =>
                "Capulus directory is not a root-owned real directory: ".to_owned().concat(
                p.as_str(),
            ),
        }
    }
}

// ---------------------------------------------------------------------------
// Phases
// ---------------------------------------------------------------------------

/// The place of a phase in the course of a job.
pub open spec fn rank(phase: JobPhase) -> int {
    match phase {
        JobPhase::Queued => 0,
        JobPhase::Preparing => 1,
        JobPhase::Toolchain => 2,
        JobPhase::Resolving => 3,
        JobPhase::Building => 4,
        JobPhase::Validating => 5,
        JobPhase::Staging => 6,
        JobPhase::CommittingSystem => 7,
        JobPhase::RestartingAgent => 8,
        JobPhase::ReinstallingUser => 9,
        JobPhase::Complete => 10,
        JobPhase::Failed => 255,
    }
}

/// Whether a job may move from one phase to another: forward, or to failure,
/// and never out of a phase that it ended in.
pub open spec fn may_move(current: JobPhase, next: JobPhase) -> bool {
    !current.terminal() && (next is Failed || rank(next) > rank(current))
}

/// The place of a phase in the course of a job.
pub fn phase_rank(phase: &JobPhase) -> (r: u8)
    ensures
        r == rank(*phase),
{
    match phase {
        JobPhase::Queued => 0,
        JobPhase::Preparing => 1,
        JobPhase::Toolchain => 2,
        JobPhase::Resolving => 3,
        JobPhase::Building => 4,
        JobPhase::Validating => 5,
        JobPhase::Staging => 6,
        JobPhase::CommittingSystem => 7,
        JobPhase::RestartingAgent => 8,
        JobPhase::ReinstallingUser => 9,
        JobPhase::Complete => 10,
        JobPhase::Failed => 255,
    }
}

/// The judgement on a move from one phase to another.
pub open spec fn move_verdict(current: JobPhase, next: JobPhase) -> Result<(), JobError> {
    if current.terminal() {
        Err(JobError::TerminalTransition)
    } else if !may_move(current, next) {
        Err(JobError::BackwardTransition { current, next })
    } else {
        Ok(())
    }
}

/// Checks that a job may move from one phase to another.
pub fn validate_transition(current: &JobPhase, next: &JobPhase) -> (r: Result<(), JobError>)
    ensures
        r == move_verdict(*current, *next),
{
    if current.is_terminal() {
        return Err(JobError::TerminalTransition);
    }
    let failed = match next {
        JobPhase::Failed => true,
        _ => false,
    };
    if !failed && phase_rank(next) <= phase_rank(current) {
        return Err(JobError::BackwardTransition { current: *current, next: *next });
    }
    Ok(())
}

/// The phases that a job goes through only advance: each ranks above every
/// earlier one, and only the last can be one that a job ends in.
pub proof fn law_phases_only_advance(phases: Seq<JobPhase>)
    requires
        forall|i: int|
            0 <= i < phases.len() - 1 ==> may_move(#[trigger] phases[i], phases[i + 1]),
    ensures
        forall|i: int, j: int| 0 <= i < j < phases.len() ==> rank(phases[i]) < rank(phases[j]),
        forall|i: int| 0 <= i < phases.len() - 1 ==> !(#[trigger] phases[i]).terminal(),
{
    assert forall|i: int, j: int| 0 <= i < j < phases.len() implies rank(phases[i]) < rank(
        phases[j],
    ) by {
        lemma_rank_grows(phases, i, j);
    }
    assert forall|i: int| 0 <= i < phases.len() - 1 implies !(#[trigger] phases[i]).terminal() by {
        assert(may_move(phases[i], phases[i + 1]));
    }
}

proof fn lemma_rank_grows(phases: Seq<JobPhase>, i: int, j: int)
    requires
        forall|k: int|
            0 <= k < phases.len() - 1 ==> may_move(#[trigger] phases[k], phases[k + 1]),
        0 <= i < j < phases.len(),
    ensures
        rank(phases[i]) < rank(phases[j]),
    decreases j - i,
{
    assert(may_move(phases[j - 1], phases[j - 1 + 1]));
    if i < j - 1 {
        lemma_rank_grows(phases, i, j - 1);
    }
}

// ---------------------------------------------------------------------------
// Stored state
// ---------------------------------------------------------------------------

/// The public detail of a job: cut, with an ellipsis at its end, where it is
/// longer than the limit.
pub open spec fn bounded(detail: Seq<char>) -> Seq<char> {
    if detail.len() <= MAX_DETAIL_CHARS {
        detail
    } else {
        detail.take(MAX_DETAIL_CHARS - 1).push('\u{2026}')
    }
}

/// Cuts a detail to the limit.
pub fn bounded_detail(detail: String) -> (out: String)
    ensures
        out@ == bounded(detail@),
        out@.len() <= MAX_DETAIL_CHARS,
{
    let v = text::to_chars(detail.as_str());
    if v.len() <= MAX_DETAIL_CHARS {
        return detail;
    }
    assert(v@.subrange(0, MAX_DETAIL_CHARS - 1) =~= v@.take(MAX_DETAIL_CHARS - 1));
    let mut out = text::from_chars_range(&v, 0, MAX_DETAIL_CHARS - 1);
    out.push('\u{2026}');
    out
}

/// Whether two job states agree in all that never changes.
pub open spec fn same_job(a: RedeployJob, b: RedeployJob) -> bool {
    a.job == b.job && a.product == b.product && a.version == b.version && a.unit == b.unit
}

/// The detail that a failed job shows to everyone.
pub open spec fn failure_detail() -> Seq<char> {
    "managed redeploy failed; inspect the transient unit journal"@
}

impl StoredJob {
    /// The state of a job that was just queued.
    pub fn queued(boot_id: String, request: &RedeployRequest, unit: String) -> (r: StoredJob)
        ensures
            r.boot_id == boot_id,
            r.status.job == request.job,
            r.status.product == request.product,
            r.status.version@ == request.release.version@.text(),
            r.status.unit == unit,
            r.status.phase is Queued,
            r.status.detail@ == "queued for transient systemd execution"@,
            !r.status.system_committed,
            r.status.rollback_succeeded is None,
            r.status.required_user_reinstalled is None,
    {
        StoredJob {
            boot_id,
            status: RedeployJob {
                job: request.job,
                product: request.product.clone(),
                version: request.release.version.text(),
                unit,
                phase: JobPhase::Queued,
                detail: "queued for transient systemd execution".to_owned(),
                system_committed: false,
                rollback_succeeded: None,
                required_user_reinstalled: None,
            },
        }
    }

    /// Checks that the stored state is that of the job and the product that its
    /// path names.
    pub fn check_identity(&self, job: &JobId, product: &str) -> (r: Result<(), JobError>)
        ensures
            r == if self.status.job@ == job@ && self.status.product@ == product@ {
                Ok::<(), JobError>(())
            } else {
                Err::<(), JobError>(JobError::IdentityMismatch)
            },
    {
        if !self.status.job.same(job) || !text::same(self.status.product.as_str(), product) {
            return Err(JobError::IdentityMismatch);
        }
        Ok(())
    }

    /// Moves the job to a phase.
    pub fn update(&mut self, phase: JobPhase, detail: String, system_committed: bool) -> (r: Result<
        (),
        JobError,
    >)
        ensures
            r == move_verdict(old(self).status.phase, phase),
            r is Err ==> *final(self) == *old(self),
            r is Ok ==> {
                let before = old(self).status;
                let after = final(self).status;
                &&& final(self).boot_id == old(self).boot_id
                &&& same_job(after, before)
                &&& after.phase == phase
                &&& after.detail@ == bounded(detail@)
                &&& after.system_committed == system_committed
                &&& after.rollback_succeeded == before.rollback_succeeded
                &&& after.required_user_reinstalled == before.required_user_reinstalled
            },
    {
        validate_transition(&self.status.phase, &phase)?;
        self.status.phase = phase;
        self.status.detail = bounded_detail(detail);
        self.status.system_committed = system_committed;
        Ok(())
    }

    /// Fails the job. What everyone sees is a fixed text; the result holds the
    /// private diagnostic that is kept beside it.
    pub fn fail(
        &mut self,
        detail: String,
        system_committed: bool,
        rollback_succeeded: Option<bool>,
    ) -> (r: Result<String, JobError>)
        ensures
            r is Ok <==> !old(self).status.phase.terminal(),
            r matches Err(e) ==> e == JobError::FailTerminal(old(self).status.job) && *final(self)
                == *old(self),
            r matches Ok(diagnostic) ==> {
                let before = old(self).status;
                let after = final(self).status;
                &&& diagnostic@ == bounded(detail@)
                &&& final(self).boot_id == old(self).boot_id
                &&& same_job(after, before)
                &&& after.phase is Failed
                &&& after.detail@ == failure_detail()
                &&& after.system_committed == system_committed
                &&& after.rollback_succeeded == rollback_succeeded
                &&& after.required_user_reinstalled == before.required_user_reinstalled
            },
    {
        if self.status.phase.is_terminal() {
            return Err(JobError::FailTerminal(self.status.job));
        }
        self.status.phase = JobPhase::Failed;
        let diagnostic = bounded_detail(detail);
        self.status.detail =
        "managed redeploy failed; inspect the transient unit journal".to_owned();
        self.status.system_committed = system_committed;
        self.status.rollback_succeeded = rollback_succeeded;
        Ok(diagnostic)
    }

    /// Fails the job on behalf of its worker, which knows whether the
    /// requesting user's program was reinstalled.
    pub fn fail_worker(
        &mut self,
        detail: String,
        system_committed: bool,
        rollback_succeeded: Option<bool>,
        required_user_reinstalled: Option<bool>,
    ) -> (r: Result<String, JobError>)
        ensures
            r is Ok <==> !old(self).status.phase.terminal(),
            r matches Err(e) ==> e == JobError::FailTerminal(old(self).status.job) && *final(self)
                == *old(self),
            r matches Ok(diagnostic) ==> {
                let before = old(self).status;
                let after = final(self).status;
                &&& diagnostic@ == bounded(detail@)
                &&& final(self).boot_id == old(self).boot_id
                &&& same_job(after, before)
                &&& after.phase is Failed
                &&& after.detail@ == failure_detail()
                &&& after.system_committed == system_committed
                &&& after.rollback_succeeded == rollback_succeeded
                &&& after.required_user_reinstalled == required_user_reinstalled
            },
    {
        let diagnostic = self.fail(detail, system_committed, rollback_succeeded)?;
        self.status.required_user_reinstalled = required_user_reinstalled;
        Ok(diagnostic)
    }

    /// Notes whether the requesting user's program was reinstalled.
    pub fn record_required_user_reinstalled(&mut self, reinstalled: bool) -> (r: Result<
        (),
        JobError,
    >)
        ensures
            r == if old(self).status.phase.terminal() {
                Err::<(), JobError>(JobError::TerminalTransition)
            } else {
                Ok::<(), JobError>(())
            },
            r is Err ==> *final(self) == *old(self),
            r is Ok ==> *final(self) == (StoredJob {
                boot_id: old(self).boot_id,
                status: RedeployJob {
                    required_user_reinstalled: Some(reinstalled),
                    ..old(self).status
                },
            }),
    {
        if self.status.phase.is_terminal() {
            return Err(JobError::TerminalTransition);
        }
        self.status.required_user_reinstalled = Some(reinstalled);
        Ok(())
    }

    /// Completes the job.
    pub fn complete(&mut self, required_user_reinstalled: Option<bool>) -> (r: Result<
        (),
        JobError,
    >)
        ensures
            r == move_verdict(old(self).status.phase, JobPhase::Complete),
            r is Err ==> *final(self) == *old(self),
            r is Ok ==> {
                let before = old(self).status;
                let after = final(self).status;
                &&& final(self).boot_id == old(self).boot_id
                &&& same_job(after, before)
                &&& after.phase is Complete
                &&& after.detail@ == "managed redeploy completed"@
                &&& after.system_committed
                &&& after.rollback_succeeded == before.rollback_succeeded
                &&& after.required_user_reinstalled == required_user_reinstalled
            },
    {
        validate_transition(&self.status.phase, &JobPhase::Complete)?;
        self.status.phase = JobPhase::Complete;
        self.status.detail = "managed redeploy completed".to_owned();
        self.status.system_committed = true;
        self.status.required_user_reinstalled = required_user_reinstalled;
        Ok(())
    }

    /// Whether the job was cut off by a reboot: it has not ended, and the system
    /// was started anew since.
    pub fn interrupted_by_reboot(&self, boot_id: &str) -> (r: bool)
        ensures
            r == (!self.status.phase.terminal() && self.boot_id@ != boot_id@),
    {
        !self.status.phase.is_terminal() && !text::same(self.boot_id.as_str(), boot_id)
    }
}

// ---------------------------------------------------------------------------
// Authorization and scheduling
// ---------------------------------------------------------------------------

/// Whether an account operates a product: it belongs to the group of the
/// product's management socket. A socket without a group is root's alone.
pub open spec fn operates(
    o: ManagedProductOptions,
    account: UnixAccount,
    group: Option<UnixGroup>,
) -> bool {
    match (o.management_socket.group, group) {
        (Some(name), Some(found)) => found.name@ == name@ && found.includes(account),
        _ => false,
    }
}

/// Whether an account operates a product, given the group that was found under
/// the name of the product's operator group.
pub fn is_operator(product: &ManagedProduct, account: &UnixAccount, group: &Option<UnixGroup>) -> (r:
    bool)
    ensures
        r == operates(product@, *account, *group),
{
    match (product.operator_group(), group) {
        (Some(name), Some(found)) => text::same(found.name.as_str(), name.as_str())
            && found.has_member(account),
        _ => false,
    }
}

/// Decides whether a caller may redeploy. Root may; anyone else must operate the
/// product and have the own program, which `captured` holds, reinstalled too.
pub fn authorize_redeploy(
    peer: PeerCredentials,
    operator: bool,
    reinstall_requesting_user: bool,
    captured: Option<UserInstallContext>,
) -> (r: Result<RedeployAuthorization, JobError>)
    ensures
        r == if peer.uid == 0 {
            Ok::<RedeployAuthorization, JobError>(
                RedeployAuthorization { root: true, required_user: None },
            )
        } else if !operator {
            Err::<RedeployAuthorization, JobError>(JobError::NotOperator)
        } else if !reinstall_requesting_user {
            Err::<RedeployAuthorization, JobError>(JobError::RequiresReinstall)
        } else if captured is None {
            Err::<RedeployAuthorization, JobError>(JobError::NoManagedCli)
        } else {
            Ok::<RedeployAuthorization, JobError>(
                RedeployAuthorization { root: false, required_user: captured },
            )
        },
{
    if peer.uid == 0 {
        return Ok(RedeployAuthorization { root: true, required_user: None });
    }
    if !operator {
        return Err(JobError::NotOperator);
    }
    if !reinstall_requesting_user {
        return Err(JobError::RequiresReinstall);
    }
    match captured {
        Some(context) => Ok(
            RedeployAuthorization { root: false, required_user: Some(context) },
        ),
        None => Err(JobError::NoManagedCli),
    }
}

/// Decides whether a caller may have the installation repaired: root, or a user
/// who operates the product and has installed its program.
pub fn authorize_repair(peer: PeerCredentials, operator: bool, has_managed_cli: bool) -> (r: Result<
    (),
    JobError,
>)
    ensures
        r == if peer.uid == 0 || (operator && has_managed_cli) {
            Ok::<(), JobError>(())
        } else if !operator {
            Err::<(), JobError>(JobError::NotOperator)
        } else {
            Err::<(), JobError>(JobError::NoManagedCli)
        },
{
    if peer.uid == 0 {
        Ok(())
    } else if !operator {
        Err(JobError::NotOperator)
    } else if has_managed_cli {
        Ok(())
    } else {
        Err(JobError::NoManagedCli)
    }
}

/// Only root and the operators of a product have its system changed: no one else
/// may redeploy or repair, and where the management socket has no group only
/// root may.
pub proof fn law_only_root_and_operators_change_the_system(
    o: ManagedProductOptions,
    peer: PeerCredentials,
    account: UnixAccount,
    group: Option<UnixGroup>,
    reinstall: bool,
    captured: Option<UserInstallContext>,
    redeploy: Result<RedeployAuthorization, JobError>,
    has_managed_cli: bool,
    repair: Result<(), JobError>,
)
    requires
        call_ensures(
            authorize_redeploy,
            (peer, operates(o, account, group), reinstall, captured),
            redeploy,
        ),
        call_ensures(
            authorize_repair,
            (peer, operates(o, account, group), has_managed_cli),
            repair,
        ),
    ensures
        redeploy is Ok || repair is Ok ==> peer.uid == 0 || operates(o, account, group),
        (redeploy is Ok || repair is Ok) && o.management_socket.group is None ==> peer.uid == 0,
{
}

impl RedeployAuthorization {
    /// The judgement on a release: only root may install one that comes before
    /// the installed version.
    pub open spec fn release_verdict(
        self,
        o: ManagedProductOptions,
        release: ResolvedRelease,
    ) -> Result<(), JobError> {
        if self.root {
            Ok(())
        } else {
            match semver_before(release.version@, o.version@) {
                Some(true) => Err(JobError::Downgrade),
                Some(false) => Ok(()),
                None => Err(JobError::IncomparableVersion),
            }
        }
    }

    /// Checks that the caller may install the release.
    pub fn validate_release(&self, product: &ManagedProduct, release: &ResolvedRelease) -> (r:
        Result<(), JobError>)
        ensures
            r == self.release_verdict(product@, *release),
            !self.root && release.version@.is_stable() && product@.version@.is_stable()
                && release.version@.numbers_before(product@.version@) ==> r == Err::<(), JobError>(
                JobError::Downgrade,
            ),
            !self.root && release.version@.is_stable() && product@.version@.is_stable()
                && !release.version@.numbers_before(product@.version@) ==> r is Ok,
    {
        if self.root {
            return Ok(());
        }
        match release.version.precedes(product.version()) {
            Some(true) => Err(JobError::Downgrade),
            Some(false) => Ok(()),
            None => Err(JobError::IncomparableVersion),
        }
    }

    /// The user whose program must be reinstalled, where there is one.
    pub open spec fn uid(self) -> Option<u32> {
        match self.required_user {
            Some(user) => Some(user.uid),
            None => None,
        }
    }

    /// The user whose program must be reinstalled, where there is one.
    pub fn required_uid(&self) -> (r: Option<u32>)
        ensures
            r == self.uid(),
    {
        match &self.required_user {
            Some(user) => Some(user.uid),
            None => None,
        }
    }
}

/// What becomes of a request, given the job that is active.
#[derive(Debug, PartialEq, Eq)]
pub enum Scheduling {
    Start,
    Replace(JobId),
    Share(RedeployOutcome),
}

/// Whether a result says what becomes of a request: a job that has ended makes
/// room, one for the same version and the same user is shared, and any other
/// one is in the way.
pub open spec fn scheduling_verdict(
    active: ActiveJob,
    status: RedeployJob,
    release: ResolvedRelease,
    uid: Option<u32>,
    r: Result<Scheduling, JobError>,
) -> bool {
    if status.phase.terminal() {
        r == Ok::<Scheduling, JobError>(Scheduling::Replace(active.job))
    } else if active.version@ == release.version@ && active.required_uid == uid {
        r matches Ok(Scheduling::Share(outcome)) && outcome.job == active.job && outcome.unit
            == status.unit && outcome.version@ == active.version@.text() && !outcome.started
    } else {
        r matches Err(JobError::AlreadyActive { job, version }) && job == active.job && version@
            == active.version@.text()
    }
}

/// Decides what becomes of a request, given the job that is noted as active and
/// its state.
pub fn schedule_against(
    active: Option<(ActiveJob, RedeployJob)>,
    release: &ResolvedRelease,
    authorization: &RedeployAuthorization,
) -> (r: Result<Scheduling, JobError>)
    ensures
        match active {
            None => r == Ok::<Scheduling, JobError>(Scheduling::Start),
            Some((job, status)) => scheduling_verdict(
                job,
                status,
                *release,
                authorization.uid(),
                r,
            ),
        },
{
    let (active, status) = match active {
        Some(pair) => pair,
        None => return Ok(Scheduling::Start),
    };
    if status.phase.is_terminal() {
        return Ok(Scheduling::Replace(active.job));
    }
    let uid: Option<u32> = authorization.required_uid();
    let same_user = match (active.required_uid, uid) {
        (None, None) => true,
        (Some(a), Some(b)) => a == b,
        _ => false,
    };
    if active.version.same(&release.version) && same_user {
        return Ok(
            Scheduling::Share(
                RedeployOutcome {
                    job: active.job,
                    unit: status.unit,
                    version: active.version.text(),
                    started: false,
                },
            ),
        );
    }
    Err(JobError::AlreadyActive { job: active.job, version: active.version.text() })
}

/// Checks, before anything is done, that a release can be installed and that
/// the caller may install it.
pub fn admit_release(
    authorization: &RedeployAuthorization,
    product: &ManagedProduct,
    release: &ResolvedRelease,
) -> (r: Result<(), JobError>)
    ensures
        match release.fault() {
            Some(e) => r == Err::<(), JobError>(JobError::Release(e)),
            None => r == authorization.release_verdict(product@, *release),
        },
{
    match release.validate() {
        Err(e) => Err(JobError::Release(e)),
        Ok(_) => authorization.validate_release(product, release),
    }
}

impl RedeployRequest {
    /// The request that a new job starts from.
    pub fn for_job(
        job: JobId,
        product: &ManagedProduct,
        release: ResolvedRelease,
        authorization: RedeployAuthorization,
    ) -> (r: RedeployRequest)
        ensures
            r.job == job,
            r.product@ == product@.product@,
            r.package@ == product@.package@,
            r.release == release,
            r.required_user == authorization.required_user,
    {
        RedeployRequest {
            job,
            product: product.name().to_owned(),
            package: product.package().to_owned(),
            release,
            required_user: authorization.required_user,
        }
    }

    /// The judgement on a request, but for what the required user's account and
    /// programs are now.
    pub open spec fn verdict(self, o: ManagedProductOptions) -> Result<(), JobError> {
        if self.product@ != o.product@ || self.package@ != o.package@ {
            Err(JobError::MismatchedProduct)
        } else {
            match self.release.fault() {
                Some(e) => Err(JobError::Release(e)),
                None => Ok(()),
            }
        }
    }

    /// Checks that the request is one for the product and its release can be
    /// installed.
    pub fn validate(&self, product: &ManagedProduct) -> (r: Result<(), JobError>)
        ensures
            r == self.verdict(product@),
    {
        if !text::same(self.product.as_str(), product.name()) || !text::same(
            self.package.as_str(),
            product.package(),
        ) {
            return Err(JobError::MismatchedProduct);
        }
        match self.release.validate() {
            Err(e) => Err(JobError::Release(e)),
            Ok(_) => Ok(()),
        }
    }

    /// The note on the job that this request makes active.
    pub fn active(&self) -> (r: ActiveJob)
        ensures
            r.job == self.job,
            r.version == self.release.version,
            r.required_uid == match self.required_user {
                Some(user) => Some(user.uid),
                None => None,
            },
    {
        let required_uid: Option<u32> = match &self.required_user {
            Some(user) => Some(user.uid),
            None => None,
        };
        ActiveJob { job: self.job, version: self.release.version.copy(), required_uid }
    }
}

/// The result for a job that was started.
pub fn started_outcome(request: &RedeployRequest, unit: String) -> (r: RedeployOutcome)
    ensures
        r.job == request.job,
        r.unit == unit,
        r.version@ == request.release.version@.text(),
        r.started,
{
    RedeployOutcome {
        job: request.job,
        unit,
        version: request.release.version.text(),
        started: true,
    }
}

/// The request of a job that was just started is shared by every later request
/// for the same version and the same user, until the job has ended.
pub proof fn law_identical_requests_share_a_job(
    first: RedeployRequest,
    active: ActiveJob,
    status: RedeployJob,
    release: ResolvedRelease,
    authorization: RedeployAuthorization,
    r: Result<Scheduling, JobError>,
)
    requires
        active.job == first.job,
        active.version == first.release.version,
        active.required_uid == match first.required_user {
            Some(user) => Some(user.uid),
            None => None,
        },
        !status.phase.terminal(),
        release.version@ == first.release.version@,
        authorization.uid() == active.required_uid,
        scheduling_verdict(active, status, release, authorization.uid(), r),
    ensures
        r matches Ok(Scheduling::Share(outcome)) && outcome.job == first.job && !outcome.started,
{
}

/// One thing that scheduling a job does, once the release was admitted and the
/// scheduling lock is held.
#[derive(Clone, Copy, Debug, PartialEq, Eq, Structural)]
pub enum ScheduleStep {
    Reconcile,
    ReadActive,
    ClearActive,
    ValidateRequest,
    WriteRequest,
    Initialize,
    StartUnit,
    FailJob,
    RemoveRequest,
}

/// What came of a step.
#[derive(Debug, PartialEq, Eq)]
pub enum ScheduleEvent {
    Done,
    Decided(Result<Scheduling, JobError>),
    Failed(String),
}

/// A job that is being scheduled: its step, and why its unit did not start.
#[derive(Debug, PartialEq, Eq)]
pub struct ScheduleProgress {
    pub step: ScheduleStep,
    pub start_error: Option<String>,
}

/// What comes next.
#[derive(Debug, PartialEq, Eq)]
pub enum ScheduleNext {
    Continue(ScheduleProgress),
    Started,
    Shared(RedeployOutcome),
    Refused(JobError),
    Failed(String),
}

impl ScheduleProgress {
    /// Scheduling that has done nothing yet.
    pub fn begin() -> (r: ScheduleProgress)
        ensures
            r.step is Reconcile,
            r.start_error is None,
    {
        ScheduleProgress { step: ScheduleStep::Reconcile, start_error: None }
    }

    /// Whether an event is one that the step can have.
    pub open spec fn expects(self, event: ScheduleEvent) -> bool {
        match event {
            ScheduleEvent::Decided(_) => self.step is ReadActive,
            ScheduleEvent::Done => !(self.step is ReadActive) && (self.step is RemoveRequest
                ==> self.start_error is Some),
            ScheduleEvent::Failed(_) => true,
        }
    }

    /// What comes next. The request and the state of a job are written before its
    /// unit is started; where that fails, the job is failed and its request
    /// removed.
    pub open spec fn next(self, event: ScheduleEvent) -> ScheduleNext {
        let go = |step: ScheduleStep|
            ScheduleNext::Continue(ScheduleProgress { step, start_error: None });
        match event {
            ScheduleEvent::Decided(decision) => match decision {
                Ok(Scheduling::Start) => go(ScheduleStep::ValidateRequest),
                Ok(Scheduling::Replace(_)) => go(ScheduleStep::ClearActive),
                Ok(Scheduling::Share(outcome)) => ScheduleNext::Shared(outcome),
                Err(e) => ScheduleNext::Refused(e),
            },
            ScheduleEvent::Failed(e) => if self.step is StartUnit {
                ScheduleNext::Continue(
                    ScheduleProgress { step: ScheduleStep::FailJob, start_error: Some(e) },
                )
            } else {
                ScheduleNext::Failed(e)
            },
            ScheduleEvent::Done => match self.step {
                ScheduleStep::Reconcile => go(ScheduleStep::ReadActive),
                ScheduleStep::ReadActive => go(ScheduleStep::ValidateRequest),
                ScheduleStep::ClearActive => go(ScheduleStep::ValidateRequest),
                ScheduleStep::ValidateRequest => go(ScheduleStep::WriteRequest),
                ScheduleStep::WriteRequest => go(ScheduleStep::Initialize),
                ScheduleStep::Initialize => go(ScheduleStep::StartUnit),
                ScheduleStep::StartUnit => ScheduleNext::Started,
                ScheduleStep::FailJob => ScheduleNext::Continue(
                    ScheduleProgress { step: ScheduleStep::RemoveRequest, ..self },
                ),
                ScheduleStep::RemoveRequest => ScheduleNext::Failed(self.start_error->0),
            },
        }
    }

    /// Decides what comes next.
    pub fn advance(self, event: ScheduleEvent) -> (r: ScheduleNext)
        requires
            self.expects(event),
        ensures
            r == self.next(event),
    {
        let step = match event {
            ScheduleEvent::Decided(decision) => match decision {
                Ok(Scheduling::Start) => ScheduleStep::ValidateRequest,
                Ok(Scheduling::Replace(_)) => ScheduleStep::ClearActive,
                Ok(Scheduling::Share(outcome)) => return ScheduleNext::Shared(outcome),
                Err(e) => return ScheduleNext::Refused(e),
            },
            ScheduleEvent::Failed(e) => {
                return match self.step {
                    ScheduleStep::StartUnit => ScheduleNext::Continue(
                        ScheduleProgress { step: ScheduleStep::FailJob, start_error: Some(e) },
                    ),
                    _ => ScheduleNext::Failed(e),
                };
            },
            ScheduleEvent::Done => match self.step {
                ScheduleStep::Reconcile => ScheduleStep::ReadActive,
                ScheduleStep::ReadActive => ScheduleStep::ValidateRequest,
                ScheduleStep::ClearActive => ScheduleStep::ValidateRequest,
                ScheduleStep::ValidateRequest => ScheduleStep::WriteRequest,
                ScheduleStep::WriteRequest => ScheduleStep::Initialize,
                ScheduleStep::Initialize => ScheduleStep::StartUnit,
                ScheduleStep::StartUnit => return ScheduleNext::Started,
                ScheduleStep::FailJob => return ScheduleNext::Continue(
                    ScheduleProgress { step: ScheduleStep::RemoveRequest, ..self },
                ),
                ScheduleStep::RemoveRequest => return ScheduleNext::Failed(
                    self.start_error.unwrap(),
                ),
            },
        };
        ScheduleNext::Continue(ScheduleProgress { step, start_error: None })
    }
}

/// A unit is started only after its job's request and state were written, and a
/// unit that did not start leaves a failed job without a request.
pub proof fn law_units_start_after_their_jobs_are_written(
    progress: ScheduleProgress,
    event: ScheduleEvent,
)
    requires
        progress.expects(event),
    ensures
        progress.next(event) is Started ==> progress.step is StartUnit,
        progress.next(event) matches ScheduleNext::Continue(after) ==> {
            &&& after.step is StartUnit ==> progress.step is Initialize && event is Done
            &&& after.step is Initialize ==> progress.step is WriteRequest && event is Done
            &&& after.step is WriteRequest ==> progress.step is ValidateRequest && event is Done
        },
        progress.step is StartUnit && event is Failed ==> (progress.next(event) matches
            ScheduleNext::Continue(after) && after.step is FailJob),
        progress.step is FailJob && event is Done ==> (progress.next(event) matches
            ScheduleNext::Continue(after) && after.step is RemoveRequest),
{
}

/// What is done about a job that is noted as active.
#[derive(Clone, Copy, Debug, PartialEq, Eq, Structural)]
pub enum Reconciliation {
    Clear,
    Keep,
    Fail,
}

/// Decides what is done about a job that is noted as active: one that has ended
/// is cleared, one whose unit runs, or was queued a moment ago, is kept, and any
/// other one has failed.
pub fn reconcile(phase: JobPhase, unit_active: bool, within_grace: bool) -> (r: Reconciliation)
    ensures
        r == if phase.terminal() {
            Reconciliation::Clear
        } else if unit_active || (phase is Queued && within_grace) {
            Reconciliation::Keep
        } else {
            Reconciliation::Fail
        },
{
    if phase.is_terminal() {
        return Reconciliation::Clear;
    }
    let queued = match phase {
        JobPhase::Queued => true,
        _ => false,
    };
    if unit_active || (queued && within_grace) {
        Reconciliation::Keep
    } else {
        Reconciliation::Fail
    }
}

/// Whether a job that a first look found stopped is still the active one and
/// has not ended meanwhile: only then it is failed.
pub fn still_stopped(first: &JobId, current: &Option<JobId>, phase: JobPhase) -> (r: bool)
    ensures
        r == (current matches Some(job) && job@ == first@ && !phase.terminal()),
{
    match current {
        Some(job) => job.same(first) && !phase.is_terminal(),
        None => false,
    }
}

/// The private diagnostic of a job whose unit stopped too early.
pub fn stopped_detail(unit: &str) -> (out: String)
    ensures
        out@ == "transient redeploy unit "@ + unit@
            + " stopped before recording a terminal outcome"@,
{
    "transient redeploy unit ".to_owned().concat(unit).concat(
        " stopped before recording a terminal outcome",
    )
}

/// The private diagnostic of a job whose unit could not be started.
pub fn start_failure_detail(error: &str) -> (out: String)
    ensures
        out@ == "failed to start transient unit: "@ + error@,
{
    "failed to start transient unit: ".to_owned().concat(error)
}

/// Whether a request of this age is so young that its unit may not have
/// appeared yet. A request from the future has no age.
pub fn within_start_grace(age: &Option<Duration>) -> (r: bool)
    ensures
        r == (age matches Some(d) && d@ < TRANSIENT_START_GRACE_SECONDS * NANOS_PER_SECOND),
{
    match age {
        Some(d) => {
            let grace = Duration::from_secs(TRANSIENT_START_GRACE_SECONDS);
            !grace.at_most(d)
        },
        None => false,
    }
}

// ---------------------------------------------------------------------------
// Files
// ---------------------------------------------------------------------------

/// The directories that keep a product's jobs.
#[derive(Clone, Debug, PartialEq, Eq)]
pub struct JobPaths {
    pub state_directory: String,
    pub runtime_directory: String,
}

/// The path of a job's file.
pub open spec fn job_file(directory: Seq<char>, job: JobId, suffix: Seq<char>) -> Seq<char> {
    unix_path::joined(directory, text::hex(job@) + suffix)
}

impl JobPaths {
    /// The directories of a product.
    pub fn new(product: &str) -> (r: JobPaths)
        ensures
            r.state_directory@ == unix_path::joined("/var/lib/capulus/jobs"@, product@),
            r.runtime_directory@ == unix_path::joined("/run/capulus/jobs"@, product@),
    {
        JobPaths {
            state_directory: unix_path::join(STATE_ROOT, product),
            runtime_directory: unix_path::join(RUNTIME_ROOT, product),
        }
    }

    /// The path of the note on the active job.
    pub fn active(&self) -> (out: String)
        ensures
            out@ == unix_path::joined(self.state_directory@, "active.json"@),
    {
        unix_path::join(self.state_directory.as_str(), "active.json")
    }

    /// The path of a job's public state.
    pub fn status(&self, job: &JobId) -> (out: String)
        ensures
            out@ == job_file(self.state_directory@, *job, ".json"@),
    {
        let name = job.text().concat(".json");
        unix_path::join(self.state_directory.as_str(), name.as_str())
    }

    /// The path of a job's secret request.
    pub fn request(&self, job: &JobId) -> (out: String)
        ensures
            out@ == job_file(self.runtime_directory@, *job, ".cbor"@),
    {
        let name = job.text().concat(".cbor");
        unix_path::join(self.runtime_directory.as_str(), name.as_str())
    }

    /// The path of a job's private diagnostic.
    pub fn diagnostic(&self, job: &JobId) -> (out: String)
        ensures
            out@ == job_file(self.state_directory@, *job, ".diagnostic"@),
    {
        let name = job.text().concat(".diagnostic");
        unix_path::join(self.state_directory.as_str(), name.as_str())
    }
}

/// What was found at the path of a state file or directory.
#[derive(Clone, Copy, Debug, PartialEq, Eq, Structural)]
pub struct OwnerFacts {
    pub regular: bool,
    pub directory: bool,
    pub uid: u32,
    pub gid: u32,
    pub mode: u32,
}

/// Checks that a state file is a regular file that only root can reach.
pub fn validate_private_root_file(path: &String, facts: &OwnerFacts) -> (r: Result<(), JobError>)
    ensures
        r == if facts.regular && facts.uid == 0 && facts.gid == 0 && facts.mode & 0o077 == 0 {
            Ok::<(), JobError>(())
        } else {
            Err::<(), JobError>(JobError::NotPrivate(*path))
        },
{
    if !facts.regular || facts.uid != 0 || facts.gid != 0 || facts.mode & 0o077 != 0 {
        return Err(JobError::NotPrivate(path.clone()));
    }
    Ok(())
}

/// Checks that a state directory is a real directory of root's.
pub fn validate_root_directory(path: &String, facts: &OwnerFacts) -> (r: Result<(), JobError>)
    ensures
        r == if facts.directory && facts.uid == 0 && facts.gid == 0 {
            Ok::<(), JobError>(())
        } else {
            Err::<(), JobError>(JobError::NotRootDirectory(*path))
        },
{
    if !facts.directory || facts.uid != 0 || facts.gid != 0 {
        return Err(JobError::NotRootDirectory(path.clone()));
    }
    Ok(())
}

/// A character of a boot id.
pub open spec fn boot_id_char(c: char) -> bool {
    super::journal::is_hex(c) || c == '-'
}

/// A boot id: thirty-six hexadecimal digits and hyphens.
pub open spec fn boot_id_ok(s: Seq<char>) -> bool {
    s.len() == 36 && forall|i: int| 0 <= i < s.len() ==> boot_id_char(#[trigger] s[i])
}

/// The boot id in the text that the kernel gives.
pub fn parse_boot_id(contents: &str) -> (r: Result<String, JobError>)
    ensures
        r is Ok <==> boot_id_ok(text::trimmed(contents@)),
        r matches Ok(id) ==> id@ == text::trimmed(contents@),
        r matches Err(e) ==> e is BootId,
{
    let value = text::trim(contents);
    let v = text::to_chars(value.as_str());
    if v.len() != 36 {
        return Err(JobError::BootId);
    }
    let mut i: usize = 0;
    while i < v.len()
        invariant
            i <= v@.len(),
            v@ == value@,
            forall|k: int| 0 <= k < i ==> boot_id_char(#[trigger] v@[k]),
        decreases v@.len() - i,
    {
        let c = v[i];
        if !(('0' <= c && c <= '9') || ('a' <= c && c <= 'f') || ('A' <= c && c <= 'F') || c
            == '-') {
            assert(!boot_id_char(v@[i as int]));
            return Err(JobError::BootId);
        }
        i = i + 1;
    }
    Ok(value)
}

} // verus!
