//! The redeploy worker: the order of its steps, and what a failure at each of
//! them leads to.

use vstd::prelude::*;

use super::account::UserInstallContext;
use super::job::rank;
use super::protocol::{AgentInfo, JobPhase, ManagementResponse, PROTOCOL_MAJOR};
use crate::duration::{Duration, NANOS_PER_SECOND};
use crate::text;
use crate::version::{Version, VersionView};

verus! {

/// How long a new agent may take to become healthy.
pub const READINESS_TIMEOUT_SECONDS: u64 = 60;

/// How long the worker waits between two looks at the agent.
pub const READINESS_RETRY_SECONDS: u64 = 1;

/// How long one look at the agent may take.
pub const HEALTH_REQUEST_TIMEOUT_SECONDS: u64 = 2;

/// One thing that the worker does.
#[derive(Clone, Copy, Debug, PartialEq, Eq, Structural)]
pub enum WorkerStep {
    TakeRequest,
    NotePreparing,
    PrepareBuild,
    NoteToolchain,
    EnsureToolchain,
    NoteBuilding,
    CompileAndPrepareUser,
    NoteValidating,
    NoteStaging,
    PrepareInstallation,
    NoteCommitting,
    CommitFiles,
    Activate,
    NoteRestarting,
    AwaitHealth,
    NoteReinstalling,
    ReinstallUser,
    RecordReinstalled,
    CleanUpUser,
    Finalize,
    RollBack,
}

/// The phase that a step notes, with its public detail and whether the system
/// is committed by then.
pub open spec fn noted(step: WorkerStep) -> Option<(JobPhase, Seq<char>, bool)> {
    match step {
        WorkerStep::NotePreparing => Some(
            (JobPhase::Preparing, "preparing managed build"@, false),
        ),
        WorkerStep::NoteToolchain => Some(
            (JobPhase::Toolchain, "ensuring shared stable Rust toolchain"@, false),
        ),
        WorkerStep::NoteBuilding => Some(
            (JobPhase::Building, "building exact Cargo release"@, false),
        ),
        WorkerStep::NoteValidating => Some(
            (JobPhase::Validating, "validated artifact ownership, version, and manifest"@, false),
        ),
        WorkerStep::NoteStaging => Some(
            (JobPhase::Staging, "staging recoverable system transaction"@, false),
        ),
        WorkerStep::NoteCommitting => Some(
            (JobPhase::CommittingSystem, "committing managed system files"@, false),
        ),
        WorkerStep::NoteRestarting => Some(
            (
                JobPhase::RestartingAgent,
                "waiting for both agent protocols to become healthy"@,
                true,
            ),
        ),
        WorkerStep::NoteReinstalling => Some(
            (
                JobPhase::ReinstallingUser,
                "reinstalling requesting user's existing Cargo CLI"@,
                true,
            ),
        ),
        _ => None,
    }
}

/// The phase that a step notes, with its public detail and whether the system
/// is committed by then.
pub fn step_note(step: WorkerStep) -> (r: Option<(JobPhase, &'static str, bool)>)
    ensures
        match r {
            Some(note) => noted(step) == Some((note.0, note.1@, note.2)),
            None => noted(step) is None,
        },
{
    match step {
        WorkerStep::NotePreparing => Some((JobPhase::Preparing, "preparing managed build", false)),
        WorkerStep::NoteToolchain => Some(
            (JobPhase::Toolchain, "ensuring shared stable Rust toolchain", false),
        ),
        WorkerStep::NoteBuilding => Some(
            (JobPhase::Building, "building exact Cargo release", false),
        ),
        WorkerStep::NoteValidating => Some(
            (JobPhase::Validating, "validated artifact ownership, version, and manifest", false),
        ),
        WorkerStep::NoteStaging => Some(
            (JobPhase::Staging, "staging recoverable system transaction", false),
        ),
        WorkerStep::NoteCommitting => Some(
            (JobPhase::CommittingSystem, "committing managed system files", false),
        ),
        WorkerStep::NoteRestarting => Some(
            (
                JobPhase::RestartingAgent,
                "waiting for both agent protocols to become healthy",
                true,
            ),
        ),
        WorkerStep::NoteReinstalling => Some(
            (
                JobPhase::ReinstallingUser,
                "reinstalling requesting user's existing Cargo CLI",
                true,
            ),
        ),
        _ => None,
    }
}

/// What came of a step. Taking the request tells whether a user's program must
/// be reinstalled; reinstalling it tells whether it was; finalizing tells, where
/// it failed, whether the installation was accepted; rolling back tells, where
/// it failed, whether the files are still committed.
#[derive(Debug, PartialEq, Eq)]
#[allow(inconsistent_fields)]
pub enum WorkerEvent {
    Done,
    Taken { user_required: bool },
    Reinstalled { outcome: bool, error: Option<String> },
    Failed(String),
    FinalizeFailed { error: String, accepted: bool },
    RollBackFailed { error: String, files_committed: bool },
}

/// A worker under way: its step, whether a user's program must be reinstalled
/// and whether it was, and what went wrong so far.
#[derive(Debug, PartialEq, Eq)]
pub struct WorkerProgress {
    pub step: WorkerStep,
    pub user_required: bool,
    pub reinstalled: Option<bool>,
    pub error: Option<String>,
}

/// How a worker failed.
#[derive(Debug, PartialEq, Eq)]
pub struct WorkerFailure {
    pub error: String,
    pub system_committed: bool,
    pub rollback_succeeded: Option<bool>,
    pub required_user_reinstalled: Option<bool>,
}

/// What comes next.
#[derive(Debug, PartialEq, Eq)]
pub enum WorkerNext {
    Continue(WorkerProgress),
    Complete { required_user_reinstalled: Option<bool> },
    Fail(WorkerFailure),
}

/// The step behind one that went well, where it is not the last.
pub open spec fn following(step: WorkerStep, user_required: bool) -> WorkerStep {
    match step {
        WorkerStep::TakeRequest => WorkerStep::NotePreparing,
        WorkerStep::NotePreparing => WorkerStep::PrepareBuild,
        WorkerStep::PrepareBuild => WorkerStep::NoteToolchain,
        WorkerStep::NoteToolchain => WorkerStep::EnsureToolchain,
        WorkerStep::EnsureToolchain => WorkerStep::NoteBuilding,
        WorkerStep::NoteBuilding => WorkerStep::CompileAndPrepareUser,
        WorkerStep::CompileAndPrepareUser => WorkerStep::NoteValidating,
        WorkerStep::NoteValidating => WorkerStep::NoteStaging,
        WorkerStep::NoteStaging => WorkerStep::PrepareInstallation,
        WorkerStep::PrepareInstallation => WorkerStep::NoteCommitting,
        WorkerStep::NoteCommitting => WorkerStep::CommitFiles,
        WorkerStep::CommitFiles => WorkerStep::Activate,
        WorkerStep::Activate => WorkerStep::NoteRestarting,
        WorkerStep::NoteRestarting => WorkerStep::AwaitHealth,
        WorkerStep::AwaitHealth => if user_required {
            WorkerStep::NoteReinstalling
        } else {
            WorkerStep::Finalize
        },
        WorkerStep::NoteReinstalling => WorkerStep::ReinstallUser,
        WorkerStep::ReinstallUser => WorkerStep::RecordReinstalled,
        WorkerStep::RecordReinstalled => WorkerStep::CleanUpUser,
        WorkerStep::CleanUpUser => WorkerStep::Finalize,
        WorkerStep::Finalize => WorkerStep::RollBack,
        WorkerStep::RollBack => WorkerStep::RollBack,
    }
}

/// Whether nothing is committed yet at a step: a failure ends the job there.
pub open spec fn before_commit(step: WorkerStep) -> bool {
    step_order(step) < step_order(WorkerStep::CommitFiles)
}

/// The place of a step in the course of the worker.
pub open spec fn step_order(step: WorkerStep) -> int {
    match step {
        WorkerStep::TakeRequest => 0,
        WorkerStep::NotePreparing => 1,
        WorkerStep::PrepareBuild => 2,
        WorkerStep::NoteToolchain => 3,
        WorkerStep::EnsureToolchain => 4,
        WorkerStep::NoteBuilding => 5,
        WorkerStep::CompileAndPrepareUser => 6,
        WorkerStep::NoteValidating => 7,
        WorkerStep::NoteStaging => 8,
        WorkerStep::PrepareInstallation => 9,
        WorkerStep::NoteCommitting => 10,
        WorkerStep::CommitFiles => 11,
        WorkerStep::Activate => 12,
        WorkerStep::NoteRestarting => 13,
        WorkerStep::AwaitHealth => 14,
        WorkerStep::NoteReinstalling => 15,
        WorkerStep::ReinstallUser => 16,
        WorkerStep::RecordReinstalled => 17,
        WorkerStep::CleanUpUser => 18,
        WorkerStep::Finalize => 19,
        WorkerStep::RollBack => 20,
    }
}

/// Two errors as one text.
pub open spec fn additionally(first: Option<Seq<char>>, second: Seq<char>) -> Seq<char> {
    match first {
        None => second,
        Some(f) => f + "; additionally: "@ + second,
    }
}

fn combine_errors(first: Option<String>, second: String) -> (out: String)
    ensures
        out@ == additionally(text::opt(first), second@),
{
    match first {
        None => second,
        Some(f) => f.concat("; additionally: ").concat(second.as_str()),
    }
}

/// The text of what went wrong with the user's program after the system was
/// committed.
pub open spec fn user_failure(error: Seq<char>) -> Seq<char> {
    "system redeploy succeeded but its user CLI work failed: "@ + error
}

/// Whether what comes next is a failure with the given parts.
pub open spec fn fails_with(
    next: WorkerNext,
    error: Seq<char>,
    system_committed: bool,
    rollback_succeeded: Option<bool>,
    reinstalled: Option<bool>,
) -> bool {
    next matches WorkerNext::Fail(failure) && failure.error@ == error && failure.system_committed
        == system_committed && failure.rollback_succeeded == rollback_succeeded
        && failure.required_user_reinstalled == reinstalled
}

/// Whether what comes next is a step with the given parts.
pub open spec fn continues_with(
    next: WorkerNext,
    step: WorkerStep,
    user_required: bool,
    reinstalled: Option<bool>,
    error: Option<Seq<char>>,
) -> bool {
    next matches WorkerNext::Continue(progress) && progress.step == step && progress.user_required
        == user_required && progress.reinstalled == reinstalled && text::opt(progress.error)
        == error
}

impl WorkerProgress {
    /// A worker that has done nothing yet.
    pub fn start() -> (r: WorkerProgress)
        ensures
            r.step is TakeRequest,
            !r.user_required,
            r.reinstalled is None,
            r.error is None,
    {
        WorkerProgress {
            step: WorkerStep::TakeRequest,
            user_required: false,
            reinstalled: None,
            error: None,
        }
    }

    /// Whether an event is one that the step can have.
    pub open spec fn expects(self, event: WorkerEvent) -> bool {
        match event {
            WorkerEvent::Done => !(self.step is TakeRequest) && !(self.step is ReinstallUser),
            WorkerEvent::Taken { .. } => self.step is TakeRequest,
            WorkerEvent::Reinstalled { outcome, error } => self.step is ReinstallUser && (error
                is None ==> outcome),
            WorkerEvent::Failed(_) => !(self.step is Finalize) && !(self.step is RollBack)
                && !(self.step is ReinstallUser),
            WorkerEvent::FinalizeFailed { .. } => self.step is Finalize,
            WorkerEvent::RollBackFailed { .. } => self.step is RollBack,
        }
    }

    /// The text of what went wrong so far.
    pub open spec fn trouble(self) -> Seq<char> {
        match self.error {
            Some(e) => e@,
            None => Seq::empty(),
        }
    }

    /// Whether what comes next follows from what came of the step.
    pub open spec fn leads_to(self, event: WorkerEvent, next: WorkerNext) -> bool {
        let error = text::opt(self.error);
        match event {
            WorkerEvent::Taken { user_required } => continues_with(
                next,
                WorkerStep::NotePreparing,
                user_required,
                self.reinstalled,
                error,
            ),
            WorkerEvent::Reinstalled { outcome, error: attempt } => continues_with(
                next,
                WorkerStep::RecordReinstalled,
                self.user_required,
                Some(outcome),
                text::opt(attempt),
            ),
            WorkerEvent::Done => match self.step {
                WorkerStep::Finalize => match self.error {
                    None => next == (WorkerNext::Complete {
                        required_user_reinstalled: self.reinstalled,
                    }),
                    Some(e) => fails_with(
                        next,
                        user_failure(e@),
                        true,
                        None,
                        self.reinstalled,
                    ),
                },
                WorkerStep::RollBack => fails_with(
                    next,
                    "managed installation failed and was rolled back: "@ + self.trouble(),
                    false,
                    Some(true),
                    self.reinstalled,
                ),
                step => continues_with(
                    next,
                    following(step, self.user_required),
                    self.user_required,
                    self.reinstalled,
                    error,
                ),
            },
            WorkerEvent::Failed(e) => if before_commit(self.step) {
                fails_with(next, e@, false, None, None)
            } else if self.step is RecordReinstalled {
                continues_with(
                    next,
                    WorkerStep::CleanUpUser,
                    self.user_required,
                    self.reinstalled,
                    Some(
                        additionally(
                            error,
                            "failed to persist the requesting-user reinstall outcome: "@ + e@,
                        ),
                    ),
                )
            } else if self.step is CleanUpUser {
                continues_with(
                    next,
                    WorkerStep::Finalize,
                    self.user_required,
                    self.reinstalled,
                    Some(
                        additionally(
                            error,
                            "failed to clean the requesting-user Cargo workspace: "@ + e@,
                        ),
                    ),
                )
            } else {
                continues_with(
                    next,
                    WorkerStep::RollBack,
                    self.user_required,
                    None,
                    Some(e@),
                )
            },
            WorkerEvent::FinalizeFailed { error: e, accepted } => {
                let text = match self.error {
                    None => e@,
                    Some(user) => user_failure(user@) + if accepted {
                        "; committed installation cleanup failed: "@
                    } else {
                        "; accepting the installation failed: "@
                    } + e@,
                };
                if accepted {
                    fails_with(next, text, true, None, self.reinstalled)
                } else {
                    continues_with(
                        next,
                        WorkerStep::RollBack,
                        self.user_required,
                        self.reinstalled,
                        Some(text),
                    )
                }
            },
            WorkerEvent::RollBackFailed { error: e, files_committed } => fails_with(
                next,
                "managed installation failed: "@ + self.trouble() + "; rollback also failed: "@
                    + e@,
                files_committed,
                Some(false),
                self.reinstalled,
            ),
        }
    }

    /// Decides what comes next from what came of the step.
    pub fn advance(self, event: WorkerEvent) -> (next: WorkerNext)
        requires
            self.expects(event),
        ensures
            self.leads_to(event, next),
    {
        match event {
            WorkerEvent::Taken { user_required } => WorkerNext::Continue(
                WorkerProgress { step: WorkerStep::NotePreparing, user_required, ..self },
            ),
            WorkerEvent::Reinstalled { outcome, error } => WorkerNext::Continue(
                WorkerProgress {
                    step: WorkerStep::RecordReinstalled,
                    reinstalled: Some(outcome),
                    error,
                    ..self
                },
            ),
            WorkerEvent::Done => self.after_success(),
            WorkerEvent::Failed(e) => self.after_failure(e),
            WorkerEvent::FinalizeFailed { error: e, accepted } => {
                let text = match self.error {
                    None => e,
                    Some(user) => {
                        let middle = if accepted {
                            "; committed installation cleanup failed: "
                        } else {
                            "; accepting the installation failed: "
                        };
                        "system redeploy succeeded but its user CLI work failed: ".to_owned().concat(
                            user.as_str(),
                        ).concat(middle).concat(e.as_str())
                    },
                };
                if accepted {
                    WorkerNext::Fail(
                        WorkerFailure {
                            error: text,
                            system_committed: true,
                            rollback_succeeded: None,
                            required_user_reinstalled: self.reinstalled,
                        },
                    )
                } else {
                    WorkerNext::Continue(
                        WorkerProgress {
                            step: WorkerStep::RollBack,
                            user_required: self.user_required,
                            reinstalled: self.reinstalled,
                            error: Some(text),
                        },
                    )
                }
            },
            WorkerEvent::RollBackFailed { error: e, files_committed } => {
                let trouble = match self.error {
                    Some(t) => t,
                    None => String::new(),
                };
                let error = "managed installation failed: ".to_owned().concat(
                    trouble.as_str(),
                ).concat("; rollback also failed: ").concat(e.as_str());
                WorkerNext::Fail(
                    WorkerFailure {
                        error,
                        system_committed: files_committed,
                        rollback_succeeded: Some(false),
                        required_user_reinstalled: self.reinstalled,
                    },
                )
            },
        }
    }

    fn after_success(self) -> (next: WorkerNext)
        requires
            self.expects(WorkerEvent::Done),
        ensures
            self.leads_to(WorkerEvent::Done, next),
    {
        let step = match self.step {
            WorkerStep::Finalize => {
                return match self.error {
                    None => WorkerNext::Complete { required_user_reinstalled: self.reinstalled },
                    Some(e) => WorkerNext::Fail(
                        WorkerFailure {
                            error: "system redeploy succeeded but its user CLI work failed: ".to_owned().concat(
                            e.as_str()),
                            system_committed: true,
                            rollback_succeeded: None,
                            required_user_reinstalled: self.reinstalled,
                        },
                    ),
                };
            },
            WorkerStep::RollBack => {
                let trouble = match self.error {
                    Some(t) => t,
                    None => String::new(),
                };
                let error = "managed installation failed and was rolled back: ".to_owned().concat(
                    trouble.as_str(),
                );
                return WorkerNext::Fail(
                    WorkerFailure {
                        error,
                        system_committed: false,
                        rollback_succeeded: Some(true),
                        required_user_reinstalled: self.reinstalled,
                    },
                );
            },
            WorkerStep::TakeRequest => WorkerStep::NotePreparing,
            WorkerStep::NotePreparing => WorkerStep::PrepareBuild,
            WorkerStep::PrepareBuild => WorkerStep::NoteToolchain,
            WorkerStep::NoteToolchain => WorkerStep::EnsureToolchain,
            WorkerStep::EnsureToolchain => WorkerStep::NoteBuilding,
            WorkerStep::NoteBuilding => WorkerStep::CompileAndPrepareUser,
            WorkerStep::CompileAndPrepareUser => WorkerStep::NoteValidating,
            WorkerStep::NoteValidating => WorkerStep::NoteStaging,
            WorkerStep::NoteStaging => WorkerStep::PrepareInstallation,
            WorkerStep::PrepareInstallation => WorkerStep::NoteCommitting,
            WorkerStep::NoteCommitting => WorkerStep::CommitFiles,
            WorkerStep::CommitFiles => WorkerStep::Activate,
            WorkerStep::Activate => WorkerStep::NoteRestarting,
            WorkerStep::NoteRestarting => WorkerStep::AwaitHealth,
            WorkerStep::AwaitHealth => if self.user_required {
                WorkerStep::NoteReinstalling
            } else {
                WorkerStep::Finalize
            },
            WorkerStep::NoteReinstalling => WorkerStep::ReinstallUser,
            WorkerStep::ReinstallUser => WorkerStep::RecordReinstalled,
            WorkerStep::RecordReinstalled => WorkerStep::CleanUpUser,
            WorkerStep::CleanUpUser => WorkerStep::Finalize,
        };
        WorkerNext::Continue(WorkerProgress { step, ..self })
    }

    fn after_failure(self, e: String) -> (next: WorkerNext)
        requires
            self.expects(WorkerEvent::Failed(e)),
        ensures
            self.leads_to(WorkerEvent::Failed(e), next),
    {
        match self.step {
            WorkerStep::RecordReinstalled => {
                let second =
                    "failed to persist the requesting-user reinstall outcome: ".to_owned().concat(
                    e.as_str(),
                );
                let error = combine_errors(self.error, second);
                WorkerNext::Continue(
                    WorkerProgress {
                        step: WorkerStep::CleanUpUser,
                        user_required: self.user_required,
                        reinstalled: self.reinstalled,
                        error: Some(error),
                    },
                )
            },
            WorkerStep::CleanUpUser => {
                let second =
                    "failed to clean the requesting-user Cargo workspace: ".to_owned().concat(
                    e.as_str(),
                );
                let error = combine_errors(self.error, second);
                WorkerNext::Continue(
                    WorkerProgress {
                        step: WorkerStep::Finalize,
                        user_required: self.user_required,
                        reinstalled: self.reinstalled,
                        error: Some(error),
                    },
                )
            },
            WorkerStep::CommitFiles
            | WorkerStep::Activate
            | WorkerStep::NoteRestarting
            | WorkerStep::AwaitHealth
            | WorkerStep::NoteReinstalling => WorkerNext::Continue(
                WorkerProgress {
                    step: WorkerStep::RollBack,
                    user_required: self.user_required,
                    reinstalled: None,
                    error: Some(e),
                },
            ),
            _ => WorkerNext::Fail(
                WorkerFailure {
                    error: e,
                    system_committed: false,
                    rollback_succeeded: None,
                    required_user_reinstalled: None,
                },
            ),
        }
    }
}

/// The worker only moves forward, and the phases that it notes on its way only
/// advance.
pub proof fn law_worker_only_advances(
    progress: WorkerProgress,
    event: WorkerEvent,
    next: WorkerNext,
    a: WorkerStep,
    b: WorkerStep,
)
    requires
        progress.expects(event),
        progress.leads_to(event, next),
    ensures
        next matches WorkerNext::Continue(after) ==> step_order(after.step) > step_order(
            progress.step,
        ),
        step_order(a) < step_order(b) ==> match (noted(a), noted(b)) {
            (Some(first), Some(second)) => rank(first.0) < rank(second.0),
            _ => true,
        },
{
}

/// An installation is accepted only after the new agent was healthy: a step
/// beyond waiting for that, other than rolling back, follows only on its success
/// or on another such step.
pub proof fn law_acceptance_follows_health(
    progress: WorkerProgress,
    event: WorkerEvent,
    next: WorkerNext,
)
    requires
        progress.expects(event),
        progress.leads_to(event, next),
    ensures
        next matches WorkerNext::Continue(after) && step_order(after.step) > step_order(
            WorkerStep::AwaitHealth,
        ) && !(after.step is RollBack) ==> {
            ||| progress.step is AwaitHealth && event is Done
            ||| step_order(progress.step) > step_order(WorkerStep::AwaitHealth)
        },
        next is Complete ==> progress.step is Finalize,
{
}

/// What a failure says of the system: one before the commit leaves it as it was
/// and rolls nothing back, one that was rolled back does not count as committed,
/// and one after the commit either was rolled back, or could not be, or stands
/// because the installation was accepted.
pub proof fn law_failures_are_honest(
    progress: WorkerProgress,
    event: WorkerEvent,
    next: WorkerNext,
)
    requires
        progress.expects(event),
        progress.leads_to(event, next),
    ensures
        next matches WorkerNext::Fail(failure) ==> {
            &&& before_commit(progress.step) ==> !failure.system_committed
                && failure.rollback_succeeded is None
            &&& failure.rollback_succeeded == Some(true) ==> !failure.system_committed
                && progress.step is RollBack
            &&& !before_commit(progress.step) && failure.rollback_succeeded is None
                ==> failure.system_committed && progress.step is Finalize
        },
        event is Failed && !before_commit(progress.step) && !(progress.step is RecordReinstalled)
            && !(progress.step is CleanUpUser) ==> (next matches WorkerNext::Continue(after)
            && after.step is RollBack),
{
}

// ---------------------------------------------------------------------------
// Compiling, and preparing a user's installation
// ---------------------------------------------------------------------------

/// Compiles the release; where a user's program must be reinstalled, then
/// reclaims the space of the shared target, and only then prepares that user's
/// workspace. Each of the three may demand that the one before it succeeded, and
/// without such a user only the first is called.
pub fn compile_and_prepare_user_install<
    A,
    U,
    E,
    C: FnOnce() -> Result<A, E>,
    R: FnOnce() -> Result<(), E>,
    P: FnOnce(&UserInstallContext) -> Result<U, E>,
>(context: Option<&UserInstallContext>, compile: C, reclaim_system_target: R, prepare: P) -> (r:
    Result<(A, Option<U>), E>)
    requires
        compile.requires(()),
        forall|a: A| #[trigger]
            compile.ensures((), Ok::<A, E>(a)) && context is Some
                ==> reclaim_system_target.requires(()),
        context matches Some(user) ==> (reclaim_system_target.ensures((), Ok::<(), E>(()))
            ==> prepare.requires((user,))),
    ensures
        r matches Ok(pair) ==> {
            &&& compile.ensures((), Ok::<A, E>(pair.0))
            &&& match context {
                None => pair.1 is None,
                Some(user) => reclaim_system_target.ensures((), Ok::<(), E>(())) && (
                pair.1 matches Some(workspace) && prepare.ensures((user,), Ok::<U, E>(workspace))),
            }
        },
        r matches Err(e) ==> {
            ||| compile.ensures((), Err::<A, E>(e))
            ||| (exists|a: A| #[trigger] compile.ensures((), Ok::<A, E>(a))) && context is Some
                && reclaim_system_target.ensures((), Err::<(), E>(e))
            ||| (exists|a: A| #[trigger] compile.ensures((), Ok::<A, E>(a))) && (context matches
                Some(user) && reclaim_system_target.ensures((), Ok::<(), E>(()))
                && prepare.ensures((user,), Err::<U, E>(e)))
        },
{
    let artifacts = match compile() {
        Ok(artifacts) => artifacts,
        Err(e) => return Err(e),
    };
    let user = match context {
        Some(user) => user,
        None => return Ok((artifacts, None)),
    };
    match reclaim_system_target() {
        Ok(reclaimed) => {
            assert(reclaimed == ());
        },
        Err(e) => return Err(e),
    }
    match prepare(user) {
        Ok(workspace) => Ok((artifacts, Some(workspace))),
        Err(e) => Err(e),
    }
}

// ---------------------------------------------------------------------------
// Health
// ---------------------------------------------------------------------------

/// Why an agent is not healthy.
#[derive(Debug, PartialEq, Eq)]
pub enum HealthError {
    WrongResponse,
    Mismatch { product: String, version: String },
    Unreachable(String),
    NoResponse,
}

impl HealthError {
    /// The words for the error.
    pub open spec fn words(self) -> Seq<char> {
        match self {
            HealthError::WrongResponse =>
                "management health request returned the wrong response"@,
            HealthError::Mismatch { product, version } =>
                "agent health identity/version does not match "@ + product@ + " "@ + version@,
            HealthError::Unreachable(e) => e@,
            HealthError::NoResponse => "agent readiness deadline elapsed without a response"@,
        }
    }

    /// The words for the error.
    pub fn message(&self) -> (out: String)
        ensures
            out@ == self.words(),
    {
        match self {
            HealthError::WrongResponse =>
                "management health request returned the wrong response".to_owned(),
            HealthError::Mismatch { product, version } =>
                "agent health identity/version does not match ".to_owned().concat(
                product.as_str(),
            ).concat(" ").concat(version.as_str()),
            HealthError::Unreachable(e) => e.clone(),
            HealthError::NoResponse =>
                "agent readiness deadline elapsed without a response".to_owned(),
        }
    }
}

/// Whether what an agent says of itself is what is expected of the new one.
pub open spec fn healthy(
    info: AgentInfo,
    product: Seq<char>,
    package: Seq<char>,
    version: VersionView,
) -> bool {
    &&& info.product@ == product
    &&& info.package@ == package
    &&& info.version@ == version.text()
    &&& info.protocol_major == PROTOCOL_MAJOR
}

/// Whether an error is that for an agent that is not the one expected.
pub open spec fn mismatch(e: HealthError, product: Seq<char>, version: VersionView) -> bool {
    e matches HealthError::Mismatch { product: p, version: v } && p@ == product && v@
        == version.text()
}

/// Checks what an agent says of itself.
pub fn validate_health(info: &AgentInfo, product: &str, package: &str, expected: &Version) -> (r:
    Result<(), HealthError>)
    ensures
        r is Ok <==> healthy(*info, product@, package@, expected@),
        r matches Err(e) ==> mismatch(e, product@, expected@),
{
    let version = expected.text();
    if !text::same(info.product.as_str(), product) || !text::same(info.package.as_str(), package)
        || info.version != version || info.protocol_major != PROTOCOL_MAJOR {
        return Err(HealthError::Mismatch { product: product.to_owned(), version });
    }
    Ok(())
}

/// Checks what the management protocol answered to a request for information.
pub fn management_health(
    response: Result<ManagementResponse, String>,
    product: &str,
    package: &str,
    expected: &Version,
) -> (r: Result<(), HealthError>)
    ensures
        match response {
            Err(text) => r == Err::<(), HealthError>(HealthError::Unreachable(text)),
            Ok(ManagementResponse::Info(info)) => {
                &&& r is Ok <==> healthy(info, product@, package@, expected@)
                &&& r matches Err(e) ==> mismatch(e, product@, expected@)
            },
            Ok(_) => r == Err::<(), HealthError>(HealthError::WrongResponse),
        },
{
    match response {
        Err(text) => Err(HealthError::Unreachable(text)),
        Ok(ManagementResponse::Info(info)) => validate_health(&info, product, package, expected),
        Ok(_) => Err(HealthError::WrongResponse),
    }
}

/// Whether the worker goes on waiting for the agent.
pub fn keeps_waiting(elapsed: &Duration) -> (r: bool)
    ensures
        r == (elapsed@ < READINESS_TIMEOUT_SECONDS * NANOS_PER_SECOND),
{
    let limit = Duration::from_secs(READINESS_TIMEOUT_SECONDS);
    !limit.at_most(elapsed)
}

/// The text for an agent that did not become healthy in time, from what the
/// last look at it found.
pub fn unhealthy_text(last: Option<HealthError>) -> (out: String)
    ensures
        out@ == "new agent did not become healthy on both sockets: "@ + match last {
            Some(e) => e.words(),
            None => HealthError::NoResponse.words(),
        },
{
    let cause = match last {
        Some(e) => e.message(),
        None => HealthError::NoResponse.message(),
    };
    "new agent did not become healthy on both sockets: ".to_owned().concat(cause.as_str())
}

} // verus!
