//! The operations on an installed product as sequences of steps: preparing an
//! installation or an uninstallation, recovering one that was interrupted,
//! undoing one, and repairing what is installed.
//!
//! Each says which step comes next once the last one ended, and what the whole
//! operation came to.

use vstd::prelude::*;

use super::installation::InstallationError;
use super::manifest::ManagedFile;
use super::protocol::RepairOutcome;
use super::transaction::{
    repair_detail, repair_file, repair_outcome, repair_plan, undo_outcome, Recovery, RepairAction,
    RepairFacts, UndoOutcome,
};
use crate::unix_path;

verus! {

/// The directory that keeps the journals of installations.
pub const INSTALLATION_STATE_ROOT: &'static str = "/var/lib/capulus/installations";

/// The directory of the locks on installations.
pub const INSTALLATION_LOCK_ROOT: &'static str = "/run/capulus/locks";

/// How long the unit files that were committed may take to be verified.
pub const VERIFY_TIMEOUT_SECONDS: u64 = 30;

/// Where the journals and the lock of a product's installations are.
#[derive(Clone, Debug, PartialEq, Eq)]
pub struct InstallationPaths {
    pub directory: String,
    pub journal: String,
    pub removal_journal: String,
    pub lock_name: String,
}

impl InstallationPaths {
    /// The paths of a product.
    pub fn new(product: &str) -> (r: InstallationPaths)
        ensures
            r.directory@ == unix_path::joined("/var/lib/capulus/installations"@, product@),
            r.journal@ == unix_path::joined(r.directory@, "active.json"@),
            r.removal_journal@ == unix_path::joined(r.directory@, "uninstall.json"@),
            r.lock_name@ == "installation-"@ + product@,
    {
        let directory = unix_path::join(INSTALLATION_STATE_ROOT, product);
        let journal = unix_path::join(directory.as_str(), "active.json");
        let removal_journal = unix_path::join(directory.as_str(), "uninstall.json");
        let lock_name = "installation-".to_owned().concat(product);
        InstallationPaths { directory, journal, removal_journal, lock_name }
    }
}

/// How a step ended.
#[derive(Clone, Debug, PartialEq, Eq)]
pub enum StepEnd {
    Done,
    Failed(String),
}

// ---------------------------------------------------------------------------
// Preparing
// ---------------------------------------------------------------------------

/// One step of preparing an installation.
#[derive(Clone, Copy, Debug, PartialEq, Eq, Structural)]
pub enum PrepareStep {
    RecoverInstallation,
    RecoverUninstallation,
    CheckArtifacts,
    ReadEnabledUnits,
    PlanRecords,
    WriteJournal,
    Stage(usize),
    CleanStaging,
    RemoveJournal,
}

/// An installation that is being prepared: its step, the number of its records
/// once they are planned, and why a record could not be staged.
#[derive(Clone, Debug, PartialEq, Eq)]
pub struct PrepareProgress {
    pub step: PrepareStep,
    pub records: usize,
    pub error: Option<String>,
}

/// What comes next.
#[derive(Clone, Debug, PartialEq, Eq)]
pub enum PrepareNext {
    Continue(PrepareProgress),
    Ready,
    Failed(String),
}

impl PrepareProgress {
    /// A preparation that has done nothing yet. An installation that was
    /// interrupted is recovered first.
    pub fn begin(journal_exists: bool) -> (r: PrepareProgress)
        ensures
            r.step == if journal_exists {
                PrepareStep::RecoverInstallation
            } else {
                PrepareStep::RecoverUninstallation
            },
            r.records == 0,
            r.error is None,
    {
        let step = if journal_exists {
            PrepareStep::RecoverInstallation
        } else {
            PrepareStep::RecoverUninstallation
        };
        PrepareProgress { step, records: 0, error: None }
    }

    /// The preparation at a step.
    pub open spec fn at(self, step: PrepareStep) -> PrepareNext {
        PrepareNext::Continue(PrepareProgress { step, ..self })
    }

    /// Whether the state can be reached: a record that is being staged is one of
    /// the records, and a preparation that cleans up has an error.
    pub open spec fn sound(self) -> bool {
        &&& self.step matches PrepareStep::Stage(i) ==> i < self.records
        &&& self.step is CleanStaging || self.step is RemoveJournal ==> self.error is Some
    }

    /// What comes next. `planned` is the number of records once they are
    /// planned.
    pub open spec fn next(self, end: StepEnd, planned: usize) -> PrepareNext {
        match end {
            StepEnd::Failed(e) => if self.step is Stage {
                PrepareNext::Continue(
                    PrepareProgress { step: PrepareStep::CleanStaging, error: Some(e), ..self },
                )
            } else {
                PrepareNext::Failed(e)
            },
            StepEnd::Done => match self.step {
                PrepareStep::RecoverInstallation => self.at(PrepareStep::RecoverUninstallation),
                PrepareStep::RecoverUninstallation => self.at(PrepareStep::CheckArtifacts),
                PrepareStep::CheckArtifacts => self.at(PrepareStep::ReadEnabledUnits),
                PrepareStep::ReadEnabledUnits => self.at(PrepareStep::PlanRecords),
                PrepareStep::PlanRecords => PrepareNext::Continue(
                    PrepareProgress {
                        step: PrepareStep::WriteJournal,
                        records: planned,
                        ..self
                    },
                ),
                PrepareStep::WriteJournal => if self.records > 0 {
                    self.at(PrepareStep::Stage(0))
                } else {
                    PrepareNext::Ready
                },
                PrepareStep::Stage(i) => if i + 1 < self.records {
                    self.at(PrepareStep::Stage((i + 1) as usize))
                } else {
                    PrepareNext::Ready
                },
                PrepareStep::CleanStaging => self.at(PrepareStep::RemoveJournal),
                PrepareStep::RemoveJournal => PrepareNext::Failed(self.error->0),
            },
        }
    }

    /// Decides what comes next.
    pub fn advance(self, end: StepEnd, planned: usize) -> (r: PrepareNext)
        requires
            self.sound(),
        ensures
            r == self.next(end, planned),
            r matches PrepareNext::Continue(after) ==> after.sound(),
    {
        if let StepEnd::Failed(e) = end {
            return match self.step {
                PrepareStep::Stage(_) => PrepareNext::Continue(
                    PrepareProgress {
                        step: PrepareStep::CleanStaging,
                        records: self.records,
                        error: Some(e),
                    },
                ),
                _ => PrepareNext::Failed(e),
            };
        }
        let mut records: usize = self.records;
        let step = match self.step {
            PrepareStep::RecoverInstallation => PrepareStep::RecoverUninstallation,
            PrepareStep::RecoverUninstallation => PrepareStep::CheckArtifacts,
            PrepareStep::CheckArtifacts => PrepareStep::ReadEnabledUnits,
            PrepareStep::ReadEnabledUnits => PrepareStep::PlanRecords,
            PrepareStep::PlanRecords => {
                records = planned;
                PrepareStep::WriteJournal
            },
            PrepareStep::WriteJournal => {
                if records == 0 {
                    return PrepareNext::Ready;
                }
                PrepareStep::Stage(0)
            },
            PrepareStep::Stage(i) => {
                if i + 1 >= records {
                    return PrepareNext::Ready;
                }
                PrepareStep::Stage(i + 1)
            },
            PrepareStep::CleanStaging => PrepareStep::RemoveJournal,
            PrepareStep::RemoveJournal => return PrepareNext::Failed(self.error.unwrap()),
        };
        PrepareNext::Continue(PrepareProgress { step, records, error: self.error })
    }
}

/// Nothing is staged before the journal is written, and everything that was
/// interrupted is recovered before anything is planned.
pub proof fn law_staging_follows_the_journal(
    progress: PrepareProgress,
    end: StepEnd,
    planned: usize,
)
    requires
        progress.sound(),
    ensures
        progress.next(end, planned) matches PrepareNext::Continue(after) ==> {
            &&& after.step is Stage ==> progress.step is WriteJournal || progress.step is Stage
            &&& after.step is WriteJournal ==> progress.step is PlanRecords && end is Done
            &&& after.step is CheckArtifacts ==> progress.step is RecoverUninstallation
                && end is Done
        },
        progress.next(end, planned) is Ready ==> end is Done && (progress.step is Stage
            || progress.step is WriteJournal),
{
}

/// A record that cannot be staged leaves neither staged files nor a journal: the
/// preparation fails with that record's error only after both are removed.
pub proof fn law_a_failed_preparation_cleans_up(progress: PrepareProgress, e: String, planned: usize)
    requires
        progress.sound(),
        progress.step is Stage,
    ensures
        ({
            let failed = progress.next(StepEnd::Failed(e), planned);
            failed matches PrepareNext::Continue(cleaning) && cleaning.step is CleanStaging && ({
                let cleaned = cleaning.next(StepEnd::Done, planned);
                cleaned matches PrepareNext::Continue(removing) && removing.step is RemoveJournal
                    && removing.next(StepEnd::Done, planned) == PrepareNext::Failed(e)
            })
        }),
{
}

// ---------------------------------------------------------------------------
// Recovering
// ---------------------------------------------------------------------------

/// One step of recovering from a journal that can be trusted.
#[derive(Clone, Copy, Debug, PartialEq, Eq, Structural)]
pub enum RecoverStep {
    VerifyFiles,
    RefreshUnits,
    UndoFiles,
    RestoreUnits,
    CleanStaging,
    RemoveJournal,
}

/// What comes next.
#[derive(Clone, Debug, PartialEq, Eq)]
pub enum RecoverNext {
    Continue(RecoverStep),
    Recovered,
    Failed(String),
}

impl RecoverStep {
    /// The first step of a recovery.
    pub fn begin(recovery: Recovery) -> (r: RecoverStep)
        ensures
            r == match recovery {
                Recovery::VerifyAndRefresh => RecoverStep::VerifyFiles,
                Recovery::RollBackAndRestore => RecoverStep::UndoFiles,
            },
    {
        match recovery {
            Recovery::VerifyAndRefresh => RecoverStep::VerifyFiles,
            Recovery::RollBackAndRestore => RecoverStep::UndoFiles,
        }
    }

    /// What comes next.
    pub open spec fn next(self, end: StepEnd) -> RecoverNext {
        match end {
            StepEnd::Failed(e) => RecoverNext::Failed(e),
            StepEnd::Done => match self {
                RecoverStep::VerifyFiles => RecoverNext::Continue(RecoverStep::RefreshUnits),
                RecoverStep::UndoFiles => RecoverNext::Continue(RecoverStep::RestoreUnits),
                RecoverStep::RefreshUnits => RecoverNext::Continue(RecoverStep::CleanStaging),
                RecoverStep::RestoreUnits => RecoverNext::Continue(RecoverStep::CleanStaging),
                RecoverStep::CleanStaging => RecoverNext::Continue(RecoverStep::RemoveJournal),
                RecoverStep::RemoveJournal => RecoverNext::Recovered,
            },
        }
    }

    /// Decides what comes next.
    pub fn advance(self, end: StepEnd) -> (r: RecoverNext)
        ensures
            r == self.next(end),
    {
        if let StepEnd::Failed(e) = end {
            return RecoverNext::Failed(e);
        }
        RecoverNext::Continue(
            match self {
                RecoverStep::VerifyFiles => RecoverStep::RefreshUnits,
                RecoverStep::UndoFiles => RecoverStep::RestoreUnits,
                RecoverStep::RefreshUnits => RecoverStep::CleanStaging,
                RecoverStep::RestoreUnits => RecoverStep::CleanStaging,
                RecoverStep::CleanStaging => RecoverStep::RemoveJournal,
                RecoverStep::RemoveJournal => return RecoverNext::Recovered,
            },
        )
    }
}

/// A recovery that did not come to its end keeps the journal: the journal is
/// removed only after the files and the units are settled and the staged files
/// are gone, and it is the last thing that is removed.
pub proof fn law_the_journal_goes_last(step: RecoverStep, end: StepEnd)
    ensures
        step.next(end) matches RecoverNext::Continue(after) ==> {
            &&& after is RemoveJournal ==> step is CleanStaging && end is Done
            &&& after is CleanStaging ==> end is Done && (step is RefreshUnits
                || step is RestoreUnits)
            &&& after is RefreshUnits ==> end is Done && step is VerifyFiles
            &&& after is RestoreUnits ==> end is Done && step is UndoFiles
        },
        step.next(end) is Recovered ==> step is RemoveJournal && end is Done,
        end is Failed ==> step.next(end) is Failed,
{
}

// ---------------------------------------------------------------------------
// Undoing
// ---------------------------------------------------------------------------

/// One step of undoing a transaction, with what undoing the files came to once
/// that is known.
#[derive(Clone, Debug, PartialEq, Eq)]
pub enum UndoStep {
    UndoFiles,
    RestoreUnits { files: StepEnd },
    CleanStaging,
    RemoveJournal,
}

/// What comes next.
#[derive(Debug, PartialEq, Eq)]
pub enum UndoNext {
    Continue(UndoStep),
    Undone,
    Stopped(UndoOutcome),
    Failed(String),
}

/// The result that an end stands for.
pub open spec fn end_result(end: StepEnd) -> Result<(), String> {
    match end {
        StepEnd::Done => Ok(()),
        StepEnd::Failed(e) => Err(e),
    }
}

fn to_result(end: StepEnd) -> (r: Result<(), String>)
    ensures
        r == end_result(end),
{
    match end {
        StepEnd::Done => Ok(()),
        StepEnd::Failed(e) => Err(e),
    }
}

impl UndoStep {
    /// What comes next. The units are restored whatever undoing the files came
    /// to; what was staged and the journal are removed only where both succeeded.
    pub open spec fn next(self, end: StepEnd) -> UndoNext {
        match self {
            UndoStep::UndoFiles => UndoNext::Continue(UndoStep::RestoreUnits { files: end }),
            UndoStep::RestoreUnits { files } => match (end_result(files), end_result(end)) {
                (Ok(_), Ok(_)) => UndoNext::Continue(UndoStep::CleanStaging),
                (Err(f), Ok(_)) => UndoNext::Stopped(UndoOutcome::FilesFailed(f)),
                (Ok(_), Err(u)) => UndoNext::Stopped(UndoOutcome::UnitsFailed(u)),
                (Err(f), Err(u)) => UndoNext::Stopped(
                    UndoOutcome::BothFailed { files: f, units: u },
                ),
            },
            UndoStep::CleanStaging => match end {
                StepEnd::Done => UndoNext::Continue(UndoStep::RemoveJournal),
                StepEnd::Failed(e) => UndoNext::Failed(e),
            },
            UndoStep::RemoveJournal => match end {
                StepEnd::Done => UndoNext::Undone,
                StepEnd::Failed(e) => UndoNext::Failed(e),
            },
        }
    }

    /// Decides what comes next.
    pub fn advance(self, end: StepEnd) -> (r: UndoNext)
        ensures
            r == self.next(end),
    {
        match self {
            UndoStep::UndoFiles => UndoNext::Continue(UndoStep::RestoreUnits { files: end }),
            UndoStep::RestoreUnits { files } => match undo_outcome(
                to_result(files),
                to_result(end),
            ) {
                UndoOutcome::Undone => UndoNext::Continue(UndoStep::CleanStaging),
                outcome => UndoNext::Stopped(outcome),
            },
            UndoStep::CleanStaging => match end {
                StepEnd::Done => UndoNext::Continue(UndoStep::RemoveJournal),
                StepEnd::Failed(e) => UndoNext::Failed(e),
            },
            UndoStep::RemoveJournal => match end {
                StepEnd::Done => UndoNext::Undone,
                StepEnd::Failed(e) => UndoNext::Failed(e),
            },
        }
    }
}

/// Units are restored also where the files could not be undone, and then the
/// journal stays for a later recovery.
pub proof fn law_a_partial_undo_keeps_the_journal(files: StepEnd, units: StepEnd)
    ensures
        UndoStep::UndoFiles.next(files) == UndoNext::Continue(UndoStep::RestoreUnits { files }),
        (UndoStep::RestoreUnits { files }).next(units) is Continue <==> files is Done
            && units is Done,
        files is Failed || units is Failed ==> (UndoStep::RestoreUnits { files }).next(
            units,
        ) is Stopped,
{
}

// ---------------------------------------------------------------------------
// Repairing
// ---------------------------------------------------------------------------

/// One step of a repair.
#[derive(Clone, Copy, Debug, PartialEq, Eq, Structural)]
pub enum RepairStep {
    RecoverInstallation,
    RecoverUninstallation,
    Inspect(usize),
    Repair { file: usize, action: RepairAction },
    Refresh,
}

/// How a step of a repair ended, with what an inspection saw.
#[derive(Clone, Debug, PartialEq, Eq)]
pub enum RepairEvent {
    Done,
    Seen(RepairFacts),
    Failed(String),
}

/// A repair under way: its step, and whether it has changed a file.
#[derive(Clone, Copy, Debug, PartialEq, Eq, Structural)]
pub struct RepairProgress {
    pub step: RepairStep,
    pub changed: bool,
}

/// What comes next.
#[derive(Debug, PartialEq, Eq)]
pub enum RepairNext {
    Continue(RepairProgress),
    Repaired(RepairOutcome),
    Refused(InstallationError),
    Failed(String),
}

/// The step that inspects a file, or the one behind the last file.
pub open spec fn inspection(i: int, count: int) -> RepairStep {
    if i < count {
        RepairStep::Inspect(i as usize)
    } else {
        RepairStep::Refresh
    }
}

impl RepairProgress {
    /// A repair that has done nothing yet. An installation that was interrupted
    /// is recovered first.
    pub fn begin(journal_exists: bool) -> (r: RepairProgress)
        ensures
            r.step == if journal_exists {
                RepairStep::RecoverInstallation
            } else {
                RepairStep::RecoverUninstallation
            },
            !r.changed,
    {
        let step = if journal_exists {
            RepairStep::RecoverInstallation
        } else {
            RepairStep::RecoverUninstallation
        };
        RepairProgress { step, changed: false }
    }

    /// Whether the state is one of a repair of so many files.
    pub open spec fn sound(self, count: int) -> bool {
        match self.step {
            RepairStep::Inspect(i) => i < count,
            RepairStep::Repair { file, .. } => file < count,
            _ => true,
        }
    }

    /// Whether an event is one that the step can have.
    pub open spec fn expects(self, event: RepairEvent) -> bool {
        event is Failed || (event is Seen <==> self.step is Inspect)
    }

    /// Whether a next state is what an event leads to.
    pub open spec fn leads_to(
        self,
        files: Seq<ManagedFile>,
        event: RepairEvent,
        next: RepairNext,
    ) -> bool {
        let count = files.len() as int;
        match event {
            RepairEvent::Failed(e) => next == RepairNext::Failed(e),
            RepairEvent::Seen(facts) => match self.step {
                RepairStep::Inspect(i) => match repair_plan(files[i as int], facts) {
                    Ok(RepairAction::Keep) => next == RepairNext::Continue(
                        RepairProgress { step: inspection(i + 1, count), ..self },
                    ),
                    Ok(action) => next == RepairNext::Continue(
                        RepairProgress { step: RepairStep::Repair { file: i, action }, ..self },
                    ),
                    Err(fault) => next matches RepairNext::Refused(e) && e.fault == fault && e.path@
                        == files[i as int]@.destination(),
                },
                _ => true,
            },
            RepairEvent::Done => match self.step {
                RepairStep::RecoverInstallation => next == RepairNext::Continue(
                    RepairProgress { step: RepairStep::RecoverUninstallation, ..self },
                ),
                RepairStep::RecoverUninstallation => next == RepairNext::Continue(
                    RepairProgress { step: inspection(0, count), ..self },
                ),
                RepairStep::Inspect(_) => true,
                RepairStep::Repair { file, .. } => next == RepairNext::Continue(
                    RepairProgress { step: inspection(file + 1, count), changed: true },
                ),
                RepairStep::Refresh => next matches RepairNext::Repaired(outcome)
                    && outcome.changed == self.changed && outcome.detail@ == repair_detail(
                    self.changed,
                ),
            },
        }
    }

    /// Decides what comes next in a repair of files.
    pub fn advance(self, files: &Vec<ManagedFile>, event: RepairEvent) -> (next: RepairNext)
        requires
            self.sound(files@.len() as int),
            self.expects(event),
        ensures
            self.leads_to(files@, event, next),
            next matches RepairNext::Continue(after) ==> after.sound(files@.len() as int),
    {
        let count: usize = files.len();
        match event {
            RepairEvent::Failed(e) => RepairNext::Failed(e),
            RepairEvent::Seen(facts) => match self.step {
                RepairStep::Inspect(i) => match repair_file(&files[i], &facts) {
                    Ok(RepairAction::Keep) => RepairNext::Continue(
                        RepairProgress {
                            step: after_file(i, count),
                            changed: self.changed,
                        },
                    ),
                    Ok(action) => RepairNext::Continue(
                        RepairProgress {
                            step: RepairStep::Repair { file: i, action },
                            changed: self.changed,
                        },
                    ),
                    Err(e) => RepairNext::Refused(e),
                },
                step => RepairNext::Continue(RepairProgress { step, changed: self.changed }),
            },
            RepairEvent::Done => match self.step {
                RepairStep::RecoverInstallation => RepairNext::Continue(
                    RepairProgress {
                        step: RepairStep::RecoverUninstallation,
                        changed: self.changed,
                    },
                ),
                RepairStep::RecoverUninstallation => {
                    let step = if count > 0 {
                        RepairStep::Inspect(0)
                    } else {
                        RepairStep::Refresh
                    };
                    RepairNext::Continue(RepairProgress { step, changed: self.changed })
                },
                RepairStep::Repair { file, .. } => RepairNext::Continue(
                    RepairProgress { step: after_file(file, count), changed: true },
                ),
                RepairStep::Refresh => RepairNext::Repaired(repair_outcome(self.changed)),
                step => RepairNext::Continue(RepairProgress { step, changed: self.changed }),
            },
        }
    }
}

fn after_file(i: usize, count: usize) -> (r: RepairStep)
    requires
        i < count,
    ensures
        r == inspection(i + 1, count as int),
{
    if i + 1 < count {
        RepairStep::Inspect(i + 1)
    } else {
        RepairStep::Refresh
    }
}

/// The state of a repair behind its first events, where it has not ended.
pub open spec fn repaired_by(
    files: Seq<ManagedFile>,
    states: Seq<RepairProgress>,
    events: Seq<RepairEvent>,
) -> bool {
    &&& states.len() == events.len() + 1
    &&& forall|i: int|
        0 <= i < events.len() ==> states[i].sound(files.len() as int) && (
        #[trigger] states[i]).expects(events[i]) && states[i].leads_to(
            files,
            events[i],
            RepairNext::Continue(states[i + 1]),
        )
}

/// A repair reports a change exactly where it repaired a file: it counts as
/// changed once one of its steps was a repair that was done.
pub proof fn law_a_repair_reports_its_changes(
    files: Seq<ManagedFile>,
    states: Seq<RepairProgress>,
    events: Seq<RepairEvent>,
)
    requires
        repaired_by(files, states, events),
        !states[0].changed,
    ensures
        states.last().changed <==> exists|i: int|
            0 <= i < events.len() && (#[trigger] states[i]).step is Repair,
    decreases events.len(),
{
    let n = events.len() as int;
    if n > 0 {
        let s = states.drop_last();
        let e = events.drop_last();
        assert forall|i: int| 0 <= i < e.len() implies s[i].sound(files.len() as int) && (
        #[trigger] s[i]).expects(e[i]) && s[i].leads_to(
            files,
            e[i],
            RepairNext::Continue(s[i + 1]),
        ) by {
            assert(states[i].expects(events[i]));
        }
        law_a_repair_reports_its_changes(files, s, e);
        let last = states[n - 1];
        assert(s.last() == last);
        assert(last.expects(events[n - 1]));
        assert(states.last() == states[n]);
        if exists|i: int| 0 <= i < n - 1 && (#[trigger] s[i]).step is Repair {
            let i = choose|i: int| 0 <= i < n - 1 && (#[trigger] s[i]).step is Repair;
            assert(states[i].step is Repair);
        }
        if exists|i: int| 0 <= i < n && (#[trigger] states[i]).step is Repair {
            let i = choose|i: int| 0 <= i < n && (#[trigger] states[i]).step is Repair;
            if i < n - 1 {
                assert(s[i].step is Repair);
            }
        }
    }
}

/// Binaries are never written by a repair: their mode is set at most.
pub proof fn law_binaries_are_never_rewritten(
    progress: RepairProgress,
    files: Seq<ManagedFile>,
    event: RepairEvent,
    next: RepairNext,
)
    requires
        progress.sound(files.len() as int),
        progress.expects(event),
        progress.leads_to(files, event, next),
        event is Seen,
        next matches RepairNext::Continue(after) && after.step is Repair,
    ensures
        ({
            let step = next->Continue_0.step;
            files[step->file as int] is Binary ==> step->action is SetMode
        }),
{
}

} // verus!
