//! Installations and uninstallations under way: what may be done in which
//! state, and how a repair looks at the files of a product.

use vstd::prelude::*;

use super::installation::{
    follows_plan, FileFacts, FileStep, InstallationError, InstallationFault,
};
use super::journal::{
    InstallationJournal, InstallationRecord, JournalError, JournalKind, UninstallationJournal,
    UninstallationRecord,
};
use super::manifest::{ManagedFile, ManagedFileView};
use super::product::ManagedProduct;
use super::protocol::RepairOutcome;
use crate::text;
use crate::text::texts;
use crate::unix_path;
use crate::unix_path::{path, PathView};

verus! {

/// Why an installation cannot do what is asked of it.
#[derive(Clone, Copy, Debug, PartialEq, Eq, Structural)]
pub enum TransactionError {
    ActivateUncommitted,
    RollBackAccepted,
    FinalizeUncommitted,
    RemoveBeforeDeactivation,
    FinalizeIncomplete,
}

impl TransactionError {
    /// The words for the error.
    pub open spec fn words(self) -> Seq<char> {
        match self {
            TransactionError::ActivateUncommitted =>
                "cannot activate an uncommitted Capulus installation"@,
            TransactionError::RollBackAccepted =>
                "cannot roll back an accepted Capulus installation"@,
            TransactionError::FinalizeUncommitted =>
                "cannot finalize an uncommitted Capulus installation"@,
            TransactionError::RemoveBeforeDeactivation =>
                "cannot remove managed files before deactivating their systemd units"@,
            TransactionError::FinalizeIncomplete =>
                "cannot finalize an incomplete managed uninstall"@,
        }
    }

    /// The words for the error.
    pub fn message(&self) -> (r: &'static str)
        ensures
            r@ == self.words(),
    {
        match self {
            TransactionError::ActivateUncommitted =>
                "cannot activate an uncommitted Capulus installation",
            TransactionError::RollBackAccepted =>
                "cannot roll back an accepted Capulus installation",
            TransactionError::FinalizeUncommitted =>
                "cannot finalize an uncommitted Capulus installation",
            TransactionError::RemoveBeforeDeactivation =>
                "cannot remove managed files before deactivating their systemd units",
            TransactionError::FinalizeIncomplete =>
                "cannot finalize an incomplete managed uninstall",
        }
    }
}

/// What undoing a transaction came to.
#[derive(Debug, PartialEq, Eq)]
pub enum UndoOutcome {
    Undone,
    FilesFailed(String),
    UnitsFailed(String),
    BothFailed { files: String, units: String },
}

/// What undoing the files and restoring the units came to together.
pub fn undo_outcome(files: Result<(), String>, units: Result<(), String>) -> (r: UndoOutcome)
    ensures
        r == match (files, units) {
            (Ok(_), Ok(_)) => UndoOutcome::Undone,
            (Err(f), Ok(_)) => UndoOutcome::FilesFailed(f),
            (Ok(_), Err(u)) => UndoOutcome::UnitsFailed(u),
            (Err(f), Err(u)) => UndoOutcome::BothFailed { files: f, units: u },
        },
{
    match (files, units) {
        (Ok(_), Ok(_)) => UndoOutcome::Undone,
        (Err(f), Ok(_)) => UndoOutcome::FilesFailed(f),
        (Ok(_), Err(u)) => UndoOutcome::UnitsFailed(u),
        (Err(f), Err(u)) => UndoOutcome::BothFailed { files: f, units: u },
    }
}

impl UndoOutcome {
    /// The words for what failed, where something did.
    pub open spec fn words(self, kind: JournalKind) -> Option<Seq<char>> {
        match self {
            UndoOutcome::Undone => None,
            UndoOutcome::FilesFailed(f) => Some(f@),
            UndoOutcome::UnitsFailed(u) => Some(u@),
            UndoOutcome::BothFailed { files, units } => Some(
                match kind {
                    JournalKind::Installation => "filesystem rollback failed: "@,
                    JournalKind::Uninstallation => "uninstall filesystem rollback failed: "@,
                } + files@ + "; systemd restoration failed: "@ + units@,
            ),
        }
    }

    /// The words for what failed, where something did.
    pub fn message(&self, kind: JournalKind) -> (r: Option<String>)
        ensures
            text::opt(r) == self.words(kind),
    {
        match self {
            UndoOutcome::Undone => None,
            UndoOutcome::FilesFailed(f) => Some(f.clone()),
            UndoOutcome::UnitsFailed(u) => Some(u.clone()),
            UndoOutcome::BothFailed { files, units } => {
                let start = match kind {
                    JournalKind::Installation => "filesystem rollback failed: ".to_owned(),
                    JournalKind::Uninstallation =>
                        "uninstall filesystem rollback failed: ".to_owned(),
                };
                Some(
                    start.concat(files.as_str()).concat("; systemd restoration failed: ").concat(
                        units.as_str(),
                    ),
                )
            },
        }
    }
}

/// An installation under way: its journal, and whether every file is committed.
#[derive(Debug, PartialEq, Eq)]
pub struct SystemInstallation {
    journal: InstallationJournal,
    files_committed: bool,
}

impl SystemInstallation {
    /// Files count as committed only when every record is, and an installation
    /// is accepted only when its files are committed.
    #[verifier::type_invariant]
    pub closed spec fn consistent(self) -> bool {
        &&& self.journal.committed_records <= self.journal.records@.len()
        &&& self.files_committed ==> self.journal.committed_records == self.journal.records@.len()
        &&& self.journal.accepted ==> self.files_committed
    }

    pub closed spec fn view(self) -> InstallationJournal {
        self.journal
    }

    /// Whether every file is committed, on disk and in the journal there, and
    /// none was rolled back.
    pub closed spec fn committed(self) -> bool {
        self.files_committed
    }

    /// An installation that starts from a planned journal.
    pub fn new(journal: InstallationJournal) -> (r: SystemInstallation)
        requires
            journal.committed_records == 0,
            !journal.accepted,
        ensures
            r@ == journal,
            !r.committed(),
    {
        SystemInstallation { journal, files_committed: false }
    }

    /// The journal as it is to be kept on disk.
    pub fn journal(&self) -> (r: &InstallationJournal)
        ensures
            *r == self@,
            self@.committed_records <= self@.records@.len(),
    {
        proof {
            use_type_invariant(self);
        }
        &self.journal
    }

    /// Checks the next file and gives the steps that commit it; `None` once
    /// every file is committed.
    pub fn commit_next(&self, facts: &FileFacts) -> (r: Option<
        Result<Vec<FileStep>, InstallationError>,
    >)
        ensures
            match r {
                None => self@.committed_records == self@.records@.len(),
                Some(result) => self@.committed_records < self@.records@.len() && {
                    let record = self@.records@[self@.committed_records as int];
                    follows_plan(
                        result,
                        match record.commit_check(facts@) {
                            Some(fault) => Err(fault),
                            None => Ok(record.commit_steps()),
                        },
                        record.destination,
                    )
                },
            },
    {
        proof {
            use_type_invariant(self);
        }
        if self.journal.committed_records == self.journal.records.len() {
            return None;
        }
        Some(self.journal.records[self.journal.committed_records].commit(facts))
    }

    /// Notes that the steps of the next file were done. The files do not count
    /// as committed before the journal that says so is on disk.
    pub fn note_committed(&mut self)
        requires
            old(self)@.committed_records < old(self)@.records@.len(),
        ensures
            final(self)@ == (InstallationJournal {
                committed_records: (old(self)@.committed_records + 1) as usize,
                ..old(self)@
            }),
            !final(self).committed(),
    {
        proof {
            use_type_invariant(&*self);
        }
        let total: usize = self.journal.records.len();
        assert(self.journal.committed_records < total);
        self.journal.committed_records = self.journal.committed_records + 1;
    }

    /// Notes that the journal was written to disk with every file committed in
    /// it.
    pub fn note_files_committed(&mut self)
        requires
            old(self)@.committed_records == old(self)@.records@.len(),
        ensures
            final(self)@ == old(self)@,
            final(self).committed(),
    {
        proof {
            use_type_invariant(&*self);
        }
        self.files_committed = true;
    }

    /// Whether the units may be activated.
    pub fn check_activation(&self) -> (r: Result<(), TransactionError>)
        ensures
            r == if self.committed() {
                Ok::<(), TransactionError>(())
            } else {
                Err::<(), TransactionError>(TransactionError::ActivateUncommitted)
            },
    {
        if !self.files_committed {
            return Err(TransactionError::ActivateUncommitted);
        }
        Ok(())
    }

    /// Whether the installation may be rolled back.
    pub fn check_rollback(&self) -> (r: Result<(), TransactionError>)
        ensures
            r == if self@.accepted {
                Err::<(), TransactionError>(TransactionError::RollBackAccepted)
            } else {
                Ok::<(), TransactionError>(())
            },
    {
        if self.journal.accepted {
            return Err(TransactionError::RollBackAccepted);
        }
        Ok(())
    }

    /// Notes that the files were rolled back.
    pub fn note_rolled_back(&mut self)
        requires
            !old(self)@.accepted,
        ensures
            final(self)@ == old(self)@,
            !final(self).committed(),
    {
        proof {
            use_type_invariant(&*self);
        }
        self.files_committed = false;
    }

    /// Accepts the installation: from here on it is never rolled back.
    pub fn accept(&mut self) -> (r: Result<(), TransactionError>)
        ensures
            r is Ok <==> old(self).committed(),
            r is Ok ==> final(self)@ == (InstallationJournal { accepted: true, ..old(self)@ }),
            r is Ok ==> final(self).committed(),
            r matches Err(e) ==> e is FinalizeUncommitted && *final(self) == *old(self),
    {
        proof {
            use_type_invariant(&*self);
        }
        if !self.files_committed {
            return Err(TransactionError::FinalizeUncommitted);
        }
        self.journal.accepted = true;
        Ok(())
    }

    /// Whether every file is committed.
    pub fn files_committed(&self) -> (r: bool)
        ensures
            r == self.committed(),
    {
        self.files_committed
    }

    /// Whether the installation was accepted.
    pub fn acceptance_committed(&self) -> (r: bool)
        ensures
            r == self@.accepted,
    {
        self.journal.accepted
    }
}

/// What recovering an interrupted installation takes.
#[derive(Clone, Copy, Debug, PartialEq, Eq, Structural)]
pub enum Recovery {
    VerifyAndRefresh,
    RollBackAndRestore,
}

impl InstallationJournal {
    /// What recovering takes: an accepted installation is kept, any other
    /// undone. A journal that cannot be trusted is refused.
    pub fn recovery(&self, product: &str) -> (r: Result<Recovery, JournalError>)
        ensures
            r is Ok <==> self.trusted(product@),
            r matches Ok(recovery) ==> recovery == if self.accepted {
                Recovery::VerifyAndRefresh
            } else {
                Recovery::RollBackAndRestore
            },
            r matches Err(e) ==> self.fault(product@, e),
    {
        self.validate(product)?;
        if self.accepted {
            Ok(Recovery::VerifyAndRefresh)
        } else {
            Ok(Recovery::RollBackAndRestore)
        }
    }

    /// The order in which the records are rolled back: the last one first.
    pub fn rollback_order(&self) -> (r: Result<Vec<usize>, JournalError>)
        ensures
            r is Ok <==> self.trusted(self.product@),
            r matches Ok(order) ==> order@ == Seq::new(
                self.records@.len(),
                |i: int| (self.records@.len() - 1 - i) as usize,
            ),
            r matches Err(e) ==> self.fault(self.product@, e),
    {
        self.validate(self.product.as_str())?;
        Ok(reverse_order(self.records.len()))
    }

    /// The unit files that the installation writes, in the order of its records.
    pub fn committed_unit_paths(&self) -> (out: Vec<String>)
        ensures
            texts(out@) == unit_files_written(self.records@),
    {
        let mut out: Vec<String> = Vec::new();
        let mut i: usize = 0;
        assert(texts(out@) =~= unit_files_written(self.records@.take(0)));
        while i < self.records.len()
            invariant
                i <= self.records@.len(),
                texts(out@) == unit_files_written(self.records@.take(i as int)),
            decreases self.records@.len() - i,
        {
            let record = &self.records[i];
            let ghost before = texts(out@);
            assert(self.records@.take(i + 1).drop_last() =~= self.records@.take(i as int));
            if unix_path::parent_is(record.destination.as_str(), "/etc/systemd/system")
                && record.new_digest.is_some() {
                out.push(record.destination.clone());
                assert(texts(out@) =~= before.push(record.destination@));
            }
            i = i + 1;
        }
        assert(self.records@.take(i as int) =~= self.records@);
        out
    }

    /// The staging directories of the installation, each once.
    pub fn staging_roots(&self) -> (r: Vec<String>)
        requires
            forall|i: int|
                0 <= i < self.records@.len() ==> absolute_below(
                    (#[trigger] self.records@[i]).staged@,
                ),
        ensures
            roots_of(r@).no_duplicates(),
            roots_of(r@).to_set() == self.records@.map_values(
                |r: InstallationRecord| grandparent(path(r.staged@)),
            ).to_set(),
    {
        let ghost all = self.records@.map_values(
            |r: InstallationRecord| grandparent(path(r.staged@)),
        );
        let mut out: Vec<String> = Vec::new();
        let mut i: usize = 0;
        assert(roots_of(out@).to_set() =~= all.take(0).to_set());
        while i < self.records.len()
            invariant
                i <= self.records@.len(),
                all == self.records@.map_values(
                    |r: InstallationRecord| grandparent(path(r.staged@)),
                ),
                roots_of(out@).no_duplicates(),
                roots_of(out@).to_set() == all.take(i as int).to_set(),
            decreases self.records@.len() - i,
        {
            add_root(&mut out, self.records[i].staged.as_str());
            proof {
                lemma_take_set(all, i as int);
            }
            assert(roots_of(out@).to_set() =~= all.take(i + 1).to_set());
            i = i + 1;
        }
        assert(all.take(i as int) =~= all);
        out
    }
}

impl UninstallationJournal {
    /// The staging directories of the uninstallation, each once.
    pub fn staging_roots(&self) -> (r: Vec<String>)
        requires
            forall|i: int|
                0 <= i < self.records@.len() ==> absolute_below(
                    (#[trigger] self.records@[i]).backup@,
                ),
        ensures
            roots_of(r@).no_duplicates(),
            roots_of(r@).to_set() == self.records@.map_values(
                |r: UninstallationRecord| grandparent(path(r.backup@)),
            ).to_set(),
    {
        let ghost all = self.records@.map_values(
            |r: UninstallationRecord| grandparent(path(r.backup@)),
        );
        let mut out: Vec<String> = Vec::new();
        let mut i: usize = 0;
        assert(roots_of(out@).to_set() =~= all.take(0).to_set());
        while i < self.records.len()
            invariant
                i <= self.records@.len(),
                all == self.records@.map_values(
                    |r: UninstallationRecord| grandparent(path(r.backup@)),
                ),
                roots_of(out@).no_duplicates(),
                roots_of(out@).to_set() == all.take(i as int).to_set(),
            decreases self.records@.len() - i,
        {
            add_root(&mut out, self.records[i].backup.as_str());
            proof {
                lemma_take_set(all, i as int);
            }
            assert(roots_of(out@).to_set() =~= all.take(i + 1).to_set());
            i = i + 1;
        }
        assert(all.take(i as int) =~= all);
        out
    }

    /// What recovering takes: a committed removal is kept, any other undone. A
    /// journal that cannot be trusted is refused.
    pub fn recovery(&self, product: &ManagedProduct) -> (r: Result<Recovery, JournalError>)
        ensures
            r is Ok <==> self.trusted(product@),
            r matches Ok(recovery) ==> recovery == if self.removal_committed {
                Recovery::VerifyAndRefresh
            } else {
                Recovery::RollBackAndRestore
            },
            r matches Err(e) ==> self.fault(product@, e),
    {
        self.validate(product)?;
        if self.removal_committed {
            Ok(Recovery::VerifyAndRefresh)
        } else {
            Ok(Recovery::RollBackAndRestore)
        }
    }

    /// The order in which the records are restored: the last one first.
    pub fn restore_order(&self) -> (order: Vec<usize>)
        ensures
            order@ == Seq::new(
                self.records@.len(),
                |i: int| (self.records@.len() - 1 - i) as usize,
            ),
    {
        reverse_order(self.records.len())
    }
}

/// One more element of a sequence is one more element of its set.
proof fn lemma_take_set(all: Seq<PathView>, i: int)
    requires
        0 <= i < all.len(),
    ensures
        all.take(i + 1).to_set() == all.take(i).to_set().insert(all[i]),
{
    assert(all.take(i + 1) =~= all.take(i).push(all[i]));
    all.take(i).lemma_push_to_set_commute(all[i]);
}

/// The paths that texts name.
pub open spec fn roots_of(list: Seq<String>) -> Seq<PathView> {
    list.map_values(|s: String| path(s@))
}

/// The path without its last two parts.
pub open spec fn grandparent(p: PathView) -> PathView {
    without_last(p, 2)
}

/// Whether a text names an absolute path with at least two parts.
pub open spec fn absolute_below(p: Seq<char>) -> bool {
    path(p).absolute && path(p).parts.len() >= 2
}

/// The path without its last parts.
pub open spec fn without_last(p: PathView, n: int) -> PathView {
    PathView { absolute: p.absolute, parts: p.parts.take(p.parts.len() - n) }
}

fn ancestor_text(p: &str, n: usize) -> (out: String)
    requires
        absolute_below(p@),
        n <= 2,
    ensures
        path(out@) == without_last(path(p@), n as int),
{
    let mut list = unix_path::parts(p);
    let ghost all = texts(list@);
    let count: usize = list.len();
    list.truncate(count - n);
    assert(texts(list@) =~= all.take(count - n));
    proof {
        assert forall|i: int| 0 <= i < texts(list@).len() implies unix_path::is_part(
            #[trigger] texts(list@)[i],
        ) by {
            unix_path::lemma_parts_are_parts(p@, i);
        }
        unix_path::lemma_rendered(texts(list@));
    }
    unix_path::render(&list)
}

fn add_root(out: &mut Vec<String>, p: &str)
    requires
        absolute_below(p@),
        roots_of(old(out)@).no_duplicates(),
    ensures
        roots_of(final(out)@).no_duplicates(),
        roots_of(final(out)@).to_set() == roots_of(old(out)@).to_set().insert(
            grandparent(path(p@)),
        ),
{
    let root = ancestor_text(p, 2);
    let ghost before = roots_of(out@);
    let ghost g = grandparent(path(p@));
    let mut i: usize = 0;
    while i < out.len()
        invariant
            i <= out@.len(),
            before == roots_of(out@),
            forall|k: int| 0 <= k < i ==> #[trigger] before[k] != g,
        decreases out@.len() - i,
    {
        assert(before[i as int] == path(out@[i as int]@));
        if unix_path::same_path(out[i].as_str(), root.as_str()) {
            assert(before.to_set().contains(before[i as int]));
            assert(before.to_set() =~= before.to_set().insert(g));
            return;
        }
        i = i + 1;
    }
    out.push(root);
    assert(roots_of(out@) =~= before.push(g));
    proof {
        let all = roots_of(out@);
        lemma_take_set(all, before.len() as int);
        assert(all.take(before.len() as int) =~= before);
        assert(all.take(all.len() as int) =~= all);
    }
}

/// One step of staging a file.
#[derive(Clone, Debug, PartialEq, Eq)]
#[allow(inconsistent_fields)]
pub enum StageStep {
    EnsureDirectory { directory: String },
    CopyArtifact { source_name: String, to: String, mode: u32 },
    WriteText { contents: String, to: String, mode: u32 },
    CheckDigest { file: String },
    SyncParent { file: String },
}

/// What a staging step says.
#[verifier::ext_equal]
pub ghost enum StageStepView {
    EnsureDirectory { directory: PathView },
    CopyArtifact { source_name: Seq<char>, to: PathView, mode: u32 },
    WriteText { contents: Seq<char>, to: PathView, mode: u32 },
    CheckDigest { file: PathView },
    SyncParent { file: PathView },
}

impl StageStep {
    pub open spec fn view(self) -> StageStepView {
        match self {
            StageStep::EnsureDirectory { directory } => StageStepView::EnsureDirectory {
                directory: path(directory@),
            },
            StageStep::CopyArtifact { source_name, to, mode } => StageStepView::CopyArtifact {
                source_name: source_name@,
                to: path(to@),
                mode,
            },
            StageStep::WriteText { contents, to, mode } => StageStepView::WriteText {
                contents: contents@,
                to: path(to@),
                mode,
            },
            StageStep::CheckDigest { file } => StageStepView::CheckDigest { file: path(file@) },
            StageStep::SyncParent { file } => StageStepView::SyncParent { file: path(file@) },
        }
    }
}

/// What staging steps say.
pub open spec fn stage_views(steps: Seq<StageStep>) -> Seq<StageStepView> {
    steps.map_values(|s: StageStep| s@)
}

/// The steps that stage a record: its directories are made; where a file is to
/// be installed, its replacement is put in place, compared with the digest of
/// the record, and made durable.
pub open spec fn stage_plan(
    record: InstallationRecord,
    managed: Option<ManagedFileView>,
) -> Seq<StageStepView> {
    let staged = path(record.staged@);
    let directories = seq![
        StageStepView::EnsureDirectory { directory: without_last(staged, 2) },
        StageStepView::EnsureDirectory { directory: without_last(staged, 1) },
        StageStepView::EnsureDirectory { directory: without_last(path(record.backup@), 1) },
    ];
    let after = seq![
        StageStepView::CheckDigest { file: staged },
        StageStepView::SyncParent { file: staged },
    ];
    match managed {
        None => directories,
        Some(ManagedFileView::Binary { source_name, mode, .. }) => directories.push(
            StageStepView::CopyArtifact { source_name, to: staged, mode },
        ) + after,
        Some(ManagedFileView::Text { contents, mode, .. }) => directories.push(
            StageStepView::WriteText { contents, to: staged, mode },
        ) + after,
    }
}

impl InstallationRecord {
    /// The steps that stage the record.
    pub fn stage(&self, managed: Option<&ManagedFile>) -> (r: Vec<StageStep>)
        requires
            absolute_below(self.staged@),
            absolute_below(self.backup@),
        ensures
            stage_views(r@) == stage_plan(
                *self,
                match managed {
                    Some(file) => Some(file@),
                    None => None,
                },
            ),
    {
        let mut out: Vec<StageStep> = Vec::new();
        let root = ancestor_text(self.staged.as_str(), 2);
        out.push(StageStep::EnsureDirectory { directory: root });
        let new = ancestor_text(self.staged.as_str(), 1);
        out.push(StageStep::EnsureDirectory { directory: new });
        let kept = ancestor_text(self.backup.as_str(), 1);
        out.push(StageStep::EnsureDirectory { directory: kept });
        if let Some(file) = managed {
            match file {
                ManagedFile::Binary { source_name, mode, .. } => {
                    out.push(
                        StageStep::CopyArtifact {
                            source_name: source_name.clone(),
                            to: self.staged.clone(),
                            mode: *mode,
                        },
                    );
                },
                ManagedFile::Text { contents, mode, .. } => {
                    out.push(
                        StageStep::WriteText {
                            contents: contents.clone(),
                            to: self.staged.clone(),
                            mode: *mode,
                        },
                    );
                },
            }
            out.push(StageStep::CheckDigest { file: self.staged.clone() });
            out.push(StageStep::SyncParent { file: self.staged.clone() });
        }
        assert(stage_views(out@) =~= stage_plan(
            *self,
            match managed {
                Some(file) => Some(file@),
                None => None,
            },
        ));
        out
    }
}

/// The destinations of the records that write unit files.
pub open spec fn unit_files_written(records: Seq<InstallationRecord>) -> Seq<Seq<char>>
    decreases records.len(),
{
    if records.len() == 0 {
        Seq::empty()
    } else {
        let before = unit_files_written(records.drop_last());
        let r = records.last();
        if unix_path::parent(path(r.destination@)) == Some(path("/etc/systemd/system"@))
            && r.new_digest is Some {
            before.push(r.destination@)
        } else {
            before
        }
    }
}

/// The numbers below `count`, the greatest first.
pub fn reverse_order(count: usize) -> (order: Vec<usize>)
    ensures
        order@ == Seq::new(count as nat, |i: int| (count - 1 - i) as usize),
{
    let mut order: Vec<usize> = Vec::new();
    let mut left: usize = count;
    while left > 0
        invariant
            left <= count,
            order@ == Seq::new((count - left) as nat, |i: int| (count - 1 - i) as usize),
        decreases left,
    {
        left = left - 1;
        order.push(left);
        assert(order@ =~= Seq::new((count - left) as nat, |i: int| (count - 1 - i) as usize));
    }
    order
}

// ---------------------------------------------------------------------------
// Uninstallations
// ---------------------------------------------------------------------------

/// An uninstallation under way: its journal, and whether the units were
/// deactivated.
#[derive(Debug, PartialEq, Eq)]
pub struct SystemUninstallation {
    journal: UninstallationJournal,
    deactivated: bool,
}

impl SystemUninstallation {
    /// Files are removed only after the units were deactivated, and a removal
    /// is committed only when every file is removed.
    #[verifier::type_invariant]
    pub closed spec fn consistent(self) -> bool {
        &&& self.journal.committed_records <= self.journal.records@.len()
        &&& self.journal.committed_records > 0 ==> self.deactivated
        &&& self.journal.removal_committed ==> self.journal.committed_records
            == self.journal.records@.len()
    }

    pub closed spec fn view(self) -> UninstallationJournal {
        self.journal
    }

    /// Whether the units were deactivated.
    pub closed spec fn inactive(self) -> bool {
        self.deactivated
    }

    /// An uninstallation that starts from a planned journal.
    pub fn new(journal: UninstallationJournal) -> (r: SystemUninstallation)
        requires
            journal.committed_records == 0,
            !journal.removal_committed,
        ensures
            r@ == journal,
            !r.inactive(),
    {
        SystemUninstallation { journal, deactivated: false }
    }

    /// The journal as it is to be kept on disk.
    pub fn journal(&self) -> (r: &UninstallationJournal)
        ensures
            *r == self@,
            self@.committed_records <= self@.records@.len(),
    {
        proof {
            use_type_invariant(self);
        }
        &self.journal
    }

    /// Notes that the units were deactivated.
    pub fn note_deactivated(&mut self)
        ensures
            final(self)@ == old(self)@,
            final(self).inactive(),
    {
        proof {
            use_type_invariant(&*self);
        }
        self.deactivated = true;
    }

    /// Whether files may be removed.
    pub fn check_removal(&self) -> (r: Result<(), TransactionError>)
        ensures
            r == if self.inactive() {
                Ok::<(), TransactionError>(())
            } else {
                Err::<(), TransactionError>(TransactionError::RemoveBeforeDeactivation)
            },
    {
        if !self.deactivated {
            return Err(TransactionError::RemoveBeforeDeactivation);
        }
        Ok(())
    }

    /// Checks the next file and gives the steps that remove it; `None` once
    /// every file is removed.
    pub fn remove_next(&self, facts: &FileFacts) -> (r: Option<
        Result<Vec<FileStep>, InstallationError>,
    >)
        ensures
            match r {
                None => self@.committed_records == self@.records@.len(),
                Some(result) => self@.committed_records < self@.records@.len() && {
                    let record = self@.records@[self@.committed_records as int];
                    follows_plan(
                        result,
                        match record.removal_check(facts@) {
                            Some(fault) => Err(fault),
                            None => Ok(record.removal_steps()),
                        },
                        record.destination,
                    )
                },
            },
    {
        proof {
            use_type_invariant(self);
        }
        if self.journal.committed_records == self.journal.records.len() {
            return None;
        }
        Some(self.journal.records[self.journal.committed_records].remove(facts))
    }

    /// Notes that the steps of the next file were done.
    pub fn note_removed(&mut self)
        requires
            old(self).inactive(),
            old(self)@.committed_records < old(self)@.records@.len(),
        ensures
            final(self)@ == (UninstallationJournal {
                committed_records: (old(self)@.committed_records + 1) as usize,
                ..old(self)@
            }),
            final(self).inactive(),
    {
        proof {
            use_type_invariant(&*self);
        }
        let total: usize = self.journal.records.len();
        assert(self.journal.committed_records < total);
        self.journal.committed_records = self.journal.committed_records + 1;
    }

    /// Whether the removal may be committed.
    pub fn check_finalize(&self) -> (r: Result<(), TransactionError>)
        ensures
            r == if self@.committed_records == self@.records@.len() {
                Ok::<(), TransactionError>(())
            } else {
                Err::<(), TransactionError>(TransactionError::FinalizeIncomplete)
            },
    {
        if self.journal.committed_records != self.journal.records.len() {
            return Err(TransactionError::FinalizeIncomplete);
        }
        Ok(())
    }

    /// Commits the removal: from here on nothing is restored.
    pub fn commit_removal(&mut self)
        requires
            old(self)@.committed_records == old(self)@.records@.len(),
        ensures
            final(self)@ == (UninstallationJournal { removal_committed: true, ..old(self)@ }),
            final(self).inactive() == old(self).inactive(),
    {
        proof {
            use_type_invariant(&*self);
        }
        self.journal.removal_committed = true;
    }

    /// Whether the removal was committed.
    pub fn removal_committed(&self) -> (r: bool)
        ensures
            r == self@.removal_committed,
    {
        self.journal.removal_committed
    }
}

// ---------------------------------------------------------------------------
// Repair
// ---------------------------------------------------------------------------

/// What a repair found at a managed file: an entry of any kind, a regular file
/// owned by root, its nine permission bits, and its contents where they could
/// be read.
#[derive(Clone, Debug, PartialEq, Eq)]
pub struct RepairFacts {
    pub present: bool,
    pub installed: bool,
    pub mode: u32,
    pub contents: Option<Vec<u8>>,
}

/// What a repair does to a managed file.
#[derive(Clone, Copy, Debug, PartialEq, Eq, Structural)]
pub enum RepairAction {
    Keep,
    SetMode,
    Rewrite,
}

/// What a repair does to a managed file, or the fault that stops it. A binary
/// that is gone or not root's cannot be repaired; a unit file can be written
/// anew.
pub open spec fn repair_plan(file: ManagedFile, f: RepairFacts) -> Result<
    RepairAction,
    InstallationFault,
> {
    match file {
        ManagedFile::Binary { mode, .. } => if !f.present {
            Err(InstallationFault::BinaryMissing)
        } else if !f.installed {
            Err(InstallationFault::NotInstalledFile)
        } else if f.mode & 0o777 != mode {
            Ok(RepairAction::SetMode)
        } else {
            Ok(RepairAction::Keep)
        },
        ManagedFile::Text { contents, mode, .. } => if !f.present {
            Ok(RepairAction::Rewrite)
        } else if !f.installed {
            Err(InstallationFault::NotInstalledFile)
        } else if f.mode & 0o777 != mode {
            Ok(RepairAction::Rewrite)
        } else {
            match f.contents {
                None => Err(InstallationFault::Unreadable),
                Some(bytes) => if bytes@ == vstd::utf8::encode_utf8(contents@) {
                    Ok(RepairAction::Keep)
                } else {
                    Ok(RepairAction::Rewrite)
                },
            }
        },
    }
}

fn same_content(a: &Vec<u8>, b: &Vec<u8>) -> (r: bool)
    ensures
        r == (a@ == b@),
{
    if a.len() != b.len() {
        return false;
    }
    let mut i: usize = 0;
    while i < a.len()
        invariant
            i <= a@.len(),
            a@.len() == b@.len(),
            forall|k: int| 0 <= k < i ==> a@[k] == b@[k],
        decreases a@.len() - i,
    {
        if a[i] != b[i] {
            return false;
        }
        i = i + 1;
    }
    assert(a@ =~= b@);
    true
}

/// What a repair does to a managed file.
pub fn repair_file(file: &ManagedFile, facts: &RepairFacts) -> (r: Result<
    RepairAction,
    InstallationError,
>)
    ensures
        match repair_plan(*file, *facts) {
            Ok(action) => r == Ok::<RepairAction, InstallationError>(action),
            Err(fault) => r matches Err(e) && e.fault == fault && e.path@ == file@.destination(),
        },
{
    let fault = match file {
        ManagedFile::Binary { mode, .. } => if !facts.present {
            InstallationFault::BinaryMissing
        } else if !facts.installed {
            InstallationFault::NotInstalledFile
        } else if facts.mode & 0o777 != *mode {
            return Ok(RepairAction::SetMode);
        } else {
            return Ok(RepairAction::Keep);
        },
        ManagedFile::Text { contents, mode, .. } => if !facts.present {
            return Ok(RepairAction::Rewrite);
        } else if !facts.installed {
            InstallationFault::NotInstalledFile
        } else if facts.mode & 0o777 != *mode {
            return Ok(RepairAction::Rewrite);
        } else {
            match &facts.contents {
                None => InstallationFault::Unreadable,
                Some(bytes) => {
                    let expected = contents.as_str().as_bytes_vec();
                    if same_content(bytes, &expected) {
                        return Ok(RepairAction::Keep);
                    }
                    return Ok(RepairAction::Rewrite);
                },
            }
        },
    };
    Err(InstallationError { fault, path: file.destination().clone() })
}

/// The public result of a repair.
pub open spec fn repair_detail(changed: bool) -> Seq<char> {
    if changed {
        "restored managed files and refreshed all managed units"@
    } else {
        "managed files are intact and all managed units are enabled"@
    }
}

/// The result of a repair that changed a file or changed none.
pub fn repair_outcome(changed: bool) -> (r: RepairOutcome)
    ensures
        r.changed == changed,
        r.detail@ == repair_detail(changed),
{
    let detail = if changed {
        "restored managed files and refreshed all managed units"
    } else {
        "managed files are intact and all managed units are enabled"
    };
    RepairOutcome { changed, detail: detail.to_owned() }
}

} // verus!
