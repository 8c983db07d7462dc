//! Installation transactions: what is checked and done to each file when an
//! installation is committed, rolled back, recovered or removed.
//!
//! What is found on disk comes in as facts, and what is to be done on disk goes
//! out as steps.

use vstd::prelude::*;

use super::job::OwnerFacts;
use super::journal::{InstallationRecord, UninstallationRecord};
use crate::text;
use crate::text::{opt, texts};
use crate::unix_path;
use crate::unix_path::{path, PathView};

verus! {

/// What was found at a path: an entry of any kind, something that is there when
/// links are followed, a regular file owned by root, and the digest of the
/// contents where they could be read.
#[derive(Clone, Debug, PartialEq, Eq)]
pub struct FileFacts {
    pub present: bool,
    pub exists: bool,
    pub installed: bool,
    pub digest: Option<String>,
}

/// What file facts say.
#[verifier::ext_equal]
pub ghost struct FileFactsView {
    pub present: bool,
    pub exists: bool,
    pub installed: bool,
    pub digest: Option<Seq<char>>,
}

impl FileFacts {
    pub open spec fn view(self) -> FileFactsView {
        FileFactsView {
            present: self.present,
            exists: self.exists,
            installed: self.installed,
            digest: opt(self.digest),
        }
    }
}

/// What was found at the three paths of a record.
#[derive(Clone, Debug, PartialEq, Eq)]
pub struct RecordFacts {
    pub destination: FileFacts,
    pub staged_exists: bool,
    pub backup_exists: bool,
}

/// What record facts say.
#[verifier::ext_equal]
pub ghost struct RecordFactsView {
    pub destination: FileFactsView,
    pub staged_exists: bool,
    pub backup_exists: bool,
}

impl RecordFacts {
    pub open spec fn view(self) -> RecordFactsView {
        RecordFactsView {
            destination: self.destination@,
            staged_exists: self.staged_exists,
            backup_exists: self.backup_exists,
        }
    }
}

/// One change on disk.
#[derive(Clone, Debug, PartialEq, Eq)]
pub enum FileStep {
    Rename { from: String, to: String },
    Remove { file: String },
    SyncParent { file: String },
}

/// What a step says.
#[verifier::ext_equal]
pub ghost enum FileStepView {
    Rename { from: PathView, to: PathView },
    Remove { file: PathView },
    SyncParent { file: PathView },
}

impl FileStep {
    pub open spec fn view(self) -> FileStepView {
        match self {
            FileStep::Rename { from, to } => FileStepView::Rename {
                from: path(from@),
                to: path(to@),
            },
            FileStep::Remove { file } => FileStepView::Remove { file: path(file@) },
            FileStep::SyncParent { file } => FileStepView::SyncParent { file: path(file@) },
        }
    }
}

/// What steps say.
pub open spec fn step_views(steps: Seq<FileStep>) -> Seq<FileStepView> {
    steps.map_values(|s: FileStep| s@)
}

/// Why a file stops an installation.
#[derive(Clone, Copy, Debug, PartialEq, Eq, Structural)]
pub enum InstallationFault {
    NotInstalledFile,
    Missing,
    Unreadable,
    ChangedWhileStaging,
    DisappearedWhileStaging,
    AppearedWhileStaging,
    StagedFileChanged,
    ChangedBeforeRollback,
    NewDisappearedBeforeRollback,
    RemovedReappearedBeforeRollback,
    OriginalChangedBeforeRollback,
    NewChangedBeforeRollback,
    UnexpectedDestination,
    AcceptedChangedBeforeRecovery,
    AcceptedDisappearedBeforeRecovery,
    RemovedReappearedBeforeRecovery,
    DisappearedBeforeUninstall,
    ChangedBeforeUninstall,
    ReappearedBeforeUninstallRollback,
    BackupChangedBeforeUninstallRollback,
    BackupMissing,
    ChangedBeforeUninstallRollback,
    ReappearedAfterUninstall,
    BinaryMissing,
    NoParent,
    NoFileName,
    NotNormalized,
    NotRootDirectory,
    AccessibleByOthers,
}

/// A file that stops an installation, and why.
#[derive(Debug, PartialEq, Eq)]
pub struct InstallationError {
    pub fault: InstallationFault,
    pub path: String,
}

/// The words for a fault.
pub open spec fn fault_text(fault: InstallationFault) -> Seq<char> {
    match fault {
        InstallationFault::NotInstalledFile =>
            "installed managed path is not a root-owned regular file"@,
        InstallationFault::Missing => "managed file is missing"@,
        InstallationFault::Unreadable => "managed file could not be read"@,
        InstallationFault::ChangedWhileStaging =>
            "installed file changed while redeploy was staging"@,
        InstallationFault::DisappearedWhileStaging =>
            "installed file disappeared while redeploy was staging"@,
        InstallationFault::AppearedWhileStaging =>
            "managed destination appeared while redeploy was staging"@,
        InstallationFault::StagedFileChanged =>
            "staged file changed while the installation was prepared"@,
        InstallationFault::ChangedBeforeRollback => "installed file changed before rollback"@,
        InstallationFault::NewDisappearedBeforeRollback =>
            "new managed destination disappeared before rollback"@,
        InstallationFault::RemovedReappearedBeforeRollback =>
            "removed managed destination reappeared before rollback"@,
        InstallationFault::OriginalChangedBeforeRollback =>
            "original managed destination changed before rollback"@,
        InstallationFault::NewChangedBeforeRollback =>
            "new managed destination changed before rollback"@,
        InstallationFault::UnexpectedDestination =>
            "unexpected destination exists for an absent managed file"@,
        InstallationFault::AcceptedChangedBeforeRecovery =>
            "accepted managed file changed before recovery"@,
        InstallationFault::AcceptedDisappearedBeforeRecovery =>
            "accepted managed file disappeared before recovery"@,
        InstallationFault::RemovedReappearedBeforeRecovery =>
            "removed managed file reappeared before recovery"@,
        InstallationFault::DisappearedBeforeUninstall =>
            "managed uninstall destination disappeared"@,
        InstallationFault::ChangedBeforeUninstall => "managed file changed before uninstall"@,
        InstallationFault::ReappearedBeforeUninstallRollback =>
            "managed destination reappeared before uninstall rollback"@,
        InstallationFault::BackupChangedBeforeUninstallRollback =>
            "uninstall backup changed before rollback"@,
        InstallationFault::BackupMissing => "uninstall backup is missing for removed file"@,
        InstallationFault::ChangedBeforeUninstallRollback =>
            "managed file changed before uninstall rollback"@,
        InstallationFault::ReappearedAfterUninstall =>
            "managed destination reappeared after committed uninstall"@,
        InstallationFault::BinaryMissing => "managed binary is missing"@,
        InstallationFault::NoParent => "managed destination has no parent"@,
        InstallationFault::NoFileName => "managed destination has no filename"@,
        InstallationFault::NotNormalized => "managed path is not normalized and absolute"@,
        InstallationFault::NotRootDirectory =>
            "managed parent is not a root-owned real directory"@,
        InstallationFault::AccessibleByOthers =>
            "Capulus private file is accessible by other users"@,
    }
}

fn fault_words(fault: InstallationFault) -> (r: &'static str)
    ensures
        r@ == fault_text(fault),
{
    match fault {
        InstallationFault::NotInstalledFile =>
            "installed managed path is not a root-owned regular file",
        InstallationFault::Missing => "managed file is missing",
        InstallationFault::Unreadable => "managed file could not be read",
        InstallationFault::ChangedWhileStaging =>
            "installed file changed while redeploy was staging",
        InstallationFault::DisappearedWhileStaging =>
            "installed file disappeared while redeploy was staging",
        InstallationFault::AppearedWhileStaging =>
            "managed destination appeared while redeploy was staging",
        InstallationFault::StagedFileChanged =>
            "staged file changed while the installation was prepared",
        InstallationFault::ChangedBeforeRollback => "installed file changed before rollback",
        InstallationFault::NewDisappearedBeforeRollback =>
            "new managed destination disappeared before rollback",
        InstallationFault::RemovedReappearedBeforeRollback =>
            "removed managed destination reappeared before rollback",
        InstallationFault::OriginalChangedBeforeRollback =>
            "original managed destination changed before rollback",
        InstallationFault::NewChangedBeforeRollback =>
            "new managed destination changed before rollback",
        InstallationFault::UnexpectedDestination =>
            "unexpected destination exists for an absent managed file",
        InstallationFault::AcceptedChangedBeforeRecovery =>
            "accepted managed file changed before recovery",
        InstallationFault::AcceptedDisappearedBeforeRecovery =>
            "accepted managed file disappeared before recovery",
        InstallationFault::RemovedReappearedBeforeRecovery =>
            "removed managed file reappeared before recovery",
        InstallationFault::DisappearedBeforeUninstall =>
            "managed uninstall destination disappeared",
        InstallationFault::ChangedBeforeUninstall => "managed file changed before uninstall",
        InstallationFault::ReappearedBeforeUninstallRollback =>
            "managed destination reappeared before uninstall rollback",
        InstallationFault::BackupChangedBeforeUninstallRollback =>
            "uninstall backup changed before rollback",
        InstallationFault::BackupMissing => "uninstall backup is missing for removed file",
        InstallationFault::ChangedBeforeUninstallRollback =>
            "managed file changed before uninstall rollback",
        InstallationFault::ReappearedAfterUninstall =>
            "managed destination reappeared after committed uninstall",
        InstallationFault::BinaryMissing => "managed binary is missing",
        InstallationFault::NoParent => "managed destination has no parent",
        InstallationFault::NoFileName => "managed destination has no filename",
        InstallationFault::NotNormalized => "managed path is not normalized and absolute",
        InstallationFault::NotRootDirectory =>
            "managed parent is not a root-owned real directory",
        InstallationFault::AccessibleByOthers =>
            "Capulus private file is accessible by other users",
    }
}

/// Whether the words for a fault are followed by the path.
pub open spec fn names_path(fault: InstallationFault) -> bool {
    !(fault is StagedFileChanged || fault is NoParent || fault is NoFileName)
}

impl InstallationError {
    /// The words for the fault, and the path where they name it.
    pub fn message(&self) -> (out: String)
        ensures
            out@ == if names_path(self.fault) {
                fault_text(self.fault) + ": "@ + self.path@
            } else {
                fault_text(self.fault)
            },
    {
        let words = fault_words(self.fault).to_owned();
        match self.fault {
            InstallationFault::StagedFileChanged
            | InstallationFault::NoParent
            | InstallationFault::NoFileName => words,
            _ => words.concat(": ").concat(self.path.as_str()),
        }
    }
}

/// Whether a result is the steps, or the fault with the path, that a plan says.
pub open spec fn follows_plan(
    r: Result<Vec<FileStep>, InstallationError>,
    plan: Result<Seq<FileStepView>, InstallationFault>,
    file: String,
) -> bool {
    match plan {
        Ok(steps) => r matches Ok(list) && step_views(list@) == steps,
        Err(fault) => r matches Err(e) && e.fault == fault && e.path == file,
    }
}

/// Whether a result is what a check says, with the path.
pub open spec fn follows_check(
    r: Result<(), InstallationError>,
    check: Option<InstallationFault>,
    file: String,
) -> bool {
    match check {
        None => r is Ok,
        Some(fault) => r matches Err(e) && e.fault == fault && e.path == file,
    }
}

/// Whether a file counts as installed: a regular file that is root's.
pub open spec fn counts_as_installed(facts: OwnerFacts) -> bool {
    facts.regular && facts.uid == 0 && facts.gid == 0
}

/// Whether a file counts as installed.
pub fn is_installed_file(facts: &OwnerFacts) -> (r: bool)
    ensures
        r == counts_as_installed(*facts),
{
    facts.regular && facts.uid == 0 && facts.gid == 0
}

/// The fault of a private file: one that is not installed, or that others than
/// its owner can reach.
pub open spec fn private_check(facts: OwnerFacts) -> Option<InstallationFault> {
    if !counts_as_installed(facts) {
        Some(InstallationFault::NotInstalledFile)
    } else if facts.mode & 0o077 != 0 {
        Some(InstallationFault::AccessibleByOthers)
    } else {
        None
    }
}

/// Checks that a journal is a file that only root can reach.
pub fn validate_private_file(file: &String, facts: &OwnerFacts) -> (r: Result<
    (),
    InstallationError,
>)
    ensures
        follows_check(r, private_check(*facts), *file),
{
    if !is_installed_file(facts) {
        return Err(
            InstallationError { fault: InstallationFault::NotInstalledFile, path: file.clone() },
        );
    }
    if facts.mode & 0o077 != 0 {
        return Err(
            InstallationError { fault: InstallationFault::AccessibleByOthers, path: file.clone() },
        );
    }
    Ok(())
}

/// Checks that a directory that holds managed files is a real directory of
/// root's.
pub fn validate_directory(directory: &String, facts: &OwnerFacts) -> (r: Result<
    (),
    InstallationError,
>)
    ensures
        follows_check(
            r,
            if facts.directory && facts.uid == 0 && facts.gid == 0 {
                None
            } else {
                Some(InstallationFault::NotRootDirectory)
            },
            *directory,
        ),
{
    if !facts.directory || facts.uid != 0 || facts.gid != 0 {
        return Err(
            InstallationError {
                fault: InstallationFault::NotRootDirectory,
                path: directory.clone(),
            },
        );
    }
    Ok(())
}

/// The directories on the way to a directory and the directory itself, in the
/// order in which each is checked or made.
pub fn directory_chain(directory: &String) -> (r: Result<Vec<String>, InstallationError>)
    ensures
        r is Ok <==> unix_path::is_plain(path(directory@)),
        r matches Ok(chain) ==> chain@.len() == path(directory@).parts.len() && forall|i: int|
            0 <= i < chain@.len() ==> path((#[trigger] chain@[i])@) == (PathView {
                absolute: true,
                parts: path(directory@).parts.take(i + 1),
            }),
        r matches Err(e) ==> e.fault is NotNormalized && e.path == *directory,
{
    if !unix_path::is_plain_path(directory.as_str()) {
        return Err(
            InstallationError { fault: InstallationFault::NotNormalized, path: directory.clone() },
        );
    }
    let all = unix_path::parts(directory.as_str());
    let mut chain: Vec<String> = Vec::new();
    let mut front: Vec<String> = Vec::new();
    let mut i: usize = 0;
    while i < all.len()
        invariant
            i <= all@.len(),
            texts(all@) == path(directory@).parts,
            texts(front@) == texts(all@).take(i as int),
            chain@.len() == i,
            forall|k: int|
                0 <= k < i ==> path((#[trigger] chain@[k])@) == (PathView {
                    absolute: true,
                    parts: path(directory@).parts.take(k + 1),
                }),
        decreases all@.len() - i,
    {
        let ghost before = texts(front@);
        let part = all[i].clone();
        front.push(part);
        assert(texts(front@) =~= before.push(part@));
        assert(texts(front@) =~= texts(all@).take(i + 1));
        proof {
            assert forall|k: int| 0 <= k < texts(front@).len() implies unix_path::is_part(
                #[trigger] texts(front@)[k],
            ) by {
                unix_path::lemma_parts_are_parts(directory@, k);
            }
            unix_path::lemma_rendered(texts(front@));
        }
        chain.push(unix_path::render(&front));
        i = i + 1;
    }
    Ok(chain)
}

/// The fault of a file that must be a regular file owned by root with a digest.
pub open spec fn digest_check(
    f: FileFactsView,
    expected: Seq<char>,
    otherwise: InstallationFault,
) -> Option<InstallationFault> {
    if !f.installed {
        Some(InstallationFault::NotInstalledFile)
    } else {
        contents_check(f, expected, otherwise)
    }
}

/// The fault of a file whose contents must have a digest.
pub open spec fn contents_check(
    f: FileFactsView,
    expected: Seq<char>,
    otherwise: InstallationFault,
) -> Option<InstallationFault> {
    match f.digest {
        None => Some(InstallationFault::Unreadable),
        Some(d) => if d == expected {
            None
        } else {
            Some(otherwise)
        },
    }
}

fn check_contents(facts: &FileFacts, expected: &String, otherwise: InstallationFault) -> (r: Option<
    InstallationFault,
>)
    ensures
        r == contents_check(facts@, expected@, otherwise),
{
    match &facts.digest {
        None => Some(InstallationFault::Unreadable),
        Some(d) => if *d == *expected {
            None
        } else {
            Some(otherwise)
        },
    }
}

fn check_digest(facts: &FileFacts, expected: &String, otherwise: InstallationFault) -> (r: Option<
    InstallationFault,
>)
    ensures
        r == digest_check(facts@, expected@, otherwise),
{
    if !facts.installed {
        Some(InstallationFault::NotInstalledFile)
    } else {
        check_contents(facts, expected, otherwise)
    }
}

fn refuse(fault: InstallationFault, file: &String) -> (e: InstallationError)
    ensures
        e.fault == fault,
        e.path == *file,
{
    InstallationError { fault, path: file.clone() }
}

// ---------------------------------------------------------------------------
// One file of an installation
// ---------------------------------------------------------------------------

impl InstallationRecord {
    /// The fault of a destination that is not as it was when the installation
    /// was prepared.
    pub open spec fn commit_check(self, f: FileFactsView) -> Option<InstallationFault> {
        match self.original_digest {
            Some(expected) => if f.present {
                digest_check(f, expected@, InstallationFault::ChangedWhileStaging)
            } else {
                Some(InstallationFault::DisappearedWhileStaging)
            },
            None => if f.present {
                Some(InstallationFault::AppearedWhileStaging)
            } else {
                None
            },
        }
    }

    /// The steps that replace, write or remove the file: its predecessor is
    /// kept, and what is staged takes its place.
    pub open spec fn commit_steps(self) -> Seq<FileStepView> {
        let keep = if self.original_digest is Some {
            seq![
                FileStepView::Rename { from: path(self.destination@), to: path(self.backup@) },
            ]
        } else {
            seq![]
        };
        let place = if self.new_digest is Some {
            seq![
                FileStepView::Rename { from: path(self.staged@), to: path(self.destination@) },
            ]
        } else {
            seq![]
        };
        keep + place + seq![FileStepView::SyncParent { file: path(self.destination@) }]
    }

    /// The steps that undo the file, or the fault that stops them.
    pub open spec fn rollback_plan(self, f: RecordFactsView) -> Result<
        Seq<FileStepView>,
        InstallationFault,
    > {
        let destination = path(self.destination@);
        let restore = seq![
            FileStepView::Rename { from: path(self.backup@), to: destination },
            FileStepView::SyncParent { file: destination },
        ];
        let remove = seq![FileStepView::Remove { file: destination }];
        if f.backup_exists {
            match self.new_digest {
                Some(new) => if f.destination.exists {
                    match digest_check(
                        f.destination,
                        new@,
                        InstallationFault::ChangedBeforeRollback,
                    ) {
                        Some(fault) => Err(fault),
                        None => Ok(remove + restore),
                    }
                } else if !f.staged_exists {
                    Err(InstallationFault::NewDisappearedBeforeRollback)
                } else {
                    Ok(restore)
                },
                None => if f.destination.exists {
                    Err(InstallationFault::RemovedReappearedBeforeRollback)
                } else {
                    Ok(restore)
                },
            }
        } else {
            match self.original_digest {
                Some(original) => if !f.destination.exists {
                    Err(InstallationFault::OriginalChangedBeforeRollback)
                } else {
                    match contents_check(
                        f.destination,
                        original@,
                        InstallationFault::OriginalChangedBeforeRollback,
                    ) {
                        Some(fault) => Err(fault),
                        None => Ok(seq![]),
                    }
                },
                None => match self.new_digest {
                    Some(new) => if !f.staged_exists && f.destination.exists {
                        match digest_check(
                            f.destination,
                            new@,
                            InstallationFault::NewChangedBeforeRollback,
                        ) {
                            Some(fault) => Err(fault),
                            None => Ok(
                                remove + seq![FileStepView::SyncParent { file: destination }],
                            ),
                        }
                    } else {
                        Ok(seq![])
                    },
                    None => if f.destination.exists {
                        Err(InstallationFault::UnexpectedDestination)
                    } else {
                        Ok(seq![])
                    },
                },
            }
        }
    }

    /// The fault of a destination that is not as an accepted installation left
    /// it.
    pub open spec fn accepted_check(self, f: FileFactsView) -> Option<InstallationFault> {
        match self.new_digest {
            Some(expected) => if f.present {
                digest_check(f, expected@, InstallationFault::AcceptedChangedBeforeRecovery)
            } else {
                Some(InstallationFault::AcceptedDisappearedBeforeRecovery)
            },
            None => if f.present {
                Some(InstallationFault::RemovedReappearedBeforeRecovery)
            } else {
                None
            },
        }
    }

    fn step_restore(&self, steps: &mut Vec<FileStep>)
        ensures
            step_views(final(steps)@) == step_views(old(steps)@).push(
                FileStepView::Rename { from: path(self.backup@), to: path(self.destination@) },
            ).push(FileStepView::SyncParent { file: path(self.destination@) }),
    {
        let ghost before = step_views(steps@);
        steps.push(
            FileStep::Rename { from: self.backup.clone(), to: self.destination.clone() },
        );
        steps.push(FileStep::SyncParent { file: self.destination.clone() });
        assert(step_views(steps@) =~= before.push(
            FileStepView::Rename { from: path(self.backup@), to: path(self.destination@) },
        ).push(FileStepView::SyncParent { file: path(self.destination@) }));
    }

    /// Checks that the destination is as it was when the installation was
    /// prepared, and gives the steps that commit the file.
    pub fn commit(&self, facts: &FileFacts) -> (r: Result<Vec<FileStep>, InstallationError>)
        ensures
            follows_plan(
                r,
                match self.commit_check(facts@) {
                    Some(fault) => Err(fault),
                    None => Ok(self.commit_steps()),
                },
                self.destination,
            ),
    {
        let fault = match &self.original_digest {
            Some(expected) => if facts.present {
                check_digest(facts, expected, InstallationFault::ChangedWhileStaging)
            } else {
                Some(InstallationFault::DisappearedWhileStaging)
            },
            None => if facts.present {
                Some(InstallationFault::AppearedWhileStaging)
            } else {
                None
            },
        };
        if let Some(fault) = fault {
            return Err(refuse(fault, &self.destination));
        }
        let mut steps: Vec<FileStep> = Vec::new();
        if self.original_digest.is_some() {
            steps.push(
                FileStep::Rename { from: self.destination.clone(), to: self.backup.clone() },
            );
        }
        if self.new_digest.is_some() {
            steps.push(
                FileStep::Rename { from: self.staged.clone(), to: self.destination.clone() },
            );
        }
        steps.push(FileStep::SyncParent { file: self.destination.clone() });
        assert(step_views(steps@) =~= self.commit_steps());
        Ok(steps)
    }

    /// Gives the steps that undo the file.
    pub fn rollback(&self, facts: &RecordFacts) -> (r: Result<Vec<FileStep>, InstallationError>)
        ensures
            follows_plan(r, self.rollback_plan(facts@), self.destination),
    {
        let mut steps: Vec<FileStep> = Vec::new();
        let destination = &facts.destination;
        assert(step_views(steps@) =~= seq![]);
        if facts.backup_exists {
            if let Some(new) = &self.new_digest {
                if destination.exists {
                    if let Some(fault) = check_digest(
                        destination,
                        new,
                        InstallationFault::ChangedBeforeRollback,
                    ) {
                        return Err(refuse(fault, &self.destination));
                    }
                    steps.push(FileStep::Remove { file: self.destination.clone() });
                    assert(step_views(steps@) =~= seq![
                        FileStepView::Remove { file: path(self.destination@) },
                    ]);
                } else if !facts.staged_exists {
                    return Err(
                        refuse(
                            InstallationFault::NewDisappearedBeforeRollback,
                            &self.destination,
                        ),
                    );
                }
            } else if destination.exists {
                return Err(
                    refuse(InstallationFault::RemovedReappearedBeforeRollback, &self.destination),
                );
            }
            self.step_restore(&mut steps);
            assert(step_views(steps@) =~= self.rollback_plan(facts@)->Ok_0);
            return Ok(steps);
        }
        if let Some(original) = &self.original_digest {
            if !destination.exists {
                return Err(
                    refuse(InstallationFault::OriginalChangedBeforeRollback, &self.destination),
                );
            }
            if let Some(fault) = check_contents(
                destination,
                original,
                InstallationFault::OriginalChangedBeforeRollback,
            ) {
                return Err(refuse(fault, &self.destination));
            }
            return Ok(steps);
        }
        if let Some(new) = &self.new_digest {
            if !facts.staged_exists && destination.exists {
                if let Some(fault) = check_digest(
                    destination,
                    new,
                    InstallationFault::NewChangedBeforeRollback,
                ) {
                    return Err(refuse(fault, &self.destination));
                }
                steps.push(FileStep::Remove { file: self.destination.clone() });
                steps.push(FileStep::SyncParent { file: self.destination.clone() });
                assert(step_views(steps@) =~= self.rollback_plan(facts@)->Ok_0);
            }
            return Ok(steps);
        }
        if destination.exists {
            return Err(refuse(InstallationFault::UnexpectedDestination, &self.destination));
        }
        Ok(steps)
    }

    /// Checks that the destination is as an accepted installation left it.
    pub fn verify_accepted(&self, facts: &FileFacts) -> (r: Result<(), InstallationError>)
        ensures
            follows_check(r, self.accepted_check(facts@), self.destination),
    {
        let fault = match &self.new_digest {
            Some(expected) => if facts.present {
                check_digest(facts, expected, InstallationFault::AcceptedChangedBeforeRecovery)
            } else {
                Some(InstallationFault::AcceptedDisappearedBeforeRecovery)
            },
            None => if facts.present {
                Some(InstallationFault::RemovedReappearedBeforeRecovery)
            } else {
                None
            },
        };
        match fault {
            Some(fault) => Err(refuse(fault, &self.destination)),
            None => Ok(()),
        }
    }

    /// Checks that what was staged is what was planned.
    pub fn verify_staged(&self, digest: &str) -> (r: Result<(), InstallationError>)
        ensures
            follows_check(
                r,
                if opt(self.new_digest) == Some(digest@) {
                    None
                } else {
                    Some(InstallationFault::StagedFileChanged)
                },
                self.destination,
            ),
    {
        let same = match &self.new_digest {
            Some(expected) => text::same(expected.as_str(), digest),
            None => false,
        };
        if same {
            Ok(())
        } else {
            Err(refuse(InstallationFault::StagedFileChanged, &self.destination))
        }
    }
}

// ---------------------------------------------------------------------------
// One file of an uninstallation
// ---------------------------------------------------------------------------

/// What was found at the two paths of a record of an uninstallation.
#[derive(Clone, Debug, PartialEq, Eq)]
pub struct RemovalFacts {
    pub destination: FileFacts,
    pub backup: FileFacts,
}

/// What removal facts say.
#[verifier::ext_equal]
pub ghost struct RemovalFactsView {
    pub destination: FileFactsView,
    pub backup: FileFactsView,
}

impl RemovalFacts {
    pub open spec fn view(self) -> RemovalFactsView {
        RemovalFactsView { destination: self.destination@, backup: self.backup@ }
    }
}

impl UninstallationRecord {
    /// The fault of a destination that is not as it was when the uninstallation
    /// was prepared.
    pub open spec fn removal_check(self, f: FileFactsView) -> Option<InstallationFault> {
        if !f.present {
            Some(InstallationFault::DisappearedBeforeUninstall)
        } else {
            digest_check(f, self.digest@, InstallationFault::ChangedBeforeUninstall)
        }
    }

    /// The steps that remove the file: it is kept until the removal is
    /// committed.
    pub open spec fn removal_steps(self) -> Seq<FileStepView> {
        seq![
            FileStepView::Rename { from: path(self.destination@), to: path(self.backup@) },
            FileStepView::SyncParent { file: path(self.destination@) },
        ]
    }

    /// The path that a fault of the restoration names.
    pub open spec fn restore_path(self, f: RemovalFactsView) -> String {
        if f.backup.exists && !f.destination.exists {
            self.backup
        } else {
            self.destination
        }
    }

    /// The steps that restore the file, or the fault that stops them. `removed`
    /// says whether the journal counts the file as removed.
    pub open spec fn restore_plan(self, removed: bool, f: RemovalFactsView) -> Result<
        Seq<FileStepView>,
        InstallationFault,
    > {
        let destination = path(self.destination@);
        if f.backup.exists {
            if f.destination.exists {
                Err(InstallationFault::ReappearedBeforeUninstallRollback)
            } else {
                match digest_check(
                    f.backup,
                    self.digest@,
                    InstallationFault::BackupChangedBeforeUninstallRollback,
                ) {
                    Some(fault) => Err(fault),
                    None => Ok(
                        seq![
                            FileStepView::Rename { from: path(self.backup@), to: destination },
                            FileStepView::SyncParent { file: destination },
                        ],
                    ),
                }
            }
        } else if removed {
            Err(InstallationFault::BackupMissing)
        } else if !f.destination.present {
            Err(InstallationFault::Missing)
        } else {
            match digest_check(
                f.destination,
                self.digest@,
                InstallationFault::ChangedBeforeUninstallRollback,
            ) {
                Some(fault) => Err(fault),
                None => Ok(seq![]),
            }
        }
    }

    /// Checks that the file is as it was when the uninstallation was prepared,
    /// and gives the steps that remove it.
    pub fn remove(&self, facts: &FileFacts) -> (r: Result<Vec<FileStep>, InstallationError>)
        ensures
            follows_plan(
                r,
                match self.removal_check(facts@) {
                    Some(fault) => Err(fault),
                    None => Ok(self.removal_steps()),
                },
                self.destination,
            ),
    {
        if !facts.present {
            return Err(refuse(InstallationFault::DisappearedBeforeUninstall, &self.destination));
        }
        if let Some(fault) = check_digest(
            facts,
            &self.digest,
            InstallationFault::ChangedBeforeUninstall,
        ) {
            return Err(refuse(fault, &self.destination));
        }
        let mut steps: Vec<FileStep> = Vec::new();
        steps.push(
            FileStep::Rename { from: self.destination.clone(), to: self.backup.clone() },
        );
        steps.push(FileStep::SyncParent { file: self.destination.clone() });
        assert(step_views(steps@) =~= self.removal_steps());
        Ok(steps)
    }

    /// Gives the steps that restore the file.
    pub fn restore(&self, removed: bool, facts: &RemovalFacts) -> (r: Result<
        Vec<FileStep>,
        InstallationError,
    >)
        ensures
            follows_plan(r, self.restore_plan(removed, facts@), self.restore_path(facts@)),
    {
        let mut steps: Vec<FileStep> = Vec::new();
        assert(step_views(steps@) =~= seq![]);
        if facts.backup.exists {
            if facts.destination.exists {
                return Err(
                    refuse(
                        InstallationFault::ReappearedBeforeUninstallRollback,
                        &self.destination,
                    ),
                );
            }
            if let Some(fault) = check_digest(
                &facts.backup,
                &self.digest,
                InstallationFault::BackupChangedBeforeUninstallRollback,
            ) {
                return Err(refuse(fault, &self.backup));
            }
            steps.push(
                FileStep::Rename { from: self.backup.clone(), to: self.destination.clone() },
            );
            steps.push(FileStep::SyncParent { file: self.destination.clone() });
            assert(step_views(steps@) =~= self.restore_plan(removed, facts@)->Ok_0);
            return Ok(steps);
        }
        if removed {
            return Err(refuse(InstallationFault::BackupMissing, &self.destination));
        }
        if !facts.destination.present {
            return Err(refuse(InstallationFault::Missing, &self.destination));
        }
        if let Some(fault) = check_digest(
            &facts.destination,
            &self.digest,
            InstallationFault::ChangedBeforeUninstallRollback,
        ) {
            return Err(refuse(fault, &self.destination));
        }
        Ok(steps)
    }

    /// Checks that a removed file has not come back.
    pub fn verify_removed(&self, exists: bool) -> (r: Result<(), InstallationError>)
        ensures
            follows_check(
                r,
                if exists {
                    Some(InstallationFault::ReappearedAfterUninstall)
                } else {
                    None
                },
                self.destination,
            ),
    {
        if exists {
            Err(refuse(InstallationFault::ReappearedAfterUninstall, &self.destination))
        } else {
            Ok(())
        }
    }
}

} // verus!
