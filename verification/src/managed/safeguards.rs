//! What installing, undoing, repairing and uninstalling never do.

use vstd::prelude::*;

use super::installation::{
    is_installed_file, step_views, validate_directory, validate_private_file, FileFacts, FileStep,
    FileStepView, InstallationError, RecordFacts, RemovalFacts,
};
use super::job::OwnerFacts;
use super::journal::{
    InstallationJournal, InstallationRecord, JournalError, UninstallationJournal,
    UninstallationRecord,
};
use super::manifest::ManagedFile;
use super::product::ManagedProduct;
use super::transaction::{
    repair_file, repair_outcome, stage_views, Recovery, RepairAction, RepairFacts, StageStep,
    StageStepView,
};
use super::protocol::RepairOutcome;
use crate::unix_path::path;

verus! {

/// Whether a file is root's own regular file with the contents of a digest.
pub open spec fn is_exactly(f: FileFacts, digest: String) -> bool {
    f.installed && (f.digest matches Some(d) && d@ == digest@)
}

/// Whether steps put one path in the place of another.
pub open spec fn moves(steps: Seq<FileStep>, from: Seq<char>, to: Seq<char>) -> bool {
    step_views(steps).contains(FileStepView::Rename { from: path(from), to: path(to) })
}

/// Whether steps remove a path.
pub open spec fn deletes(steps: Seq<FileStep>, file: Seq<char>) -> bool {
    step_views(steps).contains(FileStepView::Remove { file: path(file) })
}

/// A file is committed exactly where its destination is as it was when the
/// installation was prepared: nothing where nothing was, else root's file with
/// the same contents. What was there is kept, then what was staged takes its
/// place, and nothing is removed.
pub proof fn law_a_commit_replaces_only_what_it_knows(
    record: InstallationRecord,
    facts: FileFacts,
    r: Result<Vec<FileStep>, InstallationError>,
)
    requires
        call_ensures(InstallationRecord::commit, (&record, &facts), r),
    ensures
        r is Ok <==> match record.original_digest {
            Some(digest) => facts.present && is_exactly(facts, digest),
            None => !facts.present,
        },
        r matches Ok(steps) ==> {
            let s = step_views(steps@);
            let keep = FileStepView::Rename {
                from: path(record.destination@),
                to: path(record.backup@),
            };
            let place = FileStepView::Rename {
                from: path(record.staged@),
                to: path(record.destination@),
            };
            let sync = FileStepView::SyncParent { file: path(record.destination@) };
            s == match (record.original_digest, record.new_digest) {
                (Some(_), Some(_)) => seq![keep, place, sync],
                (Some(_), None) => seq![keep, sync],
                (None, Some(_)) => seq![place, sync],
                (None, None) => seq![sync],
            }
        },
{
    if let Ok(steps) = r {
        let keep = FileStepView::Rename { from: path(record.destination@), to: path(record.backup@) };
        let place = FileStepView::Rename { from: path(record.staged@), to: path(record.destination@) };
        let sync = FileStepView::SyncParent { file: path(record.destination@) };
        assert(step_views(steps@) =~= match (record.original_digest, record.new_digest) {
            (Some(_), Some(_)) => seq![keep, place, sync],
            (Some(_), None) => seq![keep, sync],
            (None, Some(_)) => seq![place, sync],
            (None, None) => seq![sync],
        });
    }
}

/// Undoing a file removes what is at its destination only where that is exactly
/// what the installation put there, puts the original back exactly where it was
/// set aside, and then does nothing else; it succeeds without a step only where
/// the original is still in place or nothing was ever put there.
pub proof fn law_a_rollback_touches_only_its_own(
    record: InstallationRecord,
    facts: RecordFacts,
    r: Result<Vec<FileStep>, InstallationError>,
)
    requires
        call_ensures(InstallationRecord::rollback, (&record, &facts), r),
        path(record.backup@) != path(record.destination@),
    ensures
        r is Ok <==> {
            let at = facts.destination;
            match (facts.backup_exists, record.original_digest, record.new_digest) {
                (true, _, Some(new)) => (at.exists ==> is_exactly(at, new)) && (!at.exists
                    ==> facts.staged_exists),
                (true, _, None) => !at.exists,
                (false, Some(original), _) => at.exists && at.digest is Some && at.digest->Some_0@
                    == original@,
                (false, None, Some(new)) => at.exists && !facts.staged_exists ==> is_exactly(
                    at,
                    new,
                ),
                (false, None, None) => !at.exists,
            }
        },
        r matches Ok(steps) ==> {
            &&& steps@.len() > 0 ==> step_views(steps@).last() == (FileStepView::SyncParent {
                file: path(record.destination@),
            })
            &&& facts.backup_exists ==> steps@.len() == if facts.destination.exists {
                3int
            } else {
                2int
            }
            &&& facts.backup_exists ==> step_views(steps@)[steps@.len() - 2] == (
            FileStepView::Rename { from: path(record.backup@), to: path(record.destination@) })
            &&& deletes(steps@, record.destination@) ==> facts.destination.exists && (
            record.new_digest matches Some(new) && is_exactly(facts.destination, new))
            &&& moves(steps@, record.backup@, record.destination@) <==> facts.backup_exists
            &&& facts.backup_exists && facts.destination.exists ==> deletes(
                steps@,
                record.destination@,
            )
            &&& facts.backup_exists && !facts.destination.exists && record.new_digest is Some
                ==> facts.staged_exists
            &&& !facts.backup_exists && record.original_digest is Some ==> steps@.len() == 0
                && facts.destination.exists && (facts.destination.digest matches Some(d) && d@
                == record.original_digest->0@)
            &&& !facts.backup_exists && record.original_digest is None && record.new_digest is Some
                ==> (deletes(steps@, record.destination@) <==> facts.destination.exists
                && !facts.staged_exists)
            &&& !facts.backup_exists && record.original_digest is None && record.new_digest is None
                ==> !facts.destination.exists && steps@.len() == 0
        },
{
    if let Ok(steps) = r {
        let d = path(record.destination@);
        let remove = FileStepView::Remove { file: d };
        let back = FileStepView::Rename { from: path(record.backup@), to: d };
        let sync = FileStepView::SyncParent { file: d };
        let s = step_views(steps@);
        assert(s.len() == steps@.len());
        if facts.backup_exists {
            if facts.destination.exists {
                assert(s =~= seq![remove, back, sync]);
                assert(s[0] == remove && s[1] == back);
            } else {
                assert(s =~= seq![back, sync]);
                assert(s[0] == back);
            }
        } else if record.original_digest is None && record.new_digest is Some
            && facts.destination.exists && !facts.staged_exists {
            assert(s =~= seq![remove, sync]);
            assert(s[0] == remove);
        } else {
            assert(s =~= seq![]);
        }
    }
}

/// An accepted installation is confirmed exactly where every file that it wrote is
/// root's file with the contents that were written, and every file that it
/// removed is gone; what was staged is confirmed exactly where it has the digest
/// of the plan.
pub proof fn law_only_what_was_installed_is_confirmed(
    record: InstallationRecord,
    facts: FileFacts,
    digest: &str,
    accepted: Result<(), InstallationError>,
    staged: Result<(), InstallationError>,
)
    requires
        call_ensures(InstallationRecord::verify_accepted, (&record, &facts), accepted),
        call_ensures(InstallationRecord::verify_staged, (&record, digest), staged),
    ensures
        accepted is Ok <==> match record.new_digest {
            Some(new) => facts.present && is_exactly(facts, new),
            None => !facts.present,
        },
        staged is Ok <==> (record.new_digest matches Some(new) && new@ == digest@),
{
}

/// A file is uninstalled exactly where it is root's file with the contents that
/// were planned, and it is set aside, not removed. It is put back exactly where
/// it was set aside unchanged and nothing took its place, and left alone where it
/// was not set aside and is unchanged.
pub proof fn law_an_uninstallation_sets_aside_only_its_own(
    record: UninstallationRecord,
    facts: FileFacts,
    r: Result<Vec<FileStep>, InstallationError>,
    removed: bool,
    both: RemovalFacts,
    back: Result<Vec<FileStep>, InstallationError>,
)
    requires
        call_ensures(UninstallationRecord::remove, (&record, &facts), r),
        call_ensures(UninstallationRecord::restore, (&record, removed, &both), back),
    ensures
        r is Ok <==> facts.present && is_exactly(facts, record.digest),
        r matches Ok(steps) ==> step_views(steps@) == seq![
            FileStepView::Rename { from: path(record.destination@), to: path(record.backup@) },
            FileStepView::SyncParent { file: path(record.destination@) },
        ],
        back is Ok <==> if both.backup.exists {
            !both.destination.exists && is_exactly(both.backup, record.digest)
        } else {
            !removed && both.destination.present && is_exactly(both.destination, record.digest)
        },
        back matches Ok(steps) ==> step_views(steps@) == if both.backup.exists {
            seq![
                FileStepView::Rename { from: path(record.backup@), to: path(record.destination@) },
                FileStepView::SyncParent { file: path(record.destination@) },
            ]
        } else {
            seq![]
        },
{
}

/// A journal is read only where it is root's regular file that nobody else can
/// reach, files count as installed only where they are root's regular files, and
/// directories are used only where they are root's.
pub proof fn law_only_roots_files_are_trusted(
    name: String,
    facts: OwnerFacts,
    installed: bool,
    private: Result<(), InstallationError>,
    directory: Result<(), InstallationError>,
)
    requires
        call_ensures(is_installed_file, (&facts,), installed),
        call_ensures(validate_private_file, (&name, &facts), private),
        call_ensures(validate_directory, (&name, &facts), directory),
    ensures
        installed <==> facts.regular && facts.uid == 0 && facts.gid == 0,
        private is Ok <==> facts.regular && facts.uid == 0 && facts.gid == 0 && facts.mode % 64 == 0,
        directory is Ok <==> facts.directory && facts.uid == 0 && facts.gid == 0,
{
    let mode: u32 = facts.mode;
    assert(mode & 0o077 == mode % 64) by (bit_vector);
}

/// An interrupted installation that was accepted is kept, and any other is undone;
/// an interrupted removal that was committed is kept, and any other is undone;
/// neither is touched where its journal is not trusted. What is undone is undone
/// from the last record to the first, each once.
pub proof fn law_interruptions_are_undone_unless_they_were_final(
    j: InstallationJournal,
    name: &str,
    trusted: Result<(), JournalError>,
    r: Result<Recovery, JournalError>,
    u: UninstallationJournal,
    product: ManagedProduct,
    trusted_removal: Result<(), JournalError>,
    removal: Result<Recovery, JournalError>,
    order: Vec<usize>,
    undone: Result<Vec<usize>, JournalError>,
)
    requires
        call_ensures(InstallationJournal::validate, (&j, name), trusted),
        call_ensures(InstallationJournal::recovery, (&j, name), r),
        call_ensures(UninstallationJournal::validate, (&u, &product), trusted_removal),
        call_ensures(UninstallationJournal::recovery, (&u, &product), removal),
        call_ensures(UninstallationJournal::restore_order, (&u,), order),
        call_ensures(InstallationJournal::rollback_order, (&j,), undone),
        j.records@.len() <= usize::MAX,
        u.records@.len() <= usize::MAX,
    ensures
        r is Ok <==> trusted is Ok,
        r matches Ok(recovery) ==> (recovery is VerifyAndRefresh <==> j.accepted),
        removal is Ok <==> trusted_removal is Ok,
        removal matches Ok(recovery) ==> (recovery is VerifyAndRefresh <==> u.removal_committed),
        order@.len() == u.records@.len(),
        forall|i: int|
            0 <= i < order@.len() ==> #[trigger] order@[i] + i + 1 == u.records@.len(),
        undone matches Ok(list) ==> list@.len() == j.records@.len() && forall|i: int|
            0 <= i < list@.len() ==> #[trigger] list@[i] + i + 1 == j.records@.len(),
{
}

/// Staging a file makes its directories before it writes, writes the replacement
/// with its mode to the staged path and nowhere else, and then compares it with
/// the plan and makes it durable; a file that is to be removed has nothing staged.
pub proof fn law_staging_writes_only_the_staged_file(
    record: InstallationRecord,
    managed: Option<&ManagedFile>,
    r: Vec<StageStep>,
)
    requires
        call_ensures(InstallationRecord::stage, (&record, managed), r),
    ensures
        ({
            let s = stage_views(r@);
            let staged = path(record.staged@);
            &&& forall|i: int|
                0 <= i < s.len() && i < 3 ==> (#[trigger] s[i]) is EnsureDirectory
            &&& match managed {
                None => s.len() == 3,
                Some(ManagedFile::Binary { source_name, mode, .. }) => {
                    &&& s.len() == 6
                    &&& s[3] == StageStepView::CopyArtifact {
                        source_name: source_name@,
                        to: staged,
                        mode: *mode,
                    }
                    &&& s[4] == StageStepView::CheckDigest { file: staged }
                    &&& s[5] == StageStepView::SyncParent { file: staged }
                },
                Some(ManagedFile::Text { contents, mode, .. }) => {
                    &&& s.len() == 6
                    &&& s[3] == StageStepView::WriteText {
                        contents: contents@,
                        to: staged,
                        mode: *mode,
                    }
                    &&& s[4] == StageStepView::CheckDigest { file: staged }
                    &&& s[5] == StageStepView::SyncParent { file: staged }
                },
            }
        }),
{
}

/// A repair leaves a file alone exactly where it is root's with the declared mode
/// and, a unit, with the declared contents; a unit that differs or is gone is
/// written anew, a binary is never written, and what is not root's is refused.
pub proof fn law_a_repair_restores_what_is_declared(
    file: ManagedFile,
    facts: RepairFacts,
    r: Result<RepairAction, InstallationError>,
    changed: bool,
    outcome: RepairOutcome,
)
    requires
        call_ensures(repair_file, (&file, &facts), r),
        call_ensures(repair_outcome, (changed,), outcome),
    ensures
        outcome.changed == changed,
        ({
            let kept = r matches Ok(action) && action is Keep;
            let rewritten = r matches Ok(action) && action is Rewrite;
            let remoded = r matches Ok(action) && action is SetMode;
            match file {
                ManagedFile::Binary { mode, .. } => {
                    &&& !rewritten
                    &&& r is Ok <==> facts.present && facts.installed
                    &&& kept <==> facts.present && facts.installed && facts.mode % 512 == mode
                },
                ManagedFile::Text { contents, mode, .. } => {
                    let same = facts.contents matches Some(bytes) && bytes@
                        == vstd::utf8::encode_utf8(contents@);
                    &&& !remoded
                    &&& kept <==> facts.present && facts.installed && facts.mode % 512 == mode && same
                    &&& !facts.present ==> rewritten
                    &&& facts.present && !facts.installed ==> r is Err
                    &&& facts.present && facts.installed && facts.mode % 512 != mode ==> rewritten
                    &&& facts.present && facts.installed && facts.mode % 512 == mode && !same
                        && facts.contents is Some ==> rewritten
                },
            }
        }),
{
    let mode: u32 = facts.mode;
    assert(mode & 0o777 == mode % 512) by (bit_vector);
}

} // verus!
