//! Why an interrupted installation or uninstallation can be undone.
//!
//! The files that a transaction touches are modelled as a map from paths to the
//! digests of what is there, each a regular file owned by root, which nobody
//! else changes.

use vstd::prelude::*;

use super::installation::{
    FileFactsView, FileStepView, InstallationFault, RecordFactsView, RemovalFactsView,
};
use super::journal::{
    record_paths, removed_paths, stage_name, uninstall_stage_name, InstallationJournal,
    InstallationRecord, UninstallationJournal, UninstallationRecord,
};
use super::manifest::{file_paths, lemma_product_places, place_ok, product_files};
use super::product::{identifier, identifier_char, ManagedProductOptions};
use crate::search::lemma_none_failing;
use crate::text;
use crate::text::opt;
use crate::unix_path;
use crate::unix_path::{path, PathView};

verus! {

/// The files on disk: what digest is at which path.
pub type Files = Map<PathView, Seq<char>>;

/// The digest of the file at a path, where there is one.
pub open spec fn at(files: Files, p: PathView) -> Option<Seq<char>> {
    if files.contains_key(p) {
        Some(files[p])
    } else {
        None
    }
}

/// What is found at a path.
pub open spec fn facts_at(files: Files, p: PathView) -> FileFactsView {
    FileFactsView {
        present: files.contains_key(p),
        exists: files.contains_key(p),
        installed: files.contains_key(p),
        digest: at(files, p),
    }
}

/// The files after one step.
pub open spec fn apply(files: Files, step: FileStepView) -> Files {
    match step {
        FileStepView::Rename { from, to } => if files.contains_key(from) {
            files.remove(from).insert(to, files[from])
        } else {
            files
        },
        FileStepView::Remove { file } => files.remove(file),
        FileStepView::SyncParent { file } => files,
    }
}

/// The files after steps.
pub open spec fn run(files: Files, steps: Seq<FileStepView>) -> Files
    decreases steps.len(),
{
    if steps.len() == 0 {
        files
    } else {
        apply(run(files, steps.drop_last()), steps.last())
    }
}

/// Whether a step can change what is at a path.
pub open spec fn mentions(step: FileStepView, p: PathView) -> bool {
    match step {
        FileStepView::Rename { from, to } => from == p || to == p,
        FileStepView::Remove { file } => file == p,
        FileStepView::SyncParent { file } => false,
    }
}

proof fn lemma_run_frame(files: Files, steps: Seq<FileStepView>, p: PathView)
    requires
        forall|i: int| 0 <= i < steps.len() ==> !mentions(#[trigger] steps[i], p),
    ensures
        at(run(files, steps), p) == at(files, p),
    decreases steps.len(),
{
    if steps.len() > 0 {
        let front = steps.drop_last();
        assert forall|i: int| 0 <= i < front.len() implies !mentions(#[trigger] front[i], p) by {
            assert(!mentions(steps[i], p));
        }
        lemma_run_frame(files, front, p);
        assert(!mentions(steps[steps.len() - 1], p));
    }
}

// ---------------------------------------------------------------------------
// Installations
// ---------------------------------------------------------------------------

/// Whether a path is one of the three of a record.
pub open spec fn in_record(r: InstallationRecord, p: PathView) -> bool {
    p == path(r.destination@) || p == path(r.staged@) || p == path(r.backup@)
}

/// What is found at the paths of a record.
pub open spec fn record_facts(files: Files, r: InstallationRecord) -> RecordFactsView {
    RecordFactsView {
        destination: facts_at(files, path(r.destination@)),
        staged_exists: files.contains_key(path(r.staged@)),
        backup_exists: files.contains_key(path(r.backup@)),
    }
}

/// Whether a record's file is untouched: the original is in place, and its
/// replacement, where there is one, is staged.
pub open spec fn staged(files: Files, r: InstallationRecord) -> bool {
    &&& at(files, path(r.destination@)) == opt(r.original_digest)
    &&& at(files, path(r.staged@)) == opt(r.new_digest)
    &&& at(files, path(r.backup@)) is None
}

/// Whether a record's file is in a state that an interruption can leave: not
/// staged yet, staged, its original kept, or replaced.
pub open spec fn recoverable(files: Files, r: InstallationRecord) -> bool {
    let d = at(files, path(r.destination@));
    let s = at(files, path(r.staged@));
    let b = at(files, path(r.backup@));
    let original = opt(r.original_digest);
    let new = opt(r.new_digest);
    ||| d == original && b is None && (s == new || s is None)
    ||| original is Some && d is None && b == original && s == new
    ||| d == new && s is None && b == original
}

/// Whether a record's file is as a commit leaves it: what was staged is in
/// place, and the original is kept.
pub open spec fn replaced(files: Files, r: InstallationRecord) -> bool {
    &&& at(files, path(r.destination@)) == opt(r.new_digest)
    &&& at(files, path(r.staged@)) is None
    &&& at(files, path(r.backup@)) == opt(r.original_digest)
}

/// The files after the first `count` records were committed.
pub open spec fn committed(files: Files, records: Seq<InstallationRecord>, count: int) -> Files
    decreases count,
{
    if count <= 0 {
        files
    } else {
        run(committed(files, records, count - 1), records[count - 1].commit_steps())
    }
}

/// The files when a commit is cut off after `count` records and the first
/// `steps` steps of the next.
pub open spec fn cut_off(
    files: Files,
    records: Seq<InstallationRecord>,
    count: int,
    steps: int,
) -> Files {
    if count < records.len() {
        run(committed(files, records, count), records[count].commit_steps().take(steps))
    } else {
        committed(files, records, count)
    }
}

/// The files after the first `count` records were rolled back, the last of them
/// first, or the fault that stopped it.
pub open spec fn rolled_back(
    files: Files,
    records: Seq<InstallationRecord>,
    count: int,
) -> Result<Files, InstallationFault>
    decreases count,
{
    if count <= 0 {
        Ok(files)
    } else {
        match records[count - 1].rollback_plan(record_facts(files, records[count - 1])) {
            Err(fault) => Err(fault),
            Ok(steps) => rolled_back(run(files, steps), records, count - 1),
        }
    }
}

/// The three paths of each record differ from one another and from those of
/// every other record.
pub open spec fn apart(records: Seq<InstallationRecord>) -> bool {
    &&& forall|i: int|
        0 <= i < records.len() ==> {
            let r = #[trigger] records[i];
            &&& path(r.destination@) != path(r.staged@)
            &&& path(r.destination@) != path(r.backup@)
            &&& path(r.staged@) != path(r.backup@)
        }
    &&& forall|i: int, j: int, p: PathView|
        0 <= i < records.len() && 0 <= j < records.len() && i != j && #[trigger] in_record(
            records[i],
            p,
        ) ==> !#[trigger] in_record(records[j], p)
}

proof fn lemma_rollback_record(files: Files, r: InstallationRecord)
    requires
        recoverable(files, r),
        path(r.destination@) != path(r.staged@),
        path(r.destination@) != path(r.backup@),
        path(r.staged@) != path(r.backup@),
    ensures
        r.rollback_plan(record_facts(files, r)) matches Ok(steps) && {
            let after = run(files, steps);
            &&& at(after, path(r.destination@)) == opt(r.original_digest)
            &&& at(after, path(r.backup@)) is None
            &&& forall|p: PathView| !in_record(r, p) ==> at(after, p) == #[trigger] at(files, p)
        },
{
    reveal_with_fuel(run, 4);
    let plan = r.rollback_plan(record_facts(files, r));
    let steps = plan->Ok_0;
    assert forall|p: PathView| !in_record(r, p) implies at(run(files, steps), p) == #[trigger] at(
        files,
        p,
    ) by {
        lemma_run_frame(files, steps, p);
    }
}

proof fn lemma_commit_record(files: Files, r: InstallationRecord, steps: int)
    requires
        staged(files, r),
        path(r.destination@) != path(r.staged@),
        path(r.destination@) != path(r.backup@),
        path(r.staged@) != path(r.backup@),
        0 <= steps <= r.commit_steps().len(),
    ensures
        recoverable(run(files, r.commit_steps().take(steps)), r),
        steps == r.commit_steps().len() ==> replaced(run(files, r.commit_steps().take(steps)), r),
        forall|p: PathView|
            !in_record(r, p) ==> at(run(files, r.commit_steps().take(steps)), p) == #[trigger] at(
                files,
                p,
            ),
{
    reveal_with_fuel(run, 4);
    let taken = r.commit_steps().take(steps);
    assert forall|p: PathView| !in_record(r, p) implies at(run(files, taken), p) == #[trigger] at(
        files,
        p,
    ) by {
        lemma_run_frame(files, taken, p);
    }
}

proof fn lemma_committed(files: Files, records: Seq<InstallationRecord>, count: int)
    requires
        apart(records),
        forall|i: int| 0 <= i < records.len() ==> staged(files, #[trigger] records[i]),
        0 <= count <= records.len(),
    ensures
        forall|i: int|
            0 <= i < count ==> replaced(committed(files, records, count), #[trigger] records[i]),
        forall|i: int|
            count <= i < records.len() ==> staged(
                committed(files, records, count),
                #[trigger] records[i],
            ),
        forall|p: PathView|
            (forall|i: int| 0 <= i < records.len() ==> !in_record(#[trigger] records[i], p))
                ==> at(committed(files, records, count), p) == #[trigger] at(files, p),
    decreases count,
{
    if count > 0 {
        lemma_committed(files, records, count - 1);
        let before = committed(files, records, count - 1);
        let r = records[count - 1];
        let n = r.commit_steps().len() as int;
        assert(r.commit_steps().take(n) =~= r.commit_steps());
        lemma_commit_record(before, r, n);
        let after = committed(files, records, count);
        assert forall|i: int| 0 <= i < records.len() && i != count - 1 implies at(
            after,
            path((#[trigger] records[i]).destination@),
        ) == at(before, path(records[i].destination@)) && at(after, path(records[i].staged@))
            == at(before, path(records[i].staged@)) && at(after, path(records[i].backup@)) == at(
            before,
            path(records[i].backup@),
        ) by {
            assert(in_record(records[i], path(records[i].destination@)));
            assert(in_record(records[i], path(records[i].staged@)));
            assert(in_record(records[i], path(records[i].backup@)));
        }
        assert forall|i: int| 0 <= i < count implies replaced(after, #[trigger] records[i]) by {
            if i < count - 1 {
                assert(replaced(before, records[i]));
            }
        }
        assert forall|i: int| count <= i < records.len() implies staged(
            after,
            #[trigger] records[i],
        ) by {
            assert(staged(before, records[i]));
        }
        assert forall|p: PathView|
            (forall|i: int| 0 <= i < records.len() ==> !in_record(#[trigger] records[i], p)) implies
            at(after, p) == #[trigger] at(files, p) by {
            assert(!in_record(records[count - 1], p));
        }
    }
}

proof fn lemma_rolled_back(files: Files, records: Seq<InstallationRecord>, count: int)
    requires
        apart(records),
        0 <= count <= records.len(),
        forall|i: int| 0 <= i < count ==> recoverable(files, #[trigger] records[i]),
    ensures
        rolled_back(files, records, count) matches Ok(after) && {
            &&& forall|i: int|
                0 <= i < count ==> at(after, path((#[trigger] records[i]).destination@)) == opt(
                    records[i].original_digest,
                ) && at(after, path(records[i].backup@)) is None
            &&& forall|p: PathView|
                (forall|i: int| 0 <= i < count ==> !in_record(#[trigger] records[i], p)) ==> at(
                    after,
                    p,
                ) == #[trigger] at(files, p)
        },
    decreases count,
{
    if count > 0 {
        let r = records[count - 1];
        assert(recoverable(files, r));
        lemma_rollback_record(files, r);
        let middle = run(files, r.rollback_plan(record_facts(files, r))->Ok_0);
        assert forall|i: int| 0 <= i < count - 1 implies recoverable(
            middle,
            #[trigger] records[i],
        ) by {
            assert(recoverable(files, records[i]));
            assert(in_record(records[i], path(records[i].destination@)));
            assert(in_record(records[i], path(records[i].staged@)));
            assert(in_record(records[i], path(records[i].backup@)));
        }
        lemma_rolled_back(middle, records, count - 1);
        let after = rolled_back(files, records, count)->Ok_0;
        assert forall|i: int| 0 <= i < count implies at(
            after,
            path((#[trigger] records[i]).destination@),
        ) == opt(records[i].original_digest) && at(after, path(records[i].backup@)) is None by {
            if i == count - 1 {
                assert(in_record(r, path(r.destination@)));
                assert(in_record(r, path(r.backup@)));
                assert(at(after, path(r.destination@)) == at(middle, path(r.destination@)));
                assert(at(after, path(r.backup@)) == at(middle, path(r.backup@)));
            }
        }
        assert forall|p: PathView|
            (forall|i: int| 0 <= i < count ==> !in_record(#[trigger] records[i], p)) implies at(
            after,
            p,
        ) == #[trigger] at(files, p) by {
            assert(!in_record(records[count - 1], p));
            assert(at(middle, p) == at(files, p));
        }
    }
}

/// The directories of managed files have three parts each.
proof fn lemma_directory_depth()
    ensures
        path("/usr/local/bin"@).parts.len() == 3,
        path("/etc/systemd/system"@).parts.len() == 3,
{
    reveal_strlit("/usr/local/bin");
    reveal_strlit("/etc/systemd/system");
    reveal_strlit("usr");
    reveal_strlit("local");
    reveal_strlit("bin");
    reveal_strlit("etc");
    reveal_strlit("systemd");
    reveal_strlit("system");
    let a: Seq<Seq<char>> = seq!["usr"@, "local"@, "bin"@];
    let b: Seq<Seq<char>> = seq!["etc"@, "systemd"@, "system"@];
    reveal_with_fuel(unix_path::slashed, 4);
    assert(a.drop_last().drop_last().drop_last() =~= seq![]);
    assert(b.drop_last().drop_last().drop_last() =~= seq![]);
    assert(unix_path::rendered(a) =~= "/usr/local/bin"@);
    assert(unix_path::rendered(b) =~= "/etc/systemd/system"@);
    assert forall|i: int| 0 <= i < 3 implies unix_path::is_part(#[trigger] a[i]) by {}
    assert forall|i: int| 0 <= i < 3 implies unix_path::is_part(#[trigger] b[i]) by {}
    unix_path::lemma_rendered(a);
    unix_path::lemma_rendered(b);
}

/// The names of staging directories are single parts.
proof fn lemma_stage_parts(stage: Seq<char>)
    requires
        stage.len() > 1,
        !stage.contains('/'),
    ensures
        path(stage).parts == seq![stage],
{
    unix_path::lemma_split_single(stage, '/');
    reveal_with_fuel(unix_path::counted, 2);
    let pieces = text::split(stage, '/');
    assert(pieces.drop_last() =~= seq![]);
    assert(path(stage).parts =~= seq![stage]);
}

pub proof fn lemma_stage_names(product: Seq<char>, job: super::protocol::JobId)
    requires
        identifier(product),
    ensures
        path(stage_name(product, job)).parts == seq![stage_name(product, job)],
        path(uninstall_stage_name(product, job)).parts == seq![uninstall_stage_name(product, job)],
{
    reveal_strlit(".capulus-");
    reveal_strlit("-");
    reveal_strlit("-uninstall-");
    text::lemma_hex_len(job@);
    let h = text::hex(job@);
    let a = stage_name(product, job);
    let b = uninstall_stage_name(product, job);
    assert forall|i: int| 0 <= i < a.len() implies a[i] != '/' by {
        if 9 <= i < 9 + product.len() {
            assert(identifier_char(product[i - 9]));
        } else if i >= 10 + product.len() {
            assert(text::is_lower_hex(h[i - 10 - product.len()]));
        }
    }
    assert forall|i: int| 0 <= i < b.len() implies b[i] != '/' by {
        if 9 <= i < 9 + product.len() {
            assert(identifier_char(product[i - 9]));
        } else if i >= 20 + product.len() {
            assert(text::is_lower_hex(h[i - 20 - product.len()]));
        }
    }
    lemma_stage_parts(a);
    lemma_stage_parts(b);
}

/// The records of a journal that can be trusted have paths apart.
proof fn lemma_apart(journal: InstallationJournal, product: Seq<char>)
    requires
        identifier(product),
        journal.trusted(product),
    ensures
        apart(journal.records@),
{
    let records = journal.records@;
    let ok = |i: int| journal.record_ok(product, i);
    lemma_none_failing(ok, records.len(), 0);
    lemma_directory_depth();
    lemma_stage_names(product, journal.job);
    reveal_strlit("new");
    reveal_strlit("old");
    assert("new"@ != "old"@) by {
        assert("new"@[0] != "old"@[0]);
    }
    assert forall|i: int| 0 <= i < records.len() implies {
        let r = #[trigger] records[i];
        &&& path(r.destination@).parts.len() == 4
        &&& path(r.staged@).parts.len() == 6 && path(r.staged@).parts[4] == "new"@
        &&& path(r.backup@).parts.len() == 6 && path(r.backup@).parts[4] == "old"@
        &&& path(r.destination@).absolute
    } by {
        assert(ok(i));
    }
    assert forall|i: int, j: int, p: PathView|
        0 <= i < records.len() && 0 <= j < records.len() && i != j && #[trigger] in_record(
            records[i],
            p,
        ) implies !#[trigger] in_record(records[j], p) by {
        assert(ok(i));
        assert(ok(j));
        let di = path(records[i].destination@);
        let dj = path(records[j].destination@);
        if di == dj {
            let (a, b) = if i < j {
                (i, j)
            } else {
                (j, i)
            };
            assert(ok(b));
            assert(record_paths(records).take(b)[a] == path(records[a].destination@));
            assert(record_paths(records).take(b).contains(path(records[b].destination@)));
        }
        let si = path(records[i].staged@);
        let sj = path(records[j].staged@);
        let bi = path(records[i].backup@);
        let bj = path(records[j].backup@);
        if si == sj || bi == bj {
            let x = if si == sj {
                si
            } else {
                bi
            };
            assert(di.parts =~= x.parts.take(3).push(x.parts[5]));
            assert(dj.parts =~= x.parts.take(3).push(x.parts[5]));
        }
    }
}

/// Whatever an interruption leaves of a journal's files, whether they were not
/// staged yet, staged, kept or replaced, rolling back succeeds, puts every
/// original back in place and changes no other file.
pub proof fn law_rollback_restores_originals(
    journal: InstallationJournal,
    product: Seq<char>,
    files: Files,
)
    requires
        identifier(product),
        journal.trusted(product),
        forall|i: int|
            0 <= i < journal.records@.len() ==> recoverable(files, #[trigger] journal.records@[i]),
    ensures
        rolled_back(files, journal.records@, journal.records@.len() as int) matches Ok(after) && {
            &&& forall|i: int|
                0 <= i < journal.records@.len() ==> at(
                    after,
                    path((#[trigger] journal.records@[i]).destination@),
                ) == opt(journal.records@[i].original_digest)
            &&& forall|p: PathView|
                (forall|i: int|
                    0 <= i < journal.records@.len() ==> !in_record(
                        #[trigger] journal.records@[i],
                        p,
                    )) ==> at(after, p) == #[trigger] at(files, p)
        },
{
    lemma_apart(journal, product);
    lemma_rolled_back(files, journal.records@, journal.records@.len() as int);
}

/// A commit that is cut off at any point, after any number of files and any
/// number of steps of the next, is undone by rolling back: every original is
/// back in place, and no file outside the transaction has changed since before
/// the commit.
pub proof fn law_cut_off_commit_is_undone(
    journal: InstallationJournal,
    product: Seq<char>,
    files: Files,
    count: int,
    steps: int,
)
    requires
        identifier(product),
        journal.trusted(product),
        forall|i: int|
            0 <= i < journal.records@.len() ==> staged(files, #[trigger] journal.records@[i]),
        0 <= count <= journal.records@.len(),
        count < journal.records@.len() ==> 0 <= steps
            <= journal.records@[count].commit_steps().len(),
    ensures
        rolled_back(
            cut_off(files, journal.records@, count, steps),
            journal.records@,
            journal.records@.len() as int,
        ) matches Ok(after) && {
            &&& forall|i: int|
                0 <= i < journal.records@.len() ==> at(
                    after,
                    path((#[trigger] journal.records@[i]).destination@),
                ) == opt(journal.records@[i].original_digest)
            &&& forall|p: PathView|
                (forall|i: int|
                    0 <= i < journal.records@.len() ==> !in_record(
                        #[trigger] journal.records@[i],
                        p,
                    )) ==> at(after, p) == #[trigger] at(files, p)
        },
{
    let records = journal.records@;
    lemma_apart(journal, product);
    lemma_committed(files, records, count);
    let before = committed(files, records, count);
    let cut = cut_off(files, records, count, steps);
    if count < records.len() {
        lemma_commit_record(before, records[count], steps);
    }
    assert forall|i: int| 0 <= i < records.len() implies recoverable(cut, #[trigger] records[i]) by {
        if count < records.len() && i != count {
            assert(in_record(records[i], path(records[i].destination@)));
            assert(in_record(records[i], path(records[i].staged@)));
            assert(in_record(records[i], path(records[i].backup@)));
            assert(at(cut, path(records[i].destination@)) == at(
                before,
                path(records[i].destination@),
            ));
            assert(at(cut, path(records[i].staged@)) == at(before, path(records[i].staged@)));
            assert(at(cut, path(records[i].backup@)) == at(before, path(records[i].backup@)));
        }
    }
    assert forall|p: PathView|
        (forall|i: int| 0 <= i < records.len() ==> !in_record(#[trigger] records[i], p)) implies at(
        cut,
        p,
    ) == #[trigger] at(files, p) by {
        if count < records.len() {
            assert(!in_record(records[count], p));
            assert(at(cut, p) == at(before, p));
        }
    }
    law_rollback_restores_originals(journal, product, cut);
    let after = rolled_back(cut, records, records.len() as int)->Ok_0;
    assert forall|p: PathView|
        (forall|i: int| 0 <= i < records.len() ==> !in_record(#[trigger] records[i], p)) implies at(
        after,
        p,
    ) == #[trigger] at(files, p) by {
        assert(at(cut, p) == at(files, p));
    }
}

/// The files after the records behind the first `left` were rolled back, the
/// last of them first, or the fault that stopped it.
pub open spec fn rolled_back_until(
    files: Files,
    records: Seq<InstallationRecord>,
    count: int,
    left: int,
) -> Result<Files, InstallationFault>
    decreases count,
{
    if count <= left || count <= 0 {
        Ok(files)
    } else {
        match records[count - 1].rollback_plan(record_facts(files, records[count - 1])) {
            Err(fault) => Err(fault),
            Ok(steps) => rolled_back_until(run(files, steps), records, count - 1, left),
        }
    }
}

/// The steps that roll a record back, where there are some.
pub open spec fn rollback_steps(files: Files, r: InstallationRecord) -> Seq<FileStepView> {
    match r.rollback_plan(record_facts(files, r)) {
        Ok(steps) => steps,
        Err(_) => seq![],
    }
}

/// Whether a rollback of a record is cut off after the new file was removed and
/// before the original was put back.
pub open spec fn cut_while_neither_is_in_place(steps: Seq<FileStepView>, taken: int) -> bool {
    taken == 1 && steps.len() > 1 && steps[0] is Remove && steps[1] is Rename
}

/// The files when a rollback is cut off: the records behind the first `left` are
/// rolled back, and the first `taken` steps of the next one are done.
pub open spec fn cut_off_rollback(
    files: Files,
    records: Seq<InstallationRecord>,
    left: int,
    taken: int,
) -> Files {
    let reached = rolled_back_until(files, records, records.len() as int, left)->Ok_0;
    if left > 0 {
        run(reached, rollback_steps(reached, records[left - 1]).take(taken))
    } else {
        reached
    }
}

proof fn lemma_cut_off_record(files: Files, r: InstallationRecord, taken: int)
    requires
        recoverable(files, r),
        path(r.destination@) != path(r.staged@),
        path(r.destination@) != path(r.backup@),
        path(r.staged@) != path(r.backup@),
        0 <= taken <= rollback_steps(files, r).len(),
        !cut_while_neither_is_in_place(rollback_steps(files, r), taken),
    ensures
        recoverable(run(files, rollback_steps(files, r).take(taken)), r),
        forall|p: PathView|
            !in_record(r, p) ==> at(run(files, rollback_steps(files, r).take(taken)), p)
                == #[trigger] at(files, p),
{
    reveal_with_fuel(run, 4);
    lemma_rollback_record(files, r);
    let steps = rollback_steps(files, r).take(taken);
    assert forall|p: PathView| !in_record(r, p) implies at(run(files, steps), p) == #[trigger] at(
        files,
        p,
    ) by {
        lemma_run_frame(files, steps, p);
    }
}

proof fn lemma_rolled_back_until(
    files: Files,
    records: Seq<InstallationRecord>,
    count: int,
    left: int,
)
    requires
        apart(records),
        0 <= left <= count <= records.len(),
        forall|i: int| 0 <= i < records.len() ==> recoverable(files, #[trigger] records[i]),
    ensures
        rolled_back_until(files, records, count, left) matches Ok(after) && {
            &&& forall|i: int|
                0 <= i < records.len() ==> recoverable(after, #[trigger] records[i])
            &&& forall|p: PathView|
                (forall|i: int| 0 <= i < records.len() ==> !in_record(#[trigger] records[i], p))
                    ==> at(after, p) == #[trigger] at(files, p)
        },
    decreases count,
{
    if count > left {
        let r = records[count - 1];
        let steps = rollback_steps(files, r);
        lemma_rollback_record(files, r);
        assert(steps.take(steps.len() as int) =~= steps);
        lemma_cut_off_record(files, r, steps.len() as int);
        let middle = run(files, steps);
        lemma_others_recoverable(files, middle, records, count - 1);
        lemma_rolled_back_until(middle, records, count - 1, left);
        let after = rolled_back_until(files, records, count, left)->Ok_0;
        assert forall|p: PathView|
            (forall|i: int| 0 <= i < records.len() ==> !in_record(#[trigger] records[i], p)) implies
            at(after, p) == #[trigger] at(files, p) by {
            assert(!in_record(records[count - 1], p));
            assert(at(middle, p) == at(files, p));
        }
    }
}

proof fn lemma_others_recoverable(
    files: Files,
    after: Files,
    records: Seq<InstallationRecord>,
    k: int,
)
    requires
        apart(records),
        0 <= k < records.len(),
        recoverable(after, records[k]),
        forall|i: int| 0 <= i < records.len() ==> recoverable(files, #[trigger] records[i]),
        forall|p: PathView| !in_record(records[k], p) ==> at(after, p) == #[trigger] at(files, p),
    ensures
        forall|i: int| 0 <= i < records.len() ==> recoverable(after, #[trigger] records[i]),
{
    assert forall|i: int| 0 <= i < records.len() implies recoverable(
        after,
        #[trigger] records[i],
    ) by {
        if i != k {
            assert(recoverable(files, records[i]));
            assert(in_record(records[i], path(records[i].destination@)));
            assert(in_record(records[i], path(records[i].staged@)));
            assert(in_record(records[i], path(records[i].backup@)));
            assert(at(after, path(records[i].destination@)) == at(
                files,
                path(records[i].destination@),
            ));
            assert(at(after, path(records[i].staged@)) == at(files, path(records[i].staged@)));
            assert(at(after, path(records[i].backup@)) == at(files, path(records[i].backup@)));
        }
    }
}

/// A rollback that is itself cut off, after any number of records and any number
/// of steps of the next, is completed by rolling back again: every original is
/// back in place, and no file outside the transaction has changed. The one point
/// at which it must not be cut off is where a new file is removed and its
/// original is not yet back.
pub proof fn law_cut_off_rollback_is_completed(
    journal: InstallationJournal,
    product: Seq<char>,
    files: Files,
    left: int,
    taken: int,
)
    requires
        identifier(product),
        journal.trusted(product),
        forall|i: int|
            0 <= i < journal.records@.len() ==> recoverable(files, #[trigger] journal.records@[i]),
        0 <= left <= journal.records@.len(),
        ({
            let reached = rolled_back_until(
                files,
                journal.records@,
                journal.records@.len() as int,
                left,
            )->Ok_0;
            let steps = rollback_steps(reached, journal.records@[left - 1]);
            left > 0 ==> 0 <= taken <= steps.len() && !cut_while_neither_is_in_place(steps, taken)
        }),
    ensures
        rolled_back(
            cut_off_rollback(files, journal.records@, left, taken),
            journal.records@,
            journal.records@.len() as int,
        ) matches Ok(after) && {
            &&& forall|i: int|
                0 <= i < journal.records@.len() ==> at(
                    after,
                    path((#[trigger] journal.records@[i]).destination@),
                ) == opt(journal.records@[i].original_digest)
            &&& forall|p: PathView|
                (forall|i: int|
                    0 <= i < journal.records@.len() ==> !in_record(
                        #[trigger] journal.records@[i],
                        p,
                    )) ==> at(after, p) == #[trigger] at(files, p)
        },
{
    let records = journal.records@;
    let n = records.len() as int;
    lemma_apart(journal, product);
    lemma_rolled_back_until(files, records, n, left);
    let reached = rolled_back_until(files, records, n, left)->Ok_0;
    let cut = cut_off_rollback(files, records, left, taken);
    if left > 0 {
        let r = records[left - 1];
        assert(recoverable(reached, r));
        lemma_cut_off_record(reached, r, taken);
        lemma_others_recoverable(reached, cut, records, left - 1);
    }
    law_rollback_restores_originals(journal, product, cut);
    let after = rolled_back(cut, records, n)->Ok_0;
    assert forall|p: PathView|
        (forall|i: int| 0 <= i < records.len() ==> !in_record(#[trigger] records[i], p)) implies at(
        after,
        p,
    ) == #[trigger] at(files, p) by {
        assert(at(reached, p) == at(files, p));
        if left > 0 {
            assert(!in_record(records[left - 1], p));
        }
        assert(at(cut, p) == at(files, p));
    }
}

/// A commit of staged files that nobody disturbs is refused at no file, and
/// leaves every file as an accepted installation must have it.
pub proof fn law_commit_installs_staged_files(
    journal: InstallationJournal,
    product: Seq<char>,
    files: Files,
)
    requires
        identifier(product),
        journal.trusted(product),
        forall|i: int|
            0 <= i < journal.records@.len() ==> staged(files, #[trigger] journal.records@[i]),
    ensures
        forall|i: int|
            0 <= i < journal.records@.len() ==> {
                let r = #[trigger] journal.records@[i];
                r.commit_check(
                    facts_at(committed(files, journal.records@, i), path(r.destination@)),
                ) is None
            },
        forall|i: int|
            0 <= i < journal.records@.len() ==> {
                let r = #[trigger] journal.records@[i];
                let done = committed(files, journal.records@, journal.records@.len() as int);
                &&& at(done, path(r.destination@)) == opt(r.new_digest)
                &&& r.accepted_check(facts_at(done, path(r.destination@))) is None
            },
{
    let records = journal.records@;
    lemma_apart(journal, product);
    assert forall|i: int| 0 <= i < records.len() implies (#[trigger] records[i]).commit_check(
        facts_at(committed(files, records, i), path(records[i].destination@)),
    ) is None by {
        lemma_committed(files, records, i);
        assert(staged(committed(files, records, i), records[i]));
    }
    lemma_committed(files, records, records.len() as int);
    let done = committed(files, records, records.len() as int);
    assert forall|i: int| 0 <= i < records.len() implies at(
        done,
        path((#[trigger] records[i]).destination@),
    ) == opt(records[i].new_digest) && records[i].accepted_check(
        facts_at(done, path(records[i].destination@)),
    ) is None by {
        assert(replaced(done, records[i]));
    }
}

// ---------------------------------------------------------------------------
// Uninstallations
// ---------------------------------------------------------------------------

/// Whether a path is one of the two of a record of an uninstallation.
pub open spec fn in_removal(r: UninstallationRecord, p: PathView) -> bool {
    p == path(r.destination@) || p == path(r.backup@)
}

/// What is found at the paths of a record of an uninstallation.
pub open spec fn removal_facts(files: Files, r: UninstallationRecord) -> RemovalFactsView {
    RemovalFactsView {
        destination: facts_at(files, path(r.destination@)),
        backup: facts_at(files, path(r.backup@)),
    }
}

/// Whether a record's file is in place.
pub open spec fn in_place(files: Files, r: UninstallationRecord) -> bool {
    at(files, path(r.destination@)) == Some(r.digest@) && at(files, path(r.backup@)) is None
}

/// Whether a record's file was moved to its backup.
pub open spec fn moved(files: Files, r: UninstallationRecord) -> bool {
    at(files, path(r.destination@)) is None && at(files, path(r.backup@)) == Some(r.digest@)
}

/// The files after the first `count` records were removed.
pub open spec fn removed(files: Files, records: Seq<UninstallationRecord>, count: int) -> Files
    decreases count,
{
    if count <= 0 {
        files
    } else {
        run(removed(files, records, count - 1), records[count - 1].removal_steps())
    }
}

/// The files after the first `count` records were restored, the last of them
/// first, or the fault that stopped it. The journal counts the first `noted`
/// records as removed.
pub open spec fn restored(
    files: Files,
    records: Seq<UninstallationRecord>,
    noted: int,
    count: int,
) -> Result<Files, InstallationFault>
    decreases count,
{
    if count <= 0 {
        Ok(files)
    } else {
        let r = records[count - 1];
        match r.restore_plan(count - 1 < noted, removal_facts(files, r)) {
            Err(fault) => Err(fault),
            Ok(steps) => restored(run(files, steps), records, noted, count - 1),
        }
    }
}

/// The two paths of each record differ from one another and from those of every
/// other record.
pub open spec fn removals_apart(records: Seq<UninstallationRecord>) -> bool {
    &&& forall|i: int|
        0 <= i < records.len() ==> path((#[trigger] records[i]).destination@) != path(
            records[i].backup@,
        )
    &&& forall|i: int, j: int, p: PathView|
        0 <= i < records.len() && 0 <= j < records.len() && i != j && #[trigger] in_removal(
            records[i],
            p,
        ) ==> !#[trigger] in_removal(records[j], p)
}

/// The files of a product have absolute paths with four parts each.
proof fn lemma_product_paths(o: ManagedProductOptions)
    requires
        o.accepted(),
    ensures
        forall|i: int|
            0 <= i < file_paths(product_files(o)).len() ==> (#[trigger] file_paths(
                product_files(o),
            )[i]).parts.len() == 4,
{
    let files = product_files(o);
    lemma_directory_depth();
    lemma_product_places(o);
    assert forall|i: int| 0 <= i < file_paths(files).len() implies (#[trigger] file_paths(
        files,
    )[i]).parts.len() == 4 by {
        assert(place_ok(o.product@, files[i]));
    }
}

/// The records of a journal that can be trusted have paths apart.
proof fn lemma_removals_apart(journal: UninstallationJournal, o: ManagedProductOptions)
    requires
        o.accepted(),
        journal.trusted(o),
    ensures
        removals_apart(journal.records@),
{
    let records = journal.records@;
    let product = o.product@;
    let ok = |i: int| journal.record_ok(product, i);
    lemma_none_failing(ok, records.len(), 0);
    lemma_product_paths(o);
    lemma_stage_names(product, journal.job);
    assert forall|i: int| 0 <= i < records.len() implies path(
        (#[trigger] records[i]).destination@,
    ).parts.len() == 4 && path(records[i].backup@).parts.len() == 6 by {
        assert(ok(i));
        assert(removed_paths(records)[i] == path(records[i].destination@));
        assert(removed_paths(records).to_set().contains(path(records[i].destination@)));
        let paths = file_paths(product_files(o));
        let k = choose|k: int| 0 <= k < paths.len() && paths[k] == path(records[i].destination@);
        assert(paths[k].parts.len() == 4);
    }
    assert forall|i: int, j: int, p: PathView|
        0 <= i < records.len() && 0 <= j < records.len() && i != j && #[trigger] in_removal(
            records[i],
            p,
        ) implies !#[trigger] in_removal(records[j], p) by {
        assert(ok(i));
        assert(ok(j));
        let di = path(records[i].destination@);
        let dj = path(records[j].destination@);
        if di == dj {
            let (a, b) = if i < j {
                (i, j)
            } else {
                (j, i)
            };
            assert(ok(b));
            assert(removed_paths(records).take(b)[a] == path(records[a].destination@));
            assert(removed_paths(records).take(b).contains(path(records[b].destination@)));
        }
        let bi = path(records[i].backup@);
        let bj = path(records[j].backup@);
        if bi == bj {
            assert(di.parts =~= bi.parts.take(3).push(bi.parts[5]));
            assert(dj.parts =~= bi.parts.take(3).push(bi.parts[5]));
        }
    }
}

proof fn lemma_remove_record(files: Files, r: UninstallationRecord)
    requires
        in_place(files, r),
        path(r.destination@) != path(r.backup@),
    ensures
        r.removal_check(facts_at(files, path(r.destination@))) is None,
        moved(run(files, r.removal_steps()), r),
        forall|p: PathView|
            !in_removal(r, p) ==> at(run(files, r.removal_steps()), p) == #[trigger] at(files, p),
{
    reveal_with_fuel(run, 3);
    let steps = r.removal_steps();
    assert(steps.drop_last() =~= seq![steps[0]]);
    assert(steps.drop_last().drop_last() =~= seq![]);
    assert forall|p: PathView| !in_removal(r, p) implies at(run(files, steps), p) == #[trigger] at(
        files,
        p,
    ) by {
        lemma_run_frame(files, steps, p);
    }
}

proof fn lemma_restore_record(files: Files, r: UninstallationRecord, noted: bool)
    requires
        moved(files, r) || (!noted && in_place(files, r)),
        path(r.destination@) != path(r.backup@),
    ensures
        r.restore_plan(noted, removal_facts(files, r)) matches Ok(steps) && {
            &&& in_place(run(files, steps), r)
            &&& forall|p: PathView|
                !in_removal(r, p) ==> at(run(files, steps), p) == #[trigger] at(files, p)
        },
{
    reveal_with_fuel(run, 3);
    let steps = r.restore_plan(noted, removal_facts(files, r))->Ok_0;
    assert forall|p: PathView| !in_removal(r, p) implies at(run(files, steps), p) == #[trigger] at(
        files,
        p,
    ) by {
        lemma_run_frame(files, steps, p);
    }
}

proof fn lemma_removed(files: Files, records: Seq<UninstallationRecord>, count: int)
    requires
        removals_apart(records),
        forall|i: int| 0 <= i < records.len() ==> in_place(files, #[trigger] records[i]),
        0 <= count <= records.len(),
    ensures
        forall|i: int|
            0 <= i < count ==> moved(removed(files, records, count), #[trigger] records[i]),
        forall|i: int|
            count <= i < records.len() ==> in_place(
                removed(files, records, count),
                #[trigger] records[i],
            ),
        forall|p: PathView|
            (forall|i: int| 0 <= i < records.len() ==> !in_removal(#[trigger] records[i], p))
                ==> at(removed(files, records, count), p) == #[trigger] at(files, p),
    decreases count,
{
    if count > 0 {
        lemma_removed(files, records, count - 1);
        let before = removed(files, records, count - 1);
        let r = records[count - 1];
        lemma_remove_record(before, r);
        let after = removed(files, records, count);
        assert forall|i: int| 0 <= i < records.len() && i != count - 1 implies at(
            after,
            path((#[trigger] records[i]).destination@),
        ) == at(before, path(records[i].destination@)) && at(after, path(records[i].backup@)) == at(
            before,
            path(records[i].backup@),
        ) by {
            assert(in_removal(records[i], path(records[i].destination@)));
            assert(in_removal(records[i], path(records[i].backup@)));
        }
        assert forall|i: int| 0 <= i < count implies moved(after, #[trigger] records[i]) by {
            if i < count - 1 {
                assert(moved(before, records[i]));
            }
        }
        assert forall|i: int| count <= i < records.len() implies in_place(
            after,
            #[trigger] records[i],
        ) by {
            assert(in_place(before, records[i]));
        }
        assert forall|p: PathView|
            (forall|i: int| 0 <= i < records.len() ==> !in_removal(#[trigger] records[i], p))
                implies at(after, p) == #[trigger] at(files, p) by {
            assert(!in_removal(records[count - 1], p));
        }
    }
}

proof fn lemma_restored(
    files: Files,
    records: Seq<UninstallationRecord>,
    noted: int,
    count: int,
)
    requires
        removals_apart(records),
        0 <= count <= records.len(),
        forall|i: int|
            0 <= i < count ==> moved(files, #[trigger] records[i]) || (i >= noted && in_place(
                files,
                records[i],
            )),
    ensures
        restored(files, records, noted, count) matches Ok(after) && {
            &&& forall|i: int| 0 <= i < count ==> in_place(after, #[trigger] records[i])
            &&& forall|p: PathView|
                (forall|i: int| 0 <= i < count ==> !in_removal(#[trigger] records[i], p)) ==> at(
                    after,
                    p,
                ) == #[trigger] at(files, p)
        },
    decreases count,
{
    if count > 0 {
        let r = records[count - 1];
        assert(moved(files, r) || (count - 1 >= noted && in_place(files, r)));
        lemma_restore_record(files, r, count - 1 < noted);
        let middle = run(
            files,
            r.restore_plan(count - 1 < noted, removal_facts(files, r))->Ok_0,
        );
        assert forall|i: int| 0 <= i < count - 1 implies moved(middle, #[trigger] records[i]) || (i
            >= noted && in_place(middle, records[i])) by {
            assert(moved(files, records[i]) || (i >= noted && in_place(files, records[i])));
            assert(in_removal(records[i], path(records[i].destination@)));
            assert(in_removal(records[i], path(records[i].backup@)));
        }
        lemma_restored(middle, records, noted, count - 1);
        let after = restored(files, records, noted, count)->Ok_0;
        assert forall|i: int| 0 <= i < count implies in_place(after, #[trigger] records[i]) by {
            if i == count - 1 {
                assert(in_removal(r, path(r.destination@)));
                assert(in_removal(r, path(r.backup@)));
                assert(at(after, path(r.destination@)) == at(middle, path(r.destination@)));
                assert(at(after, path(r.backup@)) == at(middle, path(r.backup@)));
            }
        }
        assert forall|p: PathView|
            (forall|i: int| 0 <= i < count ==> !in_removal(#[trigger] records[i], p)) implies at(
            after,
            p,
        ) == #[trigger] at(files, p) by {
            assert(!in_removal(records[count - 1], p));
            assert(at(middle, p) == at(files, p));
        }
    }
}

/// An uninstallation that is interrupted before its removal is committed is
/// undone: whether the journal already counts the last removed file or not,
/// restoring succeeds, every file is back in place, and no other file has
/// changed since before the removal.
pub proof fn law_interrupted_removal_is_undone(
    journal: UninstallationJournal,
    o: ManagedProductOptions,
    files: Files,
    count: int,
    noted: int,
)
    requires
        o.accepted(),
        journal.trusted(o),
        forall|i: int|
            0 <= i < journal.records@.len() ==> in_place(files, #[trigger] journal.records@[i]),
        0 <= noted <= count <= journal.records@.len(),
    ensures
        restored(
            removed(files, journal.records@, count),
            journal.records@,
            noted,
            journal.records@.len() as int,
        ) matches Ok(after) && {
            &&& forall|i: int|
                0 <= i < journal.records@.len() ==> in_place(after, #[trigger] journal.records@[i])
            &&& forall|p: PathView|
                (forall|i: int|
                    0 <= i < journal.records@.len() ==> !in_removal(
                        #[trigger] journal.records@[i],
                        p,
                    )) ==> at(after, p) == #[trigger] at(files, p)
        },
{
    let records = journal.records@;
    lemma_removals_apart(journal, o);
    lemma_removed(files, records, count);
    let cut = removed(files, records, count);
    lemma_restored(cut, records, noted, records.len() as int);
    let after = restored(cut, records, noted, records.len() as int)->Ok_0;
    assert forall|p: PathView|
        (forall|i: int| 0 <= i < records.len() ==> !in_removal(#[trigger] records[i], p)) implies
        at(after, p) == #[trigger] at(files, p) by {
        assert(at(cut, p) == at(files, p));
    }
}

} // verus!
