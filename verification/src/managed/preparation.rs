//! Preparing an installation: which files it touches, and the journal that it
//! starts from.

use vstd::prelude::*;

use super::installation::{FileFacts, FileFactsView, InstallationError, InstallationFault};
use super::journal::{
    destination_ok, digest_ok, found_path, installation_stage, is_digest, record_paths, removed_paths,
    stage_name, staged_parts, staged_path, uninstall_stage_name, uninstallation_stage, writes_path,
    InstallationJournal, InstallationRecord, UninstallationJournal, UninstallationRecord,
};
use super::manifest::{
    binary_file, binary_key, declared_binaries, declared_key, file_paths, file_views,
    files_have_path, lemma_directories_differ, lemma_product_places, manifest_binaries, place_ok,
    product_files, release_accepted, unit_name_ok, InstallationManifest, InstallationManifestView,
    ManagedFile, ManagedFileView,
};
use super::product::{
    service_name, system_unit_path, unit_path, ManagedProduct, ManagedProductOptions,
};
use super::protocol::JobId;
use super::recovery::lemma_stage_names;
use crate::digest;
use crate::search::{first_failing, lemma_first_failing, lemma_none_failing};
use crate::text;
use crate::text::{opt, texts};
use crate::unix_path;
use crate::unix_path::{path, PathView};
use crate::version::VersionView;

verus! {

/// A file that an installation touches: one of the manifest, or one that the
/// product had and the manifest has not.
#[derive(Clone, Debug, PartialEq, Eq)]
pub struct PlannedFile {
    pub destination: String,
    pub file: Option<usize>,
}

/// What planned files say.
pub open spec fn planned_views(planned: Seq<PlannedFile>) -> Seq<(Seq<char>, Option<usize>)> {
    planned.map_values(|f: PlannedFile| (f.destination@, f.file))
}

/// The files of a manifest, each with its position.
pub open spec fn target_plan(files: Seq<ManagedFileView>) -> Seq<(Seq<char>, Option<usize>)> {
    Seq::new(files.len(), |i: int| (files[i].destination(), Some(i as usize)))
}

/// The files of a product whose paths are not among those of a manifest.
pub open spec fn retired_plan(
    current: Seq<ManagedFileView>,
    target: Seq<PathView>,
) -> Seq<(Seq<char>, Option<usize>)>
    decreases current.len(),
{
    if current.len() == 0 {
        Seq::empty()
    } else {
        let before = retired_plan(current.drop_last(), target);
        if target.contains(path(current.last().destination())) {
            before
        } else {
            before.push((current.last().destination(), None))
        }
    }
}

/// The files that an installation of a manifest touches.
pub open spec fn installation_plan(
    o: ManagedProductOptions,
    m: InstallationManifestView,
) -> Seq<(Seq<char>, Option<usize>)> {
    target_plan(m.files) + retired_plan(product_files(o), file_paths(m.files))
}

/// The files that an installation of a manifest touches: those of the manifest,
/// then those that the product had and the manifest has not.
pub fn plan_files(product: &ManagedProduct, manifest: &InstallationManifest) -> (out: Vec<
    PlannedFile,
>)
    ensures
        planned_views(out@) == installation_plan(product@, manifest@),
{
    let ghost target = file_paths(manifest@.files);
    assert(manifest@.files =~= file_views(manifest.files@));
    let mut out: Vec<PlannedFile> = Vec::new();
    let mut i: usize = 0;
    while i < manifest.files.len()
        invariant
            i <= manifest.files@.len(),
            manifest@.files == file_views(manifest.files@),
            planned_views(out@) == target_plan(manifest@.files).take(i as int),
        decreases manifest.files@.len() - i,
    {
        let ghost before = planned_views(out@);
        let file = PlannedFile {
            destination: manifest.files[i].destination().clone(),
            file: Some(i),
        };
        out.push(file);
        assert(planned_views(out@) =~= before.push((file.destination@, file.file)));
        i = i + 1;
        assert(target_plan(manifest@.files).take(i as int) =~= before.push(
            target_plan(manifest@.files)[i - 1],
        ));
    }
    assert(target_plan(manifest@.files).take(i as int) =~= target_plan(manifest@.files));
    let count: usize = manifest.files.len();
    assert(target.take(count as int) =~= target);
    let current = product.installation_manifest();
    assert(current@.files =~= file_views(current.files@));
    let ghost start = planned_views(out@);
    let mut j: usize = 0;
    assert(planned_views(out@) =~= start + retired_plan(current@.files.take(0), target));
    while j < current.files.len()
        invariant
            j <= current.files@.len(),
            count == manifest.files@.len(),
            manifest@.files == file_views(manifest.files@),
            current@.files == file_views(current.files@),
            target == file_paths(manifest@.files),
            target.take(count as int) == target,
            planned_views(out@) == start + retired_plan(current@.files.take(j as int), target),
        decreases current.files@.len() - j,
    {
        let ghost before = planned_views(out@);
        let ghost grown = current@.files.take(j + 1);
        assert(grown.drop_last() =~= current@.files.take(j as int));
        assert(grown.last() == current.files@[j as int]@);
        let destination = current.files[j].destination();
        if !files_have_path(&manifest.files, count, destination.as_str()) {
            let file = PlannedFile { destination: destination.clone(), file: None };
            out.push(file);
            assert(planned_views(out@) =~= before.push((destination@, None)));
        }
        assert(planned_views(out@) =~= start + retired_plan(grown, target));
        j = j + 1;
    }
    assert(current@.files.take(j as int) =~= current@.files);
    out
}

/// The fault of a destination at which nothing can be installed.
pub open spec fn plan_check(destination: PathView, f: FileFactsView) -> Option<InstallationFault> {
    if unix_path::parent(destination) is None {
        Some(InstallationFault::NoParent)
    } else if unix_path::file_name(destination) is None {
        Some(InstallationFault::NoFileName)
    } else if f.present && !f.installed {
        Some(InstallationFault::NotInstalledFile)
    } else if f.present && f.digest is None {
        Some(InstallationFault::Unreadable)
    } else {
        None
    }
}

/// The digest of what is at a destination before an installation.
pub open spec fn original_digest(f: FileFactsView) -> Option<Seq<char>> {
    if f.present {
        f.digest
    } else {
        None
    }
}

/// Whether a record is planned for a destination: its replacement and its
/// predecessor have their places in the staging directory beside it.
pub open spec fn record_planned(
    r: InstallationRecord,
    product: Seq<char>,
    job: JobId,
    destination: Seq<char>,
) -> bool {
    let stage = stage_name(product, job);
    &&& r.destination@ == destination
    &&& path(r.staged@) == staged_path(path(destination), stage, "new"@)
    &&& path(r.backup@) == staged_path(path(destination), stage, "old"@)
}

/// The text of a staged path of a destination.
fn staged_text(destination: &str, stage: &str, kind: &str) -> (r: Option<String>)
    requires
        unix_path::is_plain(path(destination@)),
        path(stage@).parts == seq![stage@],
        unix_path::is_part(stage@),
        unix_path::is_part(kind@),
    ensures
        r is Some <==> path(destination@).parts.len() > 0,
        r matches Some(s) ==> path(s@) == staged_path(path(destination@), stage@, kind@),
{
    match staged_parts(destination, stage, kind) {
        Some(list) => {
            proof {
                let all = texts(list@);
                let d = path(destination@);
                assert forall|i: int| 0 <= i < all.len() implies unix_path::is_part(
                    #[trigger] all[i],
                ) by {
                    let n = d.parts.len() - 1;
                    if i < n {
                        unix_path::lemma_parts_are_parts(destination@, i);
                    } else if i == n + 2 {
                        unix_path::lemma_parts_are_parts(destination@, n);
                    }
                }
                unix_path::lemma_rendered(all);
            }
            Some(unix_path::render(&list))
        },
        None => None,
    }
}

proof fn lemma_kinds()
    ensures
        unix_path::is_part("new"@),
        unix_path::is_part("old"@),
{
    reveal_strlit("new");
    reveal_strlit("old");
}

proof fn lemma_stage_is_part(stage: Seq<char>)
    requires
        path(stage).parts == seq![stage],
        stage.len() > 1,
    ensures
        unix_path::is_part(stage),
{
    // A slash in the text would make the only part shorter than the text.
    unix_path::lemma_single_part(stage);
}

/// Plans the record of one destination. `new_digest` is the digest of what will
/// be installed there, and `None` where the file is to be removed.
pub fn plan_record(
    product: &ManagedProduct,
    job: &JobId,
    destination: &String,
    new_digest: Option<String>,
    facts: &FileFacts,
) -> (r: Result<InstallationRecord, InstallationError>)
    requires
        unix_path::is_plain(path(destination@)),
    ensures
        match plan_check(path(destination@), facts@) {
            Some(fault) => r matches Err(e) && e.fault == fault && e.path == *destination,
            None => r matches Ok(record) && record_planned(
                record,
                product@.product@,
                *job,
                destination@,
            ) && record.new_digest == new_digest && opt(record.original_digest) == original_digest(
                facts@,
            ),
        },
{
    let o = product.declaration();
    let stage = installation_stage(o.product.as_str(), job);
    proof {
        lemma_stage_names(o.product@, *job);
        lemma_kinds();
        reveal_strlit(".capulus-");
        lemma_stage_is_part(stage@);
    }
    let staged = match staged_text(destination.as_str(), stage.as_str(), "new") {
        Some(s) => s,
        None => return Err(
            InstallationError { fault: InstallationFault::NoParent, path: destination.clone() },
        ),
    };
    let backup = match staged_text(destination.as_str(), stage.as_str(), "old") {
        Some(s) => s,
        None => return Err(
            InstallationError { fault: InstallationFault::NoParent, path: destination.clone() },
        ),
    };
    if unix_path::file_name_of(destination.as_str()).is_none() {
        return Err(
            InstallationError { fault: InstallationFault::NoFileName, path: destination.clone() },
        );
    }
    let original_digest = if facts.present {
        if !facts.installed {
            return Err(
                InstallationError {
                    fault: InstallationFault::NotInstalledFile,
                    path: destination.clone(),
                },
            );
        }
        match &facts.digest {
            Some(d) => Some(d.clone()),
            None => return Err(
                InstallationError {
                    fault: InstallationFault::Unreadable,
                    path: destination.clone(),
                },
            ),
        }
    } else {
        None
    };
    Ok(
        InstallationRecord {
            destination: destination.clone(),
            staged,
            backup,
            original_digest,
            new_digest,
        },
    )
}

/// The digest that a text file will have once it is installed.
pub fn contents_digest(contents: &str) -> (out: String)
    ensures
        out@ == digest::digest_text(vstd::utf8::encode_utf8(contents@)),
        is_digest(out@),
{
    let bytes = contents.as_bytes_vec();
    let out = digest::bytes_digest(&bytes);
    assert forall|i: int| 0 <= i < out@.len() implies super::journal::is_hex(#[trigger] out@[i]) by {
        assert(text::is_lower_hex(out@[i]));
    }
    out
}

/// Whether a journal is the one that an installation of a manifest starts from.
pub open spec fn journal_planned(
    j: InstallationJournal,
    o: ManagedProductOptions,
    m: InstallationManifestView,
) -> bool {
    let plan = installation_plan(o, m);
    &&& j.product@ == o.product@
    &&& texts(j.target_enable_units@) == m.enable_units
    &&& j.previous_service_file == found_path(
        j.records@,
        path(unit_path(service_name(o.product@))),
    )
    &&& j.committed_records == 0
    &&& !j.accepted
    &&& j.records@.len() == plan.len()
    &&& forall|i: int|
        0 <= i < plan.len() ==> {
            let r = #[trigger] j.records@[i];
            &&& record_planned(r, o.product@, j.job, plan[i].0)
            &&& r.new_digest is Some <==> plan[i].1 is Some
        }
}

/// Whether every digest in a journal is well formed.
pub open spec fn journal_digests_ok(j: InstallationJournal) -> bool {
    forall|i: int|
        0 <= i < j.records@.len() ==> digest_ok((#[trigger] j.records@[i]).original_digest)
            && digest_ok(j.records@[i].new_digest)
}

/// The journal that an installation of a manifest starts from, with the records
/// that were planned for its files.
pub fn plan_journal(
    product: &ManagedProduct,
    job: &JobId,
    manifest: &InstallationManifest,
    previously_enabled: Vec<String>,
    records: Vec<InstallationRecord>,
) -> (j: InstallationJournal)
    ensures
        j.product@ == product@.product@,
        j.job == *job,
        j.previously_enabled == previously_enabled,
        texts(j.target_enable_units@) == manifest@.enable_units,
        j.previous_service_file == found_path(
            records@,
            path(unit_path(service_name(product@.product@))),
        ),
        j.committed_records == 0,
        !j.accepted,
        j.records == records,
{
    let service = product.service_name();
    let file = system_unit_path(service.as_str());
    let previous_service_file = super::journal::found_file(&records, file.as_str());
    InstallationJournal {
        product: product.name().to_owned(),
        job: *job,
        previously_enabled,
        target_enable_units: text::copy_texts(&manifest.enable_units),
        previous_service_file,
        committed_records: 0,
        accepted: false,
        records,
    }
}

/// What was seen of a planned file: what is at its destination, and the digest
/// of the artifact that will be installed there, where it is a binary that
/// could be read.
#[derive(Clone, Debug, PartialEq, Eq)]
pub struct Observation {
    pub facts: FileFacts,
    pub artifact_digest: Option<String>,
}

/// The digest of what will be at a planned file, where something will be.
pub open spec fn planned_digest(
    m: InstallationManifestView,
    file: Option<usize>,
    seen: Observation,
) -> Option<Seq<char>> {
    match file {
        None => None,
        Some(k) => match m.files[k as int] {
            ManagedFileView::Binary { .. } => opt(seen.artifact_digest),
            ManagedFileView::Text { contents, .. } => Some(
                digest::digest_text(vstd::utf8::encode_utf8(contents)),
            ),
        },
    }
}

/// The fault of a planned file: an artifact that could not be read, or a
/// destination at which nothing can be installed.
pub open spec fn observation_check(
    m: InstallationManifestView,
    planned: (Seq<char>, Option<usize>),
    seen: Observation,
) -> Option<InstallationFault> {
    if planned.1 is Some && planned_digest(m, planned.1, seen) is None {
        Some(InstallationFault::Unreadable)
    } else {
        plan_check(path(planned.0), seen.facts@)
    }
}

/// The position of the first planned file with a fault, or their number.
pub open spec fn first_fault(
    m: InstallationManifestView,
    plan: Seq<(Seq<char>, Option<usize>)>,
    seen: Seq<Observation>,
) -> int {
    first_failing(|i: int| observation_check(m, plan[i], seen[i]) is None, plan.len(), 0)
}

/// Whether a record is the one for a planned file and what was seen of it.
pub open spec fn record_observed(
    r: InstallationRecord,
    product: Seq<char>,
    job: JobId,
    m: InstallationManifestView,
    planned: (Seq<char>, Option<usize>),
    seen: Observation,
) -> bool {
    &&& record_planned(r, product, job, planned.0)
    &&& opt(r.new_digest) == planned_digest(m, planned.1, seen)
    &&& opt(r.original_digest) == original_digest(seen.facts@)
}

/// Whether every digest that was seen is well formed.
pub open spec fn digests_seen_ok(seen: Seq<Observation>) -> bool {
    forall|i: int|
        0 <= i < seen.len() ==> digest_ok((#[trigger] seen[i]).artifact_digest) && digest_ok(
            seen[i].facts.digest,
        )
}

fn new_digest_of(
    manifest: &InstallationManifest,
    file: Option<usize>,
    seen: &Observation,
) -> (r: Option<String>)
    requires
        file matches Some(k) ==> k < manifest.files@.len(),
    ensures
        opt(r) == planned_digest(manifest@, file, *seen),
        digest_ok(seen.artifact_digest) ==> digest_ok(r),
{
    assert(manifest@.files =~= file_views(manifest.files@));
    match file {
        None => None,
        Some(k) => match &manifest.files[k] {
            ManagedFile::Binary { .. } => match &seen.artifact_digest {
                Some(d) => Some(d.clone()),
                None => None,
            },
            ManagedFile::Text { contents, .. } => Some(contents_digest(contents.as_str())),
        },
    }
}

proof fn lemma_plan_is_plain(o: ManagedProductOptions, m: InstallationManifestView, i: int)
    requires
        o.accepted(),
        m.accepted(o.product@),
        0 <= i < installation_plan(o, m).len(),
        m.files.len() <= usize::MAX,
    ensures
        unix_path::is_plain(path(installation_plan(o, m)[i].0)),
        installation_plan(o, m)[i].1 matches Some(k) ==> k < m.files.len(),
{
    let plan = installation_plan(o, m);
    let n = m.files.len() as int;
    let fp = |k: int| m.file_accepted(k);
    lemma_none_failing(fp, m.files.len(), 0);
    if i < n {
        assert(fp(i));
        assert(plan[i] == target_plan(m.files)[i]);
    } else {
        lemma_product_places(o);
        lemma_retired(product_files(o), file_paths(m.files), i - n);
        let k = choose|k: int|
            0 <= k < product_files(o).len() && (#[trigger] product_files(o)[k]).destination()
                == retired_plan(product_files(o), file_paths(m.files))[i - n].0;
        assert(place_ok(o.product@, product_files(o)[k]));
    }
}

/// Prepares an installation of an accepted manifest from what was seen of the
/// files that it touches, in the order of [`plan_files`]: the journal that it
/// starts from, or the first file that stops it.
pub fn prepare_journal(
    product: &ManagedProduct,
    job: &JobId,
    manifest: &InstallationManifest,
    observations: &Vec<Observation>,
    previously_enabled: Vec<String>,
) -> (r: Result<InstallationJournal, InstallationError>)
    requires
        manifest@.accepted(product@.product@),
        observations@.len() == installation_plan(product@, manifest@).len(),
    ensures
        ({
            let plan = installation_plan(product@, manifest@);
            let i = first_fault(manifest@, plan, observations@);
            if i < plan.len() {
                r matches Err(e) && Some(e.fault) == observation_check(
                    manifest@,
                    plan[i],
                    observations@[i],
                ) && e.path@ == plan[i].0
            } else {
                r matches Ok(j) && j.previously_enabled == previously_enabled && j.job == *job
                    && j.records@.len() == plan.len() && (forall|k: int|
                    0 <= k < plan.len() ==> record_observed(
                        #[trigger] j.records@[k],
                        product@.product@,
                        *job,
                        manifest@,
                        plan[k],
                        observations@[k],
                    )) && journal_planned(j, product@, manifest@) && (digests_seen_ok(
                    observations@,
                ) ==> journal_digests_ok(j))
            }
        }),
{
    let declared = product.declaration();
    assert(declared.accepted());
    let planned = plan_files(product, manifest);
    let ghost plan = installation_plan(product@, manifest@);
    let ghost p = |k: int| observation_check(manifest@, plan[k], observations@[k]) is None;
    let count: usize = manifest.files.len();
    assert(manifest@.files.len() == count);
    assert(plan.len() == planned@.len());
    let mut records: Vec<InstallationRecord> = Vec::new();
    let mut i: usize = 0;
    while i < planned.len()
        invariant
            i <= planned@.len(),
            planned@.len() == observations@.len(),
            plan == installation_plan(product@, manifest@),
            plan == planned_views(planned@),
            records@.len() == i,
            forall|k: int| 0 <= k < i ==> #[trigger] p(k),
            forall|k: int|
                0 <= k < i ==> record_observed(
                    #[trigger] records@[k],
                    product@.product@,
                    *job,
                    manifest@,
                    plan[k],
                    observations@[k],
                ) && (digests_seen_ok(observations@) ==> digest_ok(records@[k].new_digest)
                    && digest_ok(records@[k].original_digest)),
        decreases planned@.len() - i,
    {
        proof {
            lemma_plan_is_plain(product@, manifest@, i as int);
            lemma_first_failing(p, plan.len(), 0, i as int);
        }
        let file = &planned[i];
        assert(plan[i as int] == (file.destination@, file.file));
        let seen = &observations[i];
        let new_digest = new_digest_of(manifest, file.file, seen);
        if file.file.is_some() && new_digest.is_none() {
            assert(!p(i as int));
            return Err(
                InstallationError {
                    fault: InstallationFault::Unreadable,
                    path: file.destination.clone(),
                },
            );
        }
        match plan_record(product, job, &file.destination, new_digest, &seen.facts) {
            Ok(record) => {
                records.push(record);
            },
            Err(e) => {
                assert(!p(i as int));
                return Err(e);
            },
        }
        assert(p(i as int));
        i = i + 1;
    }
    proof {
        lemma_first_failing(p, plan.len(), 0, plan.len() as int);
    }
    let ghost made = records@;
    let journal = plan_journal(product, job, manifest, previously_enabled, records);
    proof {
        assert forall|k: int| 0 <= k < plan.len() implies {
            let r = #[trigger] journal.records@[k];
            &&& record_planned(r, product@.product@, journal.job, plan[k].0)
            &&& r.new_digest is Some <==> plan[k].1 is Some
        } by {
            assert(record_observed(
                made[k],
                product@.product@,
                *job,
                manifest@,
                plan[k],
                observations@[k],
            ));
            assert(p(k));
        }
    }
    Ok(journal)
}

/// Whether a binary has the product's name or prefix, as recovery demands.
pub open spec fn prefixed(product: Seq<char>, name: Seq<char>) -> bool {
    name == product || (product + "-"@).is_prefix_of(name)
}

/// Whether every binary among the files has the product's name or prefix.
pub open spec fn binaries_prefixed(product: Seq<char>, files: Seq<ManagedFileView>) -> bool {
    forall|i: int|
        0 <= i < files.len() ==> (#[trigger] files[i] matches ManagedFileView::Binary {
            source_name,
            ..
        } ==> prefixed(product, source_name))
}

proof fn lemma_retired(current: Seq<ManagedFileView>, target: Seq<PathView>, i: int)
    requires
        0 <= i < retired_plan(current, target).len(),
    ensures
        retired_plan(current, target)[i].1 is None,
        !target.contains(path(retired_plan(current, target)[i].0)),
        exists|k: int|
            0 <= k < current.len() && (#[trigger] current[k]).destination() == retired_plan(
                current,
                target,
            )[i].0,
        forall|j: int|
            0 <= j < i && file_paths(current).no_duplicates() ==> path(
                (#[trigger] retired_plan(current, target)[j]).0,
            ) != path(retired_plan(current, target)[i].0),
    decreases current.len(),
{
    let front = current.drop_last();
    let before = retired_plan(front, target);
    let plan = retired_plan(current, target);
    if file_paths(current).no_duplicates() {
        assert forall|a: int, b: int|
            0 <= a < front.len() && 0 <= b < front.len() && a != b implies file_paths(front)[a]
            != file_paths(front)[b] by {
            assert(file_paths(front)[a] == file_paths(current)[a]);
            assert(file_paths(front)[b] == file_paths(current)[b]);
        }
    }
    if i < before.len() {
        lemma_retired(front, target, i);
        let k = choose|k: int|
            0 <= k < front.len() && (#[trigger] front[k]).destination() == before[i].0;
        assert(current[k].destination() == plan[i].0);
        assert forall|j: int| 0 <= j < i && file_paths(current).no_duplicates() implies path(
            (#[trigger] plan[j]).0,
        ) != path(plan[i].0) by {
            assert(plan[j] == before[j]);
        }
    } else {
        let last = current.len() - 1;
        assert(current[last].destination() == plan[i].0);
        assert forall|j: int| 0 <= j < i && file_paths(current).no_duplicates() implies path(
            (#[trigger] plan[j]).0,
        ) != path(plan[i].0) by {
            assert(plan[j] == before[j]);
            lemma_retired(front, target, j);
            let k = choose|k: int|
                0 <= k < front.len() && (#[trigger] front[k]).destination() == before[j].0;
            assert(file_paths(current)[k] == path(plan[j].0));
            assert(file_paths(current)[last] == path(plan[i].0));
        }
    }
}

/// A destination with its name and place in order is one that a journal may
/// have.
proof fn lemma_destination_ok(product: Seq<char>, file: ManagedFileView)
    requires
        place_ok(product, file),
        file matches ManagedFileView::Binary { source_name, .. } ==> prefixed(
            product,
            source_name,
        ),
    ensures
        destination_ok(product, path(file.destination())),
{
    lemma_directories_differ();
}

/// The journal that an installation of an accepted release starts from can be
/// trusted when an interrupted run left it behind.
pub proof fn law_planned_journal_is_trusted(
    j: InstallationJournal,
    o: ManagedProductOptions,
    m: InstallationManifestView,
    version: VersionView,
)
    requires
        o.accepted(),
        release_accepted(o, m, version),
        binaries_prefixed(o.product@, m.files),
        journal_planned(j, o, m),
        journal_digests_ok(j),
    ensures
        j.trusted(o.product@),
{
    let product = o.product@;
    let plan = installation_plan(o, m);
    let n = m.files.len() as int;
    let target = file_paths(m.files);
    let retired = retired_plan(product_files(o), target);
    let records = j.records@;
    let fp = |i: int| m.file_accepted(i);
    lemma_none_failing(fp, m.files.len(), 0);
    lemma_product_places(o);
    let ok = |i: int| j.record_ok(product, i);
    assert forall|i: int| 0 <= i < records.len() implies unix_path::is_plain(
        path((#[trigger] records[i]).destination@),
    ) && destination_ok(product, path(records[i].destination@)) by {
        assert(record_planned(records[i], product, j.job, plan[i].0));
        if i < n {
            assert(fp(i));
            assert(plan[i].0 == m.files[i].destination());
            assert(place_ok(product, m.files[i]));
            lemma_destination_ok(product, m.files[i]);
        } else {
            assert(plan[i] == retired[i - n]);
            lemma_retired(product_files(o), target, i - n);
            let k = choose|k: int|
                0 <= k < product_files(o).len() && (#[trigger] product_files(o)[k]).destination()
                    == retired[i - n].0;
            let file = product_files(o)[k];
            assert(place_ok(product, file));
            if file is Binary {
                lemma_declared_in_manifest(o, m, k);
            }
            lemma_destination_ok(product, file);
        }
    }
    assert forall|i: int| 0 <= i < records.len() implies #[trigger] ok(i) by {
        let r = records[i];
        assert(record_planned(r, product, j.job, plan[i].0));
        let earlier = record_paths(records).take(i);
        if earlier.contains(path(r.destination@)) {
            let k = choose|k: int| 0 <= k < earlier.len() && earlier[k] == path(r.destination@);
            assert(record_planned(records[k], product, j.job, plan[k].0));
            if i < n {
                assert(fp(i));
                assert(target.take(i)[k] == path(m.files[k].destination()));
            } else if k < n {
                lemma_retired(product_files(o), target, i - n);
                assert(target[k] == path(plan[k].0));
            } else {
                lemma_retired(product_files(o), target, i - n);
                assert(plan[k] == retired[k - n]);
            }
        }
    }
    lemma_first_failing(ok, records.len(), 0, records.len() as int);
    // The units to enable.
    let units = m.enable_units;
    units.lemma_no_dup_set_cardinality();
    assert(units.to_set().contains(service_name(product)));
    assert(units.len() > 0);
    let up = |i: int| m.unit_accepted(i);
    lemma_none_failing(up, units.len(), 0);
    assert forall|i: int| 0 <= i < j.target_enable_units@.len() implies {
        let unit = (#[trigger] j.target_enable_units@[i])@;
        unit_name_ok(product, unit) && writes_path(records, path(unit_path(unit)))
    } by {
        let unit = j.target_enable_units@[i]@;
        assert(texts(j.target_enable_units@)[i] == unit);
        assert(up(i));
        let k = choose|k: int| 0 <= k < target.len() && target[k] == path(unit_path(unit));
        assert(record_planned(records[k], product, j.job, plan[k].0));
        assert(plan[k].0 == m.files[k].destination());
    }
    assert(m.has_binary());
}

/// A binary of a product is among the files of every accepted release of it.
proof fn lemma_declared_in_manifest(
    o: ManagedProductOptions,
    m: InstallationManifestView,
    k: int,
)
    requires
        0 <= k < product_files(o).len(),
        product_files(o)[k] is Binary,
        manifest_binaries(m.files) == declared_binaries(o.system_binaries@),
        binaries_prefixed(o.product@, m.files),
    ensures
        product_files(o)[k] matches ManagedFileView::Binary { source_name, .. } && prefixed(
            o.product@,
            source_name,
        ),
{
    let b = o.system_binaries@[k];
    assert(product_files(o)[k] == binary_file(b));
    let key = declared_key(b);
    assert(declared_binaries(o.system_binaries@).contains(key));
    assert(manifest_binaries(m.files).contains(key));
    let i = choose|i: int| 0 <= i < m.files.len() && binary_key(#[trigger] m.files[i]) == Some(key);
    assert(m.files[i] is Binary);
}

// ---------------------------------------------------------------------------
// Uninstallations
// ---------------------------------------------------------------------------

/// The fault of a managed file that cannot be removed.
pub open spec fn removal_plan_check(f: FileFactsView) -> Option<InstallationFault> {
    if !f.present {
        Some(InstallationFault::Missing)
    } else if !f.installed {
        Some(InstallationFault::NotInstalledFile)
    } else if f.digest is None {
        Some(InstallationFault::Unreadable)
    } else {
        None
    }
}

/// Whether a record is planned for the removal of a destination: its backup has
/// its place in the staging directory beside it.
pub open spec fn removal_planned(
    r: UninstallationRecord,
    product: Seq<char>,
    job: JobId,
    destination: Seq<char>,
) -> bool {
    &&& r.destination@ == destination
    &&& path(r.backup@) == staged_path(
        path(destination),
        uninstall_stage_name(product, job),
        "old"@,
    )
}

/// Plans the removal of one managed file.
pub fn plan_uninstallation_record(
    product: &ManagedProduct,
    job: &JobId,
    destination: &String,
    facts: &FileFacts,
) -> (r: Result<UninstallationRecord, InstallationError>)
    requires
        unix_path::is_plain(path(destination@)),
        path(destination@).parts.len() > 0,
    ensures
        match removal_plan_check(facts@) {
            Some(fault) => r matches Err(e) && e.fault == fault && e.path == *destination,
            None => r matches Ok(record) && removal_planned(
                record,
                product@.product@,
                *job,
                destination@,
            ) && Some(record.digest@) == facts@.digest,
        },
{
    let o = product.declaration();
    let stage = uninstallation_stage(o.product.as_str(), job);
    proof {
        lemma_stage_names(o.product@, *job);
        lemma_kinds();
        reveal_strlit(".capulus-");
        lemma_stage_is_part(stage@);
    }
    if !facts.present {
        return Err(
            InstallationError { fault: InstallationFault::Missing, path: destination.clone() },
        );
    }
    if !facts.installed {
        return Err(
            InstallationError {
                fault: InstallationFault::NotInstalledFile,
                path: destination.clone(),
            },
        );
    }
    let digest = match &facts.digest {
        Some(d) => d.clone(),
        None => return Err(
            InstallationError { fault: InstallationFault::Unreadable, path: destination.clone() },
        ),
    };
    let backup = match staged_text(destination.as_str(), stage.as_str(), "old") {
        Some(s) => s,
        None => return Err(
            InstallationError { fault: InstallationFault::NoParent, path: destination.clone() },
        ),
    };
    Ok(UninstallationRecord { destination: destination.clone(), backup, digest })
}

/// The records that are, or are not, those of a path.
pub open spec fn selected(
    records: Seq<UninstallationRecord>,
    p: PathView,
    is: bool,
) -> Seq<UninstallationRecord>
    decreases records.len(),
{
    if records.len() == 0 {
        Seq::empty()
    } else {
        let before = selected(records.drop_last(), p, is);
        if (path(records.last().destination@) == p) == is {
            before.push(records.last())
        } else {
            before
        }
    }
}

/// The records in the order of their removal: those of the agent's executable
/// come last.
pub open spec fn agent_last(records: Seq<UninstallationRecord>, agent: PathView) -> Seq<
    UninstallationRecord,
> {
    selected(records, agent, false) + selected(records, agent, true)
}

impl UninstallationRecord {
    /// An owned copy.
    pub fn copy(&self) -> (r: UninstallationRecord)
        ensures
            r == *self,
    {
        UninstallationRecord {
            destination: self.destination.clone(),
            backup: self.backup.clone(),
            digest: self.digest.clone(),
        }
    }
}

fn push_selected(
    out: &mut Vec<UninstallationRecord>,
    records: &Vec<UninstallationRecord>,
    agent: &str,
    is: bool,
)
    ensures
        final(out)@ == old(out)@ + selected(records@, path(agent@), is),
{
    let ghost start = out@;
    let mut i: usize = 0;
    assert(out@ =~= start + selected(records@.take(0), path(agent@), is));
    while i < records.len()
        invariant
            i <= records@.len(),
            out@ == start + selected(records@.take(i as int), path(agent@), is),
        decreases records@.len() - i,
    {
        assert(records@.take(i + 1).drop_last() =~= records@.take(i as int));
        if unix_path::same_path(records[i].destination.as_str(), agent) == is {
            out.push(records[i].copy());
        }
        assert(out@ =~= start + selected(records@.take(i + 1), path(agent@), is));
        i = i + 1;
    }
    assert(records@.take(i as int) =~= records@);
}

/// The journal that an uninstallation starts from, with the records that were
/// planned for the product's files.
pub fn plan_uninstallation_journal(
    product: &ManagedProduct,
    job: &JobId,
    previously_enabled: Vec<String>,
    records: &Vec<UninstallationRecord>,
) -> (j: UninstallationJournal)
    ensures
        j.product@ == product@.product@,
        j.job == *job,
        j.previously_enabled == previously_enabled,
        j.committed_records == 0,
        !j.removal_committed,
        j.records@ == agent_last(records@, path(product@.agent_binary@)),
{
    let mut ordered: Vec<UninstallationRecord> = Vec::new();
    push_selected(&mut ordered, records, product.agent_executable(), false);
    push_selected(&mut ordered, records, product.agent_executable(), true);
    assert(ordered@ =~= agent_last(records@, path(product@.agent_binary@)));
    UninstallationJournal {
        product: product.name().to_owned(),
        job: *job,
        previously_enabled,
        committed_records: 0,
        removal_committed: false,
        records: ordered,
    }
}

/// What is selected comes from the records, in their order.
proof fn lemma_selected(records: Seq<UninstallationRecord>, p: PathView, is: bool)
    ensures
        forall|i: int|
            0 <= i < selected(records, p, is).len() ==> records.contains(
                #[trigger] selected(records, p, is)[i],
            ) && (path(selected(records, p, is)[i].destination@) == p) == is,
        forall|i: int|
            0 <= i < records.len() && (path((#[trigger] records[i]).destination@) == p) == is
                ==> selected(records, p, is).contains(records[i]),
        removed_paths(records).no_duplicates() ==> removed_paths(
            selected(records, p, is),
        ).no_duplicates(),
    decreases records.len(),
{
    if records.len() > 0 {
        let front = records.drop_last();
        let last = records.last();
        let before = selected(front, p, is);
        let all = selected(records, p, is);
        lemma_selected(front, p, is);
        assert forall|i: int| 0 <= i < all.len() implies records.contains(#[trigger] all[i]) && (
        path(all[i].destination@) == p) == is by {
            if i < before.len() {
                assert(front.contains(before[i]));
                let k = choose|k: int| 0 <= k < front.len() && front[k] == before[i];
                assert(records[k] == all[i]);
            } else {
                assert(records[records.len() - 1] == all[i]);
            }
        }
        assert forall|i: int|
            0 <= i < records.len() && (path((#[trigger] records[i]).destination@) == p)
                == is implies all.contains(records[i]) by {
            if i < front.len() {
                assert(front[i] == records[i]);
                assert(before.contains(front[i]));
                let k = choose|k: int| 0 <= k < before.len() && before[k] == front[i];
                assert(all[k] == records[i]);
            } else {
                assert(all[before.len() as int] == records[i]);
            }
        }
        if removed_paths(records).no_duplicates() {
            let paths = removed_paths(records);
            assert forall|a: int, b: int|
                0 <= a < front.len() && 0 <= b < front.len() && a != b implies removed_paths(
                front,
            )[a] != removed_paths(front)[b] by {
                assert(removed_paths(front)[a] == paths[a]);
                assert(removed_paths(front)[b] == paths[b]);
            }
            assert forall|a: int, b: int| 0 <= a < b < all.len() implies removed_paths(all)[a]
                != removed_paths(all)[b] by {
                assert(removed_paths(before)[a] == removed_paths(all)[a]);
                if b < before.len() {
                    assert(removed_paths(before)[b] == removed_paths(all)[b]);
                } else {
                    assert(front.contains(before[a]));
                    let k = choose|k: int| 0 <= k < front.len() && front[k] == before[a];
                    assert(paths[k] == removed_paths(all)[a]);
                    assert(paths[records.len() - 1] == removed_paths(all)[b]);
                }
            }
        }
    }
}

/// The journal that an uninstallation of a product starts from can be trusted
/// when an interrupted run left it behind.
pub proof fn law_planned_removal_is_trusted(
    j: UninstallationJournal,
    o: ManagedProductOptions,
    records: Seq<UninstallationRecord>,
)
    requires
        o.accepted(),
        records.len() == product_files(o).len(),
        forall|i: int|
            0 <= i < records.len() ==> removal_planned(
                #[trigger] records[i],
                o.product@,
                j.job,
                product_files(o)[i].destination(),
            ) && is_digest(records[i].digest@),
        j.product@ == o.product@,
        j.committed_records == 0,
        !j.removal_committed,
        j.records@ == agent_last(records, path(o.agent_binary@)),
    ensures
        j.trusted(o),
{
    let agent = path(o.agent_binary@);
    let files = product_files(o);
    let ordered = j.records@;
    let a = selected(records, agent, false);
    let b = selected(records, agent, true);
    lemma_product_places(o);
    lemma_selected(records, agent, false);
    lemma_selected(records, agent, true);
    assert forall|i: int| 0 <= i < records.len() implies removed_paths(records)[i] == file_paths(
        files,
    )[i] by {
        assert(removal_planned(records[i], o.product@, j.job, files[i].destination()));
    }
    assert(removed_paths(records) =~= file_paths(files));
    assert forall|i: int| 0 <= i < ordered.len() implies records.contains(#[trigger] ordered[i]) by {
        if i < a.len() {
            assert(ordered[i] == a[i]);
        } else {
            assert(ordered[i] == b[i - a.len()]);
        }
    }
    let paths = removed_paths(ordered);
    assert forall|k: int, i: int| 0 <= k < i < ordered.len() implies paths[k] != paths[i] by {
        if i < a.len() {
            assert(removed_paths(a)[k] == paths[k]);
            assert(removed_paths(a)[i] == paths[i]);
        } else if k >= a.len() {
            assert(removed_paths(b)[k - a.len()] == paths[k]);
            assert(removed_paths(b)[i - a.len()] == paths[i]);
        } else {
            assert(ordered[k] == a[k]);
            assert(ordered[i] == b[i - a.len()]);
        }
    }
    let ok = |i: int| j.record_ok(o.product@, i);
    assert forall|i: int| 0 <= i < ordered.len() implies #[trigger] ok(i) by {
        assert(records.contains(ordered[i]));
        let k = choose|k: int| 0 <= k < records.len() && records[k] == ordered[i];
        assert(removal_planned(records[k], o.product@, j.job, files[k].destination()));
        assert(place_ok(o.product@, files[k]));
        if paths.take(i).contains(path(ordered[i].destination@)) {
            let m = choose|m: int|
                0 <= m < paths.take(i).len() && paths.take(i)[m] == path(ordered[i].destination@);
            assert(paths[m] == paths[i]);
        }
    }
    lemma_first_failing(ok, ordered.len(), 0, ordered.len() as int);
    assert forall|p: PathView| paths.contains(p) <==> file_paths(files).contains(p) by {
        if paths.contains(p) {
            let i = choose|i: int| 0 <= i < paths.len() && paths[i] == p;
            assert(records.contains(ordered[i]));
            let k = choose|k: int| 0 <= k < records.len() && records[k] == ordered[i];
            assert(removed_paths(records)[k] == p);
        }
        if file_paths(files).contains(p) {
            let k = choose|k: int| 0 <= k < files.len() && file_paths(files)[k] == p;
            assert(removed_paths(records)[k] == p);
            assert(path(records[k].destination@) == p);
            if p == agent {
                assert(b.contains(records[k]));
                let m = choose|m: int| 0 <= m < b.len() && b[m] == records[k];
                assert(ordered[a.len() + m] == records[k]);
                assert(paths[a.len() + m] == p);
            } else {
                assert(a.contains(records[k]));
                let m = choose|m: int| 0 <= m < a.len() && a[m] == records[k];
                assert(ordered[m] == records[k]);
                assert(paths[m] == p);
            }
        }
    }
    assert(paths.to_set() =~= file_paths(files).to_set());
    assert(records.len() > 0);
    assert(file_paths(files).contains(file_paths(files)[0]));
    assert(paths.contains(file_paths(files)[0]));
}

} // verus!
