//! The journals of installations and uninstallations, and when a journal that
//! an interrupted run left behind can be trusted.

use vstd::prelude::*;

use super::manifest::{
    file_paths, file_views, files_have_path, has_unit_name, product_files, unit_name_ok, ManagedFile,
};
use super::product::{unit_path, ManagedProduct, ManagedProductOptions};
use super::protocol::JobId;
use crate::search::{first_failing, lemma_first_failing};
use crate::text;
use crate::text::texts;
use crate::unix_path;
use crate::unix_path::{path, PathView};

verus! {

/// One file of an installation: where it goes, where its replacement waits,
/// where its predecessor is kept, and the digests of both.
#[derive(Clone, Debug, PartialEq, Eq)]
pub struct InstallationRecord {
    pub destination: String,
    pub staged: String,
    pub backup: String,
    pub original_digest: Option<String>,
    pub new_digest: Option<String>,
}

/// What an installation does and how far it has come.
#[derive(Clone, Debug, PartialEq, Eq)]
pub struct InstallationJournal {
    pub product: String,
    pub job: JobId,
    pub previously_enabled: Vec<String>,
    pub target_enable_units: Vec<String>,
    pub previous_service_file: bool,
    pub committed_records: usize,
    pub accepted: bool,
    pub records: Vec<InstallationRecord>,
}

/// One file of an uninstallation.
#[derive(Clone, Debug, PartialEq, Eq)]
pub struct UninstallationRecord {
    pub destination: String,
    pub backup: String,
    pub digest: String,
}

/// What an uninstallation does and how far it has come.
#[derive(Clone, Debug, PartialEq, Eq)]
pub struct UninstallationJournal {
    pub product: String,
    pub job: JobId,
    pub previously_enabled: Vec<String>,
    pub committed_records: usize,
    pub removal_committed: bool,
    pub records: Vec<UninstallationRecord>,
}

/// Why a journal is not trusted.
#[derive(Debug, PartialEq, Eq)]
pub enum JournalError {
    WrongIdentity,
    NotNormalized(String),
    UnsafePath,
    UnsafeTargetUnits,
    InconsistentPriorUnits,
    WrongManagedFiles,
}

/// Which of the two journals an error is about.
#[derive(Clone, Copy, Debug, PartialEq, Eq, Structural)]
pub enum JournalKind {
    Installation,
    Uninstallation,
}

impl JournalError {
    /// The words for the error in a journal of a kind.
    pub open spec fn words(self, kind: JournalKind) -> Seq<char> {
        let subject = match kind {
            JournalKind::Installation => "interrupted Capulus installation journal"@,
            JournalKind::Uninstallation => "interrupted Capulus uninstall journal"@,
        };
        match self {
            JournalError::NotNormalized(path) =>
                "managed path is not normalized and absolute: "@ + path@,
            JournalError::WrongIdentity => subject + " has the wrong identity"@,
            JournalError::UnsafePath => subject + " contains an unsafe path"@,
            JournalError::UnsafeTargetUnits => subject + " has unsafe target units"@,
            JournalError::InconsistentPriorUnits => subject + " has inconsistent prior units"@,
            JournalError::WrongManagedFiles => subject + " has the wrong managed files"@,
        }
    }

    /// The words for the error in a journal of a kind.
    pub fn message(&self, kind: JournalKind) -> (out: String)
        ensures
            out@ == self.words(kind),
    {
        let subject = match kind {
            JournalKind::Installation => "interrupted Capulus installation journal".to_owned(),
            JournalKind::Uninstallation => "interrupted Capulus uninstall journal".to_owned(),
        };
        match self {
            JournalError::NotNormalized(path) => "managed path is not normalized and absolute: ".to_owned().concat(path.as_str()),
            JournalError::WrongIdentity => subject.concat(" has the wrong identity"),
            JournalError::UnsafePath => subject.concat(" contains an unsafe path"),
            JournalError::UnsafeTargetUnits => subject.concat(" has unsafe target units"),
            JournalError::InconsistentPriorUnits => subject.concat(" has inconsistent prior units"),
            JournalError::WrongManagedFiles => subject.concat(" has the wrong managed files"),
        }
    }
}

/// A hexadecimal digit of either case.
pub open spec fn is_hex(c: char) -> bool {
    text::is_digit(c) || 'a' <= c <= 'f' || 'A' <= c <= 'F'
}

/// The text of a SHA-256 digest: sixty-four hexadecimal digits.
pub open spec fn is_digest(s: Seq<char>) -> bool {
    s.len() == 64 && forall|i: int| 0 <= i < s.len() ==> is_hex(#[trigger] s[i])
}

/// Whether a text is sixty-four hexadecimal digits.
pub fn valid_digest(value: &str) -> (r: bool)
    ensures
        r == is_digest(value@),
{
    let v = text::to_chars(value);
    if v.len() != 64 {
        return false;
    }
    let mut i: usize = 0;
    while i < v.len()
        invariant
            i <= v@.len(),
            forall|k: int| 0 <= k < i ==> is_hex(#[trigger] v@[k]),
        decreases v@.len() - i,
    {
        let c = v[i];
        if !(('0' <= c && c <= '9') || ('a' <= c && c <= 'f') || ('A' <= c && c <= 'F')) {
            assert(!is_hex(v@[i as int]));
            return false;
        }
        i = i + 1;
    }
    true
}

/// Whether a digest, where there is one, is well formed.
pub open spec fn digest_ok(digest: Option<String>) -> bool {
    digest matches Some(d) ==> is_digest(d@)
}

fn valid_optional_digest(digest: &Option<String>) -> (r: bool)
    ensures
        r == digest_ok(*digest),
{
    match digest {
        Some(d) => valid_digest(d.as_str()),
        None => true,
    }
}

/// The name of the staging directory of an installation.
pub open spec fn stage_name(product: Seq<char>, job: JobId) -> Seq<char> {
    ".capulus-"@ + product + "-"@ + text::hex(job@)
}

/// The name of the staging directory of an uninstallation.
pub open spec fn uninstall_stage_name(product: Seq<char>, job: JobId) -> Seq<char> {
    ".capulus-"@ + product + "-uninstall-"@ + text::hex(job@)
}

/// The path of a file of the same name, in the directory `kind` of the staging
/// directory beside the destination.
pub open spec fn staged_path(destination: PathView, stage: Seq<char>, kind: Seq<char>) -> PathView {
    PathView {
        absolute: destination.absolute,
        parts: destination.parts.drop_last() + path(stage).parts + seq![
            kind,
            destination.parts.last(),
        ],
    }
}

/// The name of the staging directory of an installation.
pub fn installation_stage(product: &str, job: &JobId) -> (out: String)
    ensures
        out@ == stage_name(product@, *job),
{
    let id = job.text();
    ".capulus-".to_owned().concat(product).concat("-").concat(id.as_str())
}

/// The name of the staging directory of an uninstallation.
pub fn uninstallation_stage(product: &str, job: &JobId) -> (out: String)
    ensures
        out@ == uninstall_stage_name(product@, *job),
{
    let id = job.text();
    ".capulus-".to_owned().concat(product).concat("-uninstall-").concat(id.as_str())
}

fn push_all(out: &mut Vec<String>, more: &Vec<String>)
    ensures
        texts(final(out)@) == texts(old(out)@) + texts(more@),
{
    let ghost start = texts(out@);
    let mut i: usize = 0;
    assert(texts(out@) =~= start + texts(more@).take(0));
    while i < more.len()
        invariant
            i <= more@.len(),
            texts(out@) == start + texts(more@).take(i as int),
        decreases more@.len() - i,
    {
        let ghost before = texts(out@);
        let item = more[i].clone();
        out.push(item);
        assert(texts(out@) =~= before.push(more@[i as int]@));
        i = i + 1;
        assert(start + texts(more@).take(i as int) =~= before.push(texts(more@)[i - 1]));
    }
    assert(texts(more@).take(i as int) =~= texts(more@));
}

/// The parts of the staged path of a destination.
pub fn staged_parts(destination: &str, stage: &str, kind: &str) -> (r: Option<Vec<String>>)
    ensures
        r is Some <==> path(destination@).parts.len() > 0,
        r matches Some(list) ==> texts(list@) == staged_path(
            path(destination@),
            stage@,
            kind@,
        ).parts,
{
    let mut list = unix_path::parts(destination);
    let ghost all = texts(list@);
    let name = match list.pop() {
        Some(name) => name,
        None => {
            assert(all.len() == 0);
            return None;
        },
    };
    assert(name@ == all.last());
    assert(texts(list@) =~= all.drop_last());
    let middle = unix_path::parts(stage);
    push_all(&mut list, &middle);
    let ghost front = texts(list@);
    list.push(kind.to_owned());
    list.push(name);
    assert(texts(list@) =~= front.push(kind@).push(all.last()));
    assert(texts(list@) =~= staged_path(path(destination@), stage@, kind@).parts);
    Some(list)
}

/// Whether a path is the staged path of a destination.
fn is_staged_path(candidate: &str, destination: &str, stage: &str, kind: &str) -> (r: bool)
    requires
        path(destination@).parts.len() > 0,
    ensures
        r == (path(candidate@) == staged_path(path(destination@), stage@, kind@)),
{
    match staged_parts(destination, stage, kind) {
        Some(expected) => {
            let actual = unix_path::parts(candidate);
            unix_path::is_absolute(candidate) == unix_path::is_absolute(destination)
                && unix_path::same_texts(&actual, &expected)
        },
        None => false,
    }
}

/// Whether a path is one at which the product installs a file: a binary with
/// the product's name or prefix, or a unit with its prefix.
pub open spec fn destination_ok(product: Seq<char>, destination: PathView) -> bool {
    match unix_path::file_name(destination) {
        Some(name) => if unix_path::parent(destination) == Some(path("/usr/local/bin"@)) {
            name == product || (product + "-"@).is_prefix_of(name)
        } else {
            unix_path::parent(destination) == Some(path("/etc/systemd/system"@)) && unit_name_ok(
                product,
                name,
            )
        },
        None => false,
    }
}

fn valid_destination(product: &str, destination: &str) -> (r: bool)
    ensures
        r == destination_ok(product@, path(destination@)),
{
    match unix_path::file_name_of(destination) {
        Some(name) => if unix_path::parent_is(destination, "/usr/local/bin") {
            let prefix = product.to_owned().concat("-");
            text::same(name.as_str(), product) || text::starts_with(name.as_str(), prefix.as_str())
        } else {
            unix_path::parent_is(destination, "/etc/systemd/system") && has_unit_name(
                product,
                name.as_str(),
            )
        },
        None => false,
    }
}

/// The destinations of records.
pub open spec fn record_paths(records: Seq<InstallationRecord>) -> Seq<PathView> {
    records.map_values(|r: InstallationRecord| path(r.destination@))
}

/// Whether some record writes the path.
pub open spec fn writes_path(records: Seq<InstallationRecord>, p: PathView) -> bool {
    exists|i: int|
        0 <= i < records.len() && path((#[trigger] records[i]).destination@) == p
            && records[i].new_digest is Some
}

/// Whether some record found a file at the path.
pub open spec fn found_path(records: Seq<InstallationRecord>, p: PathView) -> bool {
    exists|i: int|
        0 <= i < records.len() && path((#[trigger] records[i]).destination@) == p
            && records[i].original_digest is Some
}

impl InstallationJournal {
    /// Whether the journal is one of the product, with files and units, and its
    /// progress is possible.
    pub open spec fn identity_ok(self, product: Seq<char>) -> bool {
        &&& self.product@ == product
        &&& self.records@.len() > 0
        &&& self.committed_records <= self.records@.len()
        &&& self.accepted ==> self.committed_records == self.records@.len()
        &&& self.target_enable_units@.len() > 0
    }

    /// Whether the paths and digests of the record at position `i` are in order.
    pub open spec fn record_ok(self, product: Seq<char>, i: int) -> bool {
        let record = self.records@[i];
        let destination = path(record.destination@);
        let stage = stage_name(product, self.job);
        &&& unix_path::is_plain(destination)
        &&& destination_ok(product, destination)
        &&& path(record.staged@) == staged_path(destination, stage, "new"@)
        &&& path(record.backup@) == staged_path(destination, stage, "old"@)
        &&& digest_ok(record.new_digest)
        &&& digest_ok(record.original_digest)
        &&& !record_paths(self.records@).take(i).contains(destination)
    }

    /// The position of the first record that is not in order, or their number.
    pub open spec fn first_bad_record(self, product: Seq<char>) -> int {
        first_failing(|i: int| self.record_ok(product, i), self.records@.len(), 0)
    }

    /// Whether the units to enable are the product's, each once, each with a
    /// file that the installation writes.
    pub open spec fn target_units_ok(self, product: Seq<char>) -> bool {
        &&& texts(self.target_enable_units@).no_duplicates()
        &&& forall|i: int|
            0 <= i < self.target_enable_units@.len() ==> {
                let unit = (#[trigger] self.target_enable_units@[i])@;
                unit_name_ok(product, unit) && writes_path(self.records@, path(unit_path(unit)))
            }
    }

    /// Whether the note on a previous service file agrees with the records.
    pub open spec fn prior_units_ok(self, product: Seq<char>) -> bool {
        self.previous_service_file == found_path(
            self.records@,
            path(unit_path(product + "-agent.service"@)),
        )
    }

    /// Whether the journal can be trusted as one of the product.
    pub open spec fn trusted(self, product: Seq<char>) -> bool {
        &&& self.identity_ok(product)
        &&& self.first_bad_record(product) == self.records@.len()
        &&& self.target_units_ok(product)
        &&& self.prior_units_ok(product)
    }

    /// The error for a journal that cannot be trusted: the first condition that
    /// does not hold decides.
    pub open spec fn fault(self, product: Seq<char>, e: JournalError) -> bool {
        let i = self.first_bad_record(product);
        if !self.identity_ok(product) {
            e is WrongIdentity
        } else if i != self.records@.len() {
            if !unix_path::is_plain(path(self.records@[i].destination@)) {
                e == JournalError::NotNormalized(self.records@[i].destination)
            } else {
                e is UnsafePath
            }
        } else if !self.target_units_ok(product) {
            e is UnsafeTargetUnits
        } else {
            e is InconsistentPriorUnits
        }
    }

    /// Whether the installation replaces or removes an application socket unit
    /// that was there before.
    pub fn previous_application_socket_file(&self) -> (r: bool)
        ensures
            r == found_path(self.records@, path(unit_path(self.product@ + "-agent.socket"@))),
    {
        let unit = self.product.clone().concat("-agent.socket");
        let file = unix_path::join("/etc/systemd/system", unit.as_str());
        found_file(&self.records, file.as_str())
    }

    /// Checks that the journal can be trusted as one of the product.
    pub fn validate(&self, product: &str) -> (r: Result<(), JournalError>)
        ensures
            r is Ok <==> self.trusted(product@),
            r matches Err(e) ==> self.fault(product@, e),
    {
        if !text::same(self.product.as_str(), product) || self.records.len() == 0
            || self.committed_records > self.records.len() || (self.accepted
            && self.committed_records != self.records.len()) || self.target_enable_units.len()
            == 0 {
            return Err(JournalError::WrongIdentity);
        }
        let stage = installation_stage(product, &self.job);
        let ghost p = |k: int| self.record_ok(product@, k);
        let mut i: usize = 0;
        while i < self.records.len()
            invariant
                i <= self.records@.len(),
                stage@ == stage_name(product@, self.job),
                forall|k: int| 0 <= k < i ==> #[trigger] p(k),
            decreases self.records@.len() - i,
        {
            let record = &self.records[i];
            proof {
                lemma_first_failing(p, self.records@.len(), 0, i as int);
            }
            if !unix_path::is_plain_path(record.destination.as_str()) {
                assert(!p(i as int));
                return Err(JournalError::NotNormalized(record.destination.clone()));
            }
            if !valid_destination(product, record.destination.as_str()) {
                assert(!p(i as int));
                return Err(JournalError::UnsafePath);
            }
            if !is_staged_path(
                record.staged.as_str(),
                record.destination.as_str(),
                stage.as_str(),
                "new",
            ) || !is_staged_path(
                record.backup.as_str(),
                record.destination.as_str(),
                stage.as_str(),
                "old",
            ) || !valid_optional_digest(&record.new_digest) || !valid_optional_digest(
                &record.original_digest,
            ) || earlier_destination(&self.records, i) {
                assert(!p(i as int));
                return Err(JournalError::UnsafePath);
            }
            assert(p(i as int));
            i = i + 1;
        }
        proof {
            lemma_first_failing(p, self.records@.len(), 0, i as int);
        }
        if !distinct_texts(&self.target_enable_units) || !self.units_written(product) {
            return Err(JournalError::UnsafeTargetUnits);
        }
        let unit = product.to_owned().concat("-agent.service");
        let file = unix_path::join("/etc/systemd/system", unit.as_str());
        if self.previous_service_file != found_file(&self.records, file.as_str()) {
            return Err(JournalError::InconsistentPriorUnits);
        }
        Ok(())
    }

    fn units_written(&self, product: &str) -> (r: bool)
        ensures
            r == forall|i: int|
                0 <= i < self.target_enable_units@.len() ==> {
                    let unit = (#[trigger] self.target_enable_units@[i])@;
                    unit_name_ok(product@, unit) && writes_path(
                        self.records@,
                        path(unit_path(unit)),
                    )
                },
    {
        let mut i: usize = 0;
        while i < self.target_enable_units.len()
            invariant
                i <= self.target_enable_units@.len(),
                forall|k: int|
                    0 <= k < i ==> {
                        let unit = (#[trigger] self.target_enable_units@[k])@;
                        unit_name_ok(product@, unit) && writes_path(
                            self.records@,
                            path(unit_path(unit)),
                        )
                    },
            decreases self.target_enable_units@.len() - i,
        {
            let unit = &self.target_enable_units[i];
            let file = unix_path::join("/etc/systemd/system", unit.as_str());
            if !has_unit_name(product, unit.as_str()) || !written_file(
                &self.records,
                file.as_str(),
            ) {
                return false;
            }
            i = i + 1;
        }
        true
    }
}

pub(crate) fn found_file(records: &Vec<InstallationRecord>, p: &str) -> (r: bool)
    ensures
        r == found_path(records@, path(p@)),
{
    let mut i: usize = 0;
    while i < records.len()
        invariant
            i <= records@.len(),
            forall|k: int|
                0 <= k < i ==> !(path((#[trigger] records@[k]).destination@) == path(p@)
                    && records@[k].original_digest is Some),
        decreases records@.len() - i,
    {
        if records[i].original_digest.is_some() && unix_path::same_path(
            records[i].destination.as_str(),
            p,
        ) {
            return true;
        }
        i = i + 1;
    }
    false
}

fn written_file(records: &Vec<InstallationRecord>, p: &str) -> (r: bool)
    ensures
        r == writes_path(records@, path(p@)),
{
    let mut i: usize = 0;
    while i < records.len()
        invariant
            i <= records@.len(),
            forall|k: int|
                0 <= k < i ==> !(path((#[trigger] records@[k]).destination@) == path(p@)
                    && records@[k].new_digest is Some),
        decreases records@.len() - i,
    {
        if records[i].new_digest.is_some() && unix_path::same_path(
            records[i].destination.as_str(),
            p,
        ) {
            return true;
        }
        i = i + 1;
    }
    false
}

fn earlier_destination(records: &Vec<InstallationRecord>, i: usize) -> (r: bool)
    requires
        i < records@.len(),
    ensures
        r == record_paths(records@).take(i as int).contains(
            path(records@[i as int].destination@),
        ),
{
    let ghost paths = record_paths(records@).take(i as int);
    let mut k: usize = 0;
    while k < i
        invariant
            k <= i < records@.len(),
            paths == record_paths(records@).take(i as int),
            forall|m: int|
                0 <= m < k ==> #[trigger] paths[m] != path(records@[i as int].destination@),
        decreases i - k,
    {
        if unix_path::same_path(records[k].destination.as_str(), records[i].destination.as_str()) {
            assert(paths[k as int] == path(records@[i as int].destination@));
            return true;
        }
        k = k + 1;
    }
    false
}

/// Whether no text stands twice in a list.
pub fn distinct_texts(list: &Vec<String>) -> (r: bool)
    ensures
        r == texts(list@).no_duplicates(),
{
    let mut i: usize = 0;
    while i < list.len()
        invariant
            i <= list@.len(),
            forall|a: int, b: int|
                0 <= a < b < i ==> (#[trigger] texts(list@)[a]) != (#[trigger] texts(list@)[b]),
        decreases list@.len() - i,
    {
        let mut k: usize = 0;
        while k < i
            invariant
                k <= i < list@.len(),
                forall|a: int| 0 <= a < k ==> (#[trigger] texts(list@)[a]) != list@[i as int]@,
            decreases i - k,
        {
            assert(texts(list@)[k as int] == list@[k as int]@);
            assert(texts(list@)[i as int] == list@[i as int]@);
            if list[k] == list[i] {
                return false;
            }
            k = k + 1;
        }
        i = i + 1;
    }
    true
}

/// The destinations of records of an uninstallation.
pub open spec fn removed_paths(records: Seq<UninstallationRecord>) -> Seq<PathView> {
    records.map_values(|r: UninstallationRecord| path(r.destination@))
}

impl UninstallationJournal {
    /// Whether the journal is one of the product, with files, and its progress
    /// is possible.
    pub open spec fn identity_ok(self, product: Seq<char>) -> bool {
        &&& self.product@ == product
        &&& self.records@.len() > 0
        &&& self.committed_records <= self.records@.len()
        &&& self.removal_committed ==> self.committed_records == self.records@.len()
    }

    /// Whether the paths and the digest of the record at position `i` are in
    /// order.
    pub open spec fn record_ok(self, product: Seq<char>, i: int) -> bool {
        let record = self.records@[i];
        let destination = path(record.destination@);
        &&& unix_path::is_plain(destination)
        &&& destination.parts.len() > 0
        &&& path(record.backup@) == staged_path(
            destination,
            uninstall_stage_name(product, self.job),
            "old"@,
        )
        &&& is_digest(record.digest@)
        &&& !removed_paths(self.records@).take(i).contains(destination)
    }

    /// The position of the first record that is not in order, or their number.
    pub open spec fn first_bad_record(self, product: Seq<char>) -> int {
        first_failing(|i: int| self.record_ok(product, i), self.records@.len(), 0)
    }

    /// Whether the files are those that the product installs.
    pub open spec fn files_ok(self, o: ManagedProductOptions) -> bool {
        removed_paths(self.records@).to_set() == file_paths(product_files(o)).to_set()
    }

    /// Whether the journal can be trusted as one of the product.
    pub open spec fn trusted(self, o: ManagedProductOptions) -> bool {
        &&& self.identity_ok(o.product@)
        &&& self.first_bad_record(o.product@) == self.records@.len()
        &&& self.files_ok(o)
    }

    /// The error for a journal that cannot be trusted: the first condition that
    /// does not hold decides.
    pub open spec fn fault(self, o: ManagedProductOptions, e: JournalError) -> bool {
        let i = self.first_bad_record(o.product@);
        if !self.identity_ok(o.product@) {
            e is WrongIdentity
        } else if i != self.records@.len() {
            if !unix_path::is_plain(path(self.records@[i].destination@)) {
                e == JournalError::NotNormalized(self.records@[i].destination)
            } else {
                e is UnsafePath
            }
        } else {
            e is WrongManagedFiles
        }
    }

    /// Checks that the journal can be trusted as one of the product.
    pub fn validate(&self, product: &ManagedProduct) -> (r: Result<(), JournalError>)
        ensures
            r is Ok <==> self.trusted(product@),
            r matches Err(e) ==> self.fault(product@, e),
    {
        let name = product.name();
        if !text::same(self.product.as_str(), name) || self.records.len() == 0
            || self.committed_records > self.records.len() || (self.removal_committed
            && self.committed_records != self.records.len()) {
            return Err(JournalError::WrongIdentity);
        }
        let stage = uninstallation_stage(name, &self.job);
        let ghost p = |k: int| self.record_ok(name@, k);
        let mut i: usize = 0;
        while i < self.records.len()
            invariant
                i <= self.records@.len(),
                stage@ == uninstall_stage_name(name@, self.job),
                forall|k: int| 0 <= k < i ==> #[trigger] p(k),
            decreases self.records@.len() - i,
        {
            let record = &self.records[i];
            proof {
                lemma_first_failing(p, self.records@.len(), 0, i as int);
            }
            if !unix_path::is_plain_path(record.destination.as_str()) {
                assert(!p(i as int));
                return Err(JournalError::NotNormalized(record.destination.clone()));
            }
            let parts = unix_path::parts(record.destination.as_str());
            assert(parts@.len() == texts(parts@).len());
            if parts.len() == 0 || !is_staged_path(
                record.backup.as_str(),
                record.destination.as_str(),
                stage.as_str(),
                "old",
            ) || !valid_digest(record.digest.as_str()) || self.earlier_record(i) {
                assert(!p(i as int));
                return Err(JournalError::UnsafePath);
            }
            assert(p(i as int));
            i = i + 1;
        }
        proof {
            lemma_first_failing(p, self.records@.len(), 0, i as int);
        }
        let manifest = product.installation_manifest();
        assert(manifest@.files =~= file_views(manifest.files@));
        if !self.same_files(&manifest.files) {
            return Err(JournalError::WrongManagedFiles);
        }
        Ok(())
    }

    fn earlier_record(&self, i: usize) -> (r: bool)
        requires
            i < self.records@.len(),
        ensures
            r == removed_paths(self.records@).take(i as int).contains(
                path(self.records@[i as int].destination@),
            ),
    {
        let ghost paths = removed_paths(self.records@).take(i as int);
        let mut k: usize = 0;
        while k < i
            invariant
                k <= i < self.records@.len(),
                paths == removed_paths(self.records@).take(i as int),
                forall|m: int|
                    0 <= m < k ==> #[trigger] paths[m] != path(
                        self.records@[i as int].destination@,
                    ),
            decreases i - k,
        {
            if unix_path::same_path(
                self.records[k].destination.as_str(),
                self.records[i].destination.as_str(),
            ) {
                assert(paths[k as int] == path(self.records@[i as int].destination@));
                return true;
            }
            k = k + 1;
        }
        false
    }

    fn removes_path(&self, p: &str) -> (r: bool)
        ensures
            r == removed_paths(self.records@).contains(path(p@)),
    {
        let ghost paths = removed_paths(self.records@);
        let mut k: usize = 0;
        while k < self.records.len()
            invariant
                k <= self.records@.len(),
                paths == removed_paths(self.records@),
                forall|m: int| 0 <= m < k ==> #[trigger] paths[m] != path(p@),
            decreases self.records@.len() - k,
        {
            if unix_path::same_path(self.records[k].destination.as_str(), p) {
                assert(paths[k as int] == path(p@));
                return true;
            }
            k = k + 1;
        }
        false
    }

    fn same_files(&self, files: &Vec<ManagedFile>) -> (r: bool)
        ensures
            r == (removed_paths(self.records@).to_set() == file_paths(
                file_views(files@),
            ).to_set()),
    {
        let ghost actual = removed_paths(self.records@);
        let ghost expected = file_paths(file_views(files@));
        let mut i: usize = 0;
        while i < files.len()
            invariant
                i <= files@.len(),
                actual == removed_paths(self.records@),
                expected == file_paths(file_views(files@)),
                forall|k: int| 0 <= k < i ==> actual.contains(#[trigger] expected[k]),
            decreases files@.len() - i,
        {
            assert(expected[i as int] == path(files@[i as int]@.destination()));
            if !self.removes_path(files[i].destination().as_str()) {
                assert(expected.to_set().contains(expected[i as int]));
                return false;
            }
            i = i + 1;
        }
        let count: usize = files.len();
        assert(expected.take(count as int) =~= expected);
        let mut k: usize = 0;
        while k < self.records.len()
            invariant
                k <= self.records@.len(),
                actual == removed_paths(self.records@),
                expected == file_paths(file_views(files@)),
                expected.take(count as int) == expected,
                count == files@.len(),
                forall|m: int| 0 <= m < k ==> expected.contains(#[trigger] actual[m]),
            decreases self.records@.len() - k,
        {
            assert(actual[k as int] == path(self.records@[k as int].destination@));
            if !files_have_path(files, count, self.records[k].destination.as_str()) {
                assert(actual.to_set().contains(actual[k as int]));
                return false;
            }
            k = k + 1;
        }
        assert(actual.to_set() =~= expected.to_set());
        true
    }
}

} // verus!
