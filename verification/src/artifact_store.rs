//! Stored container artifacts: where they are, how one is chosen, and the image
//! labels that describe it.

use vstd::prelude::*;

use crate::paths;
use crate::text;
use crate::text::texts;
use crate::unix_path;

verus! {

/// The schema of artifact metadata that this library writes and reads.
pub const CURRENT_SCHEMA_VERSION: u32 = 3;

pub const ARTIFACT_ID_LENGTH: usize = 8;

/// How often an unused artifact id is looked for.
pub const ARTIFACT_ID_ATTEMPTS: usize = 128;

/// All that is kept of an artifact.
#[derive(Clone, Debug, PartialEq, Eq)]
pub struct ArtifactMetadata {
    pub schema_version: u32,
    pub artifact_id: String,
    pub remote_tag: String,
    pub build_fingerprint: String,
    pub kind: String,
    pub created_at_epoch_ms: u128,
    pub crate_name: String,
    pub crate_version: String,
    pub binary_name: String,
    pub source_path: String,
    pub manifest_path: String,
    pub cargo_profile: String,
    pub cargo_features: Vec<String>,
    pub base_image: String,
    pub runtime: String,
    pub local_tag: String,
    pub archive_file: String,
    pub uploaded_ref: Option<String>,
    pub uploaded_at_epoch_ms: Option<u128>,
}

/// An artifact and its directory.
#[derive(Clone, Debug, PartialEq, Eq)]
pub struct StoredArtifact {
    pub dir: String,
    pub metadata: ArtifactMetadata,
}

/// What the labels of an image say of its artifact.
#[derive(Clone, Debug, PartialEq, Eq)]
pub struct ArtifactSummary {
    pub artifact_id: String,
    pub remote_tag: String,
    pub build_fingerprint: String,
    pub created_at_epoch_ms: u128,
    pub crate_name: String,
    pub binary_name: String,
    pub cargo_profile: String,
    pub cargo_features: Vec<String>,
    pub base_image: String,
}

/// The content of a summary.
#[verifier::ext_equal]
pub ghost struct SummaryView {
    pub artifact_id: Seq<char>,
    pub remote_tag: Seq<char>,
    pub build_fingerprint: Seq<char>,
    pub created_at_epoch_ms: u128,
    pub crate_name: Seq<char>,
    pub binary_name: Seq<char>,
    pub cargo_profile: Seq<char>,
    pub cargo_features: Seq<Seq<char>>,
    pub base_image: Seq<char>,
}

impl ArtifactSummary {
    pub open spec fn view(self) -> SummaryView {
        SummaryView {
            artifact_id: self.artifact_id@,
            remote_tag: self.remote_tag@,
            build_fingerprint: self.build_fingerprint@,
            created_at_epoch_ms: self.created_at_epoch_ms,
            crate_name: self.crate_name@,
            binary_name: self.binary_name@,
            cargo_profile: self.cargo_profile@,
            cargo_features: texts(self.cargo_features@),
            base_image: self.base_image@,
        }
    }

    /// The summary of an artifact.
    pub fn of(metadata: &ArtifactMetadata) -> (r: ArtifactSummary)
        ensures
            r@ == metadata.summary(),
    {
        let r = ArtifactSummary {
            artifact_id: metadata.artifact_id.clone(),
            remote_tag: metadata.remote_tag.clone(),
            build_fingerprint: metadata.build_fingerprint.clone(),
            created_at_epoch_ms: metadata.created_at_epoch_ms,
            crate_name: metadata.crate_name.clone(),
            binary_name: metadata.binary_name.clone(),
            cargo_profile: metadata.cargo_profile.clone(),
            cargo_features: text::copy_texts(&metadata.cargo_features),
            base_image: metadata.base_image.clone(),
        };
        assert(r@ =~= metadata.summary());
        r
    }
}

impl ArtifactMetadata {
    /// What a summary of the artifact says.
    pub open spec fn summary(self) -> SummaryView {
        SummaryView {
            artifact_id: self.artifact_id@,
            remote_tag: self.remote_tag@,
            build_fingerprint: self.build_fingerprint@,
            created_at_epoch_ms: self.created_at_epoch_ms,
            crate_name: self.crate_name@,
            binary_name: self.binary_name@,
            cargo_profile: self.cargo_profile@,
            cargo_features: texts(self.cargo_features@),
            base_image: self.base_image@,
        }
    }
}

impl StoredArtifact {
    /// The path of the artifact's image archive.
    pub fn archive_path(&self) -> (out: String)
        ensures
            out@ == unix_path::joined(self.dir@, self.metadata.archive_file@),
    {
        unix_path::join(self.dir.as_str(), self.metadata.archive_file.as_str())
    }
}

/// The directory of a tool's artifacts beneath a root.
pub open spec fn artifacts_root(root: Seq<char>, tool: Seq<char>) -> Seq<char> {
    unix_path::joined(unix_path::joined(root, paths::component(tool)), "containers"@)
}

/// The directory of a tool's artifacts beneath a root.
pub fn containers_root(root: &str, tool: &str) -> (out: String)
    ensures
        out@ == artifacts_root(root@, tool@),
{
    let directory = paths::tool_dir(root, tool);
    unix_path::join(directory.as_str(), "containers")
}

/// The directory of a tool's artifacts, which is to be made where it is
/// missing, with whatever mode new directories have.
pub fn ensure_containers_root(root: &str, tool: &str) -> (r: (String, Option<u32>))
    ensures
        r.0@ == artifacts_root(root@, tool@),
        r.1 is None,
{
    (containers_root(root, tool), None)
}

/// The file name of an image archive.
pub fn default_archive_file_name() -> (r: &'static str)
    ensures
        r@ == "image.tar"@,
{
    "image.tar"
}

/// The path of an artifact's metadata.
pub fn save_metadata(dir: &str) -> (out: String)
    ensures
        out@ == unix_path::joined(dir@, "metadata.toml"@),
{
    unix_path::join(dir, "metadata.toml")
}

// ---------------------------------------------------------------------------
// Artifact ids
// ---------------------------------------------------------------------------

/// A character of an artifact id.
pub open spec fn id_char(c: char) -> bool {
    text::is_lower(c) || text::is_digit(c)
}

/// An artifact id: eight lower-case ASCII letters and digits.
pub open spec fn is_artifact_id(s: Seq<char>) -> bool {
    s.len() == ARTIFACT_ID_LENGTH && forall|i: int| 0 <= i < s.len() ==> id_char(#[trigger] s[i])
}

/// `rand::rng` and `RngExt::random_range`: a number below a bound from the
/// thread's random generator.
#[verifier::external_body]
fn random_below(bound: u8) -> (r: u8)
    requires
        bound > 0,
    ensures
        r < bound,
{
    rand::RngExt::random_range(&mut rand::rng(), 0..bound)
}

/// The character of an artifact id with a number: the letters, then the digits.
pub open spec fn id_char_at(n: int) -> char {
    if n < 26 {
        ((97 + n) as u8) as char
    } else {
        ((48 + (n - 26)) as u8) as char
    }
}

/// The artifact id with numbers, each below the number of characters that an id
/// can have.
pub fn artifact_id_of(numbers: &Vec<u8>) -> (out: String)
    requires
        forall|i: int| 0 <= i < numbers@.len() ==> (#[trigger] numbers@[i]) < 36,
    ensures
        out@ == numbers@.map_values(|n: u8| id_char_at(n as int)),
{
    let mut out = String::new();
    let mut i: usize = 0;
    while i < numbers.len()
        invariant
            i <= numbers@.len(),
            forall|k: int| 0 <= k < numbers@.len() ==> (#[trigger] numbers@[k]) < 36,
            out@.len() == i,
            forall|k: int| 0 <= k < i ==> #[trigger] out@[k] == id_char_at(numbers@[k] as int),
        decreases numbers@.len() - i,
    {
        let n: u8 = numbers[i];
        let c: u8 = if n < 26 { 97 + n } else { 48 + (n - 26) };
        out.push(c as char);
        i = i + 1;
    }
    assert(out@ =~= numbers@.map_values(|n: u8| id_char_at(n as int)));
    out
}

/// An artifact id that was drawn at random.
pub fn random_artifact_id() -> (out: String)
    ensures
        is_artifact_id(out@),
{
    let mut numbers: Vec<u8> = Vec::new();
    let mut i: usize = 0;
    while i < ARTIFACT_ID_LENGTH
        invariant
            i <= ARTIFACT_ID_LENGTH,
            numbers@.len() == i,
            forall|k: int| 0 <= k < i ==> (#[trigger] numbers@[k]) < 36,
        decreases ARTIFACT_ID_LENGTH - i,
    {
        numbers.push(random_below(36));
        i = i + 1;
    }
    artifact_id_of(&numbers)
}

fn is_valid_artifact_id(value: &str) -> (r: bool)
    ensures
        r == is_artifact_id(value@),
{
    let v = text::to_chars(value);
    if v.len() != ARTIFACT_ID_LENGTH {
        return false;
    }
    let mut i: usize = 0;
    while i < v.len()
        invariant
            i <= v@.len(),
            forall|k: int| 0 <= k < i ==> id_char(#[trigger] v@[k]),
        decreases v@.len() - i,
    {
        let c = v[i];
        if !(('a' <= c && c <= 'z') || ('0' <= c && c <= '9')) {
            assert(!id_char(v@[i as int]));
            return false;
        }
        i = i + 1;
    }
    true
}

/// The tag under which an artifact is tracked: its id.
pub fn tracking_tag(artifact_id: &str) -> (out: String)
    ensures
        out@ == artifact_id@,
{
    artifact_id.to_owned()
}

/// The id of the artifact that a tag tracks, where it tracks one.
pub fn artifact_id_from_tracking_tag(tag: &str) -> (r: Option<&str>)
    ensures
        r is Some <==> is_artifact_id(tag@),
        r matches Some(id) ==> id@ == tag@,
{
    if is_valid_artifact_id(tag) {
        Some(tag)
    } else {
        None
    }
}

/// What came of making the directory of an artifact.
#[derive(Clone, Copy, Debug, PartialEq, Eq, Structural)]
pub enum DirectoryAttempt {
    Created,
    Exists,
    Failed,
}

/// What is done after an attempt to make the directory of an artifact.
#[derive(Clone, Copy, Debug, PartialEq, Eq, Structural)]
pub enum DirectoryNext {
    Use,
    TryAnother,
    Fail,
    GiveUp,
}

/// Decides what is done after an attempt to make the directory of an artifact:
/// an id that is in use is passed over, up to a number of attempts.
pub fn after_directory_attempt(attempt: DirectoryAttempt, attempts_made: usize) -> (r:
    DirectoryNext)
    ensures
        r == match attempt {
            DirectoryAttempt::Created => DirectoryNext::Use,
            DirectoryAttempt::Failed => DirectoryNext::Fail,
            DirectoryAttempt::Exists => if attempts_made < ARTIFACT_ID_ATTEMPTS {
                DirectoryNext::TryAnother
            } else {
                DirectoryNext::GiveUp
            },
        },
{
    match attempt {
        DirectoryAttempt::Created => DirectoryNext::Use,
        DirectoryAttempt::Failed => DirectoryNext::Fail,
        DirectoryAttempt::Exists => if attempts_made < ARTIFACT_ID_ATTEMPTS {
            DirectoryNext::TryAnother
        } else {
            DirectoryNext::GiveUp
        },
    }
}

// ---------------------------------------------------------------------------
// Names and labels
// ---------------------------------------------------------------------------

/// A text as a segment of a name, read up to its last character: ASCII letters
/// in lower case and digits, with one hyphen for each run of anything else
/// between them, and one at the end where such a run comes last.
pub open spec fn segment_so_far(s: Seq<char>) -> Seq<char>
    decreases s.len(),
{
    if s.len() == 0 {
        Seq::empty()
    } else {
        let before = segment_so_far(s.drop_last());
        if text::is_alnum(s.last()) {
            before.push(text::lower(s.last()))
        } else if before.len() > 0 && before.last() != '-' {
            before.push('-')
        } else {
            before
        }
    }
}

/// A text as a segment of a name, without hyphens at the ends.
pub open spec fn segment(s: Seq<char>) -> Seq<char> {
    text::trim_both(segment_so_far(s), |c: char| c == '-')
}

/// A text as a segment of a name.
pub fn sanitize_segment(value: &str) -> (out: String)
    ensures
        out@ == segment(value@),
{
    let v = text::to_chars(value);
    let mut output = String::new();
    let mut last_dash = false;
    let mut empty = true;
    let mut i: usize = 0;
    assert(v@.take(0) =~= Seq::empty());
    while i < v.len()
        invariant
            i <= v@.len(),
            output@ == segment_so_far(v@.take(i as int)),
            empty == (output@.len() == 0),
            !empty ==> last_dash == (output@.last() == '-'),
        decreases v@.len() - i,
    {
        let c = v[i];
        assert(v@.take(i + 1).drop_last() =~= v@.take(i as int));
        if text::is_ascii_alnum(c) {
            let lowered = text::to_lower(c);
            assert(lowered != '-');
            output.push(lowered);
            empty = false;
            last_dash = false;
        } else {
            if !empty && !last_dash {
                output.push('-');
            }
            last_dash = true;
        }
        i = i + 1;
    }
    assert(v@.take(i as int) =~= v@);
    text::trim_char(output.as_str(), '-')
}

/// Whether a text is a segment of a name: lower-case ASCII letters, digits and
/// hyphens, with no hyphen at either end and no two in a row.
pub open spec fn is_segment(s: Seq<char>) -> bool {
    &&& forall|i: int| 0 <= i < s.len() ==> id_char(#[trigger] s[i]) || s[i] == '-'
    &&& s.len() > 0 ==> s[0] != '-' && s.last() != '-'
    &&& forall|i: int| 0 < i < s.len() && s[i] == '-' ==> #[trigger] s[i - 1] != '-'
}

/// Whether nothing in a text is kept in a segment.
pub open spec fn holds_no_alnum(s: Seq<char>) -> bool {
    forall|i: int| 0 <= i < s.len() ==> !text::is_alnum(#[trigger] s[i])
}

/// The ASCII letters and digits of a text, in lower case.
pub open spec fn kept_chars(s: Seq<char>) -> Seq<char> {
    s.filter(|c: char| text::is_alnum(c)).map_values(|c: char| text::lower(c))
}

proof fn lemma_segment_so_far(s: Seq<char>)
    ensures
        ({
            let t = segment_so_far(s);
            &&& forall|i: int| 0 <= i < t.len() ==> id_char(#[trigger] t[i]) || t[i] == '-'
            &&& t.len() > 0 ==> t[0] != '-'
            &&& t.len() > 0 ==> (t.last() == '-' <==> !text::is_alnum(s.last()))
            &&& forall|i: int| 0 < i < t.len() && t[i] == '-' ==> #[trigger] t[i - 1] != '-'
        }),
    decreases s.len(),
{
    if s.len() > 0 {
        let front = s.drop_last();
        lemma_segment_so_far(front);
        let before = segment_so_far(front);
        let t = segment_so_far(s);
        assert forall|i: int| 0 < i < t.len() && t[i] == '-' implies #[trigger] t[i - 1] != '-' by {
            if i < before.len() {
                assert(before[i - 1] != '-');
            }
        }
        assert forall|i: int| 0 <= i < t.len() implies id_char(#[trigger] t[i]) || t[i] == '-' by {
            if i < before.len() {
                assert(id_char(before[i]) || before[i] == '-');
            }
        }
    }
}

/// What is cut from a text that has been read: one hyphen at its end, where it
/// has one.
proof fn lemma_segment_cut(t: Seq<char>)
    requires
        t.len() > 0 ==> t[0] != '-',
        forall|i: int| 0 < i < t.len() && t[i] == '-' ==> #[trigger] t[i - 1] != '-',
    ensures
        text::trim_both(t, |c: char| c == '-') == if t.len() > 0 && t.last() == '-' {
            t.drop_last()
        } else {
            t
        },
{
    let p = |c: char| c == '-';
    assert(text::trim_front(t, p) == t);
    if t.len() > 0 && t.last() == '-' {
        assert(t[t.len() - 1 - 1] != '-');
        assert(text::trim_back(t.drop_last(), p) == t.drop_last());
    }
}

proof fn lemma_segment_kept(t: Seq<char>)
    requires
        forall|i: int| 0 <= i < t.len() ==> id_char(#[trigger] t[i]) || t[i] == '-',
        t.len() > 0 ==> t[0] != '-',
        forall|i: int| 0 < i < t.len() && t[i] == '-' ==> #[trigger] t[i - 1] != '-',
    ensures
        segment_so_far(t) == t,
    decreases t.len(),
{
    if t.len() > 0 {
        let front = t.drop_last();
        assert forall|i: int| 0 <= i < front.len() implies id_char(#[trigger] front[i]) || front[i]
            == '-' by {
            assert(id_char(t[i]) || t[i] == '-');
        }
        assert forall|i: int| 0 < i < front.len() && front[i] == '-' implies #[trigger] front[i - 1]
            != '-' by {
            assert(t[i - 1] != '-');
        }
        lemma_segment_kept(front);
        let last = t.last();
        assert(id_char(t[t.len() - 1]) || last == '-');
        if last == '-' {
            assert(t[t.len() - 1 - 1] != '-');
            assert(front.last() == t[t.len() - 2]);
        }
        assert(front.push(last) =~= t);
    } else {
        assert(t =~= Seq::empty());
    }
}

proof fn lemma_segment_filter(s: Seq<char>)
    ensures
        segment_so_far(s).filter(|c: char| c != '-') == kept_chars(s),
    decreases s.len(),
{
    let hyphenless = |c: char| c != '-';
    let alnum = |c: char| text::is_alnum(c);
    let lower = |c: char| text::lower(c);
    reveal(Seq::filter);
    if s.len() > 0 {
        let front = s.drop_last();
        lemma_segment_filter(front);
        let before = segment_so_far(front);
        let t = segment_so_far(s);
        if text::is_alnum(s.last()) {
            assert(t.drop_last() =~= before);
            assert(t.filter(hyphenless) == before.filter(hyphenless).push(text::lower(s.last())));
            assert(kept_chars(s) =~= kept_chars(front).push(text::lower(s.last())));
        } else if before.len() > 0 && before.last() != '-' {
            assert(t.drop_last() =~= before);
            assert(t.filter(hyphenless) == before.filter(hyphenless));
            assert(s.filter(alnum) == front.filter(alnum));
        } else {
            assert(s.filter(alnum) == front.filter(alnum));
        }
    } else {
        assert(segment_so_far(s).filter(hyphenless) =~= kept_chars(s));
    }
}

/// A segment is a clean name: lower-case ASCII letters, digits and hyphens, no
/// hyphen at its ends and no two in a row. It keeps the ASCII letters and digits
/// of the text, in lower case and in their order, and it is its own segment.
pub proof fn law_segment_is_clean(s: Seq<char>)
    ensures
        is_segment(segment(s)),
        segment(s).filter(|c: char| c != '-') == kept_chars(s),
        segment(segment(s)) == segment(s),
{
    let hyphenless = |c: char| c != '-';
    let t = segment_so_far(s);
    let cut = segment(s);
    lemma_segment_so_far(s);
    lemma_segment_cut(t);
    lemma_segment_filter(s);
    if t.len() > 0 && t.last() == '-' {
        reveal(Seq::filter);
        assert(t[t.len() - 1 - 1] != '-');
        assert forall|i: int| 0 <= i < cut.len() implies id_char(#[trigger] cut[i]) || cut[i]
            == '-' by {
            assert(id_char(t[i]) || t[i] == '-');
        }
        assert forall|i: int| 0 < i < cut.len() && cut[i] == '-' implies #[trigger] cut[i - 1]
            != '-' by {
            assert(t[i - 1] != '-');
        }
    }
    lemma_segment_kept(cut);
    lemma_segment_cut(cut);
}

proof fn lemma_segment_gap(s: Seq<char>, gap: Seq<char>)
    requires
        holds_no_alnum(gap),
    ensures
        segment_so_far(s + gap) == if gap.len() > 0 && segment_so_far(s).len() > 0
            && segment_so_far(s).last() != '-' {
            segment_so_far(s).push('-')
        } else {
            segment_so_far(s)
        },
    decreases gap.len(),
{
    if gap.len() == 0 {
        assert(s + gap =~= s);
    } else {
        let front = gap.drop_last();
        assert forall|i: int| 0 <= i < front.len() implies !text::is_alnum(#[trigger] front[i]) by {
            assert(!text::is_alnum(gap[i]));
        }
        lemma_segment_gap(s, front);
        assert((s + gap).drop_last() =~= s + front);
        assert(!text::is_alnum(gap[gap.len() - 1]));
    }
}

proof fn lemma_segment_rest(s: Seq<char>, rest: Seq<char>)
    requires
        rest.len() > 0,
        text::is_alnum(rest[0]),
    ensures
        segment_so_far(s + rest) == segment_so_far(s) + segment_so_far(rest),
        segment_so_far(rest).len() > 0,
    decreases rest.len(),
{
    let front = rest.drop_last();
    assert((s + rest).drop_last() =~= s + front);
    if front.len() == 0 {
        assert(s + front =~= s);
        assert((s + rest).last() == rest[0]);
        assert(segment_so_far(front) == Seq::<char>::empty());
        assert(segment_so_far(s + rest) == segment_so_far(s).push(text::lower(rest[0])));
        assert(segment_so_far(rest) == Seq::<char>::empty().push(text::lower(rest[0])));
        assert(segment_so_far(s + rest) =~= segment_so_far(s) + segment_so_far(rest));
    } else {
        assert(front[0] == rest[0]);
        lemma_segment_rest(s, front);
        assert(segment_so_far(s + rest) =~= segment_so_far(s) + segment_so_far(rest));
    }
}

/// Whatever stands between two letters or digits of a text becomes one hyphen,
/// nothing between them becomes nothing, and what stands before the first and
/// behind the last of them is dropped.
pub proof fn law_segment_has_one_hyphen_per_gap(
    lead: Seq<char>,
    first: Seq<char>,
    gap: Seq<char>,
    second: Seq<char>,
    trail: Seq<char>,
)
    requires
        holds_no_alnum(lead),
        holds_no_alnum(gap),
        holds_no_alnum(trail),
        first.len() > 0 && text::is_alnum(first[0]) && text::is_alnum(first.last()),
        second.len() > 0 && text::is_alnum(second[0]) && text::is_alnum(second.last()),
    ensures
        segment(lead + first + gap + second + trail) == if gap.len() > 0 {
            segment(first).push('-') + segment(second)
        } else {
            segment(first) + segment(second)
        },
{
    let none = Seq::<char>::empty();
    assert(none + lead =~= lead);
    lemma_segment_gap(none, lead);
    assert(segment_so_far(lead) =~= none);
    lemma_segment_rest(lead, first);
    lemma_segment_gap(lead + first, gap);
    lemma_segment_rest(lead + first + gap, second);
    lemma_segment_rest(none, second);
    lemma_segment_gap(lead + first + gap + second, trail);
    lemma_segment_so_far(first);
    lemma_segment_so_far(second);
    lemma_segment_cut(segment_so_far(first));
    lemma_segment_cut(segment_so_far(second));
    assert(segment_so_far(lead + first) =~= segment(first));
    let whole = lead + first + gap + second + trail;
    lemma_segment_so_far(whole);
    lemma_segment_cut(segment_so_far(whole));
    let joined = if gap.len() > 0 {
        segment(first).push('-') + segment(second)
    } else {
        segment(first) + segment(second)
    };
    assert(segment_so_far(lead + first + gap + second) =~= joined);
    assert(joined.last() == segment(second).last());
    if trail.len() > 0 {
        assert(segment_so_far(whole).drop_last() =~= joined);
    }
}

/// The tag under which an artifact is published.
pub fn remote_tag(crate_name: &str, artifact_id: &str) -> (out: String)
    ensures
        out@ == segment(crate_name@) + "-"@ + artifact_id@,
{
    sanitize_segment(crate_name).concat("-").concat(artifact_id)
}

/// What the keys of a tool's labels begin with.
pub open spec fn label_prefix(tool: Seq<char>) -> Seq<char> {
    if segment(tool).len() == 0 {
        "io.khoek.tool."@
    } else {
        "io.khoek."@ + segment(tool) + "."@
    }
}

/// The key of one of a tool's labels.
pub open spec fn label_key(tool: Seq<char>, suffix: Seq<char>) -> Seq<char> {
    label_prefix(tool) + suffix
}

fn render_label_key(tool: &str, suffix: &str) -> (out: String)
    ensures
        out@ == label_key(tool@, suffix@),
{
    let component = sanitize_segment(tool);
    if component.as_str().is_empty() {
        "io.khoek.tool.".to_owned().concat(suffix)
    } else {
        "io.khoek.".to_owned().concat(component.as_str()).concat(".").concat(suffix)
    }
}

/// What labels say.
pub open spec fn label_views(labels: Seq<(String, String)>) -> Seq<(Seq<char>, Seq<char>)> {
    labels.map_values(|l: (String, String)| (l.0@, l.1@))
}

/// The labels of an artifact's image.
pub open spec fn artifact_labels(tool: Seq<char>, m: ArtifactMetadata) -> Seq<
    (Seq<char>, Seq<char>),
> {
    seq![
        (label_key(tool, "schema-version"@), text::decimal(m.schema_version as nat)),
        (label_key(tool, "artifact-id"@), m.artifact_id@),
        (label_key(tool, "remote-tag"@), m.remote_tag@),
        (label_key(tool, "build-fingerprint"@), m.build_fingerprint@),
        (label_key(tool, "created-at-epoch-ms"@), text::decimal(m.created_at_epoch_ms as nat)),
        (label_key(tool, "crate-name"@), m.crate_name@),
        (label_key(tool, "binary-name"@), m.binary_name@),
        (label_key(tool, "cargo-profile"@), m.cargo_profile@),
        (label_key(tool, "cargo-features"@), text::joined(texts(m.cargo_features@), ","@)),
        (label_key(tool, "base-image"@), m.base_image@),
    ]
}

/// The labels of an artifact's image.
pub fn image_labels(tool: &str, metadata: &ArtifactMetadata) -> (r: Vec<(String, String)>)
    ensures
        label_views(r@) == artifact_labels(tool@, *metadata),
{
    let mut out: Vec<(String, String)> = Vec::new();
    out.push(
        (
            render_label_key(tool, "schema-version"),
            text::decimal_u64(metadata.schema_version as u64),
        ),
    );
    out.push((render_label_key(tool, "artifact-id"), metadata.artifact_id.clone()));
    out.push((render_label_key(tool, "remote-tag"), metadata.remote_tag.clone()));
    out.push((render_label_key(tool, "build-fingerprint"), metadata.build_fingerprint.clone()));
    out.push(
        (
            render_label_key(tool, "created-at-epoch-ms"),
            text::decimal_u128(metadata.created_at_epoch_ms),
        ),
    );
    out.push((render_label_key(tool, "crate-name"), metadata.crate_name.clone()));
    out.push((render_label_key(tool, "binary-name"), metadata.binary_name.clone()));
    out.push((render_label_key(tool, "cargo-profile"), metadata.cargo_profile.clone()));
    out.push(
        (render_label_key(tool, "cargo-features"), text::join(&metadata.cargo_features, ",")),
    );
    out.push((render_label_key(tool, "base-image"), metadata.base_image.clone()));
    assert(label_views(out@) =~= artifact_labels(tool@, *metadata));
    out
}

/// The value of the last label with a key, where there is one.
pub open spec fn label_lookup(labels: Seq<(Seq<char>, Seq<char>)>, key: Seq<char>) -> Option<
    Seq<char>,
>
    decreases labels.len(),
{
    if labels.len() == 0 {
        None
    } else if labels.last().0 == key {
        Some(labels.last().1)
    } else {
        label_lookup(labels.drop_last(), key)
    }
}

fn find_label(labels: &Vec<(String, String)>, key: &str) -> (r: Option<String>)
    ensures
        text::opt(r) == label_lookup(label_views(labels@), key@),
{
    let ghost all = label_views(labels@);
    let mut i: usize = labels.len();
    assert(all.take(i as int) =~= all);
    while i > 0
        invariant
            i <= labels@.len(),
            all == label_views(labels@),
            label_lookup(all, key@) == label_lookup(all.take(i as int), key@),
        decreases i,
    {
        i = i - 1;
        assert(all.take(i + 1).last() == (labels@[i as int].0@, labels@[i as int].1@));
        assert(all.take(i + 1).drop_last() =~= all.take(i as int));
        if text::same(labels[i].0.as_str(), key) {
            return Some(labels[i].1.clone());
        }
    }
    assert(all.take(0) =~= Seq::empty());
    None
}

fn label_value(tool: &str, labels: &Vec<(String, String)>, suffix: &str) -> (r: Option<String>)
    ensures
        text::opt(r) == label_lookup(label_views(labels@), label_key(tool@, suffix@)),
{
    let key = render_label_key(tool, suffix);
    find_label(labels, key.as_str())
}

/// The trimmed texts of a list that are not empty.
pub open spec fn nonblank(list: Seq<Seq<char>>) -> Seq<Seq<char>>
    decreases list.len(),
{
    if list.len() == 0 {
        Seq::empty()
    } else {
        let before = nonblank(list.drop_last());
        let last = text::trimmed(list.last());
        if last.len() > 0 {
            before.push(last)
        } else {
            before
        }
    }
}

/// The features that a label lists.
pub open spec fn listed_features(value: Seq<char>) -> Seq<Seq<char>> {
    nonblank(text::split(value, ','))
}

fn parse_label_features(value: &str) -> (out: Vec<String>)
    ensures
        texts(out@) == listed_features(value@),
{
    let pieces = text::split_char(value, ',');
    let ghost all = texts(pieces@);
    let mut out: Vec<String> = Vec::new();
    let mut i: usize = 0;
    assert(texts(out@) =~= nonblank(all.take(0)));
    while i < pieces.len()
        invariant
            i <= pieces@.len(),
            all == texts(pieces@),
            texts(out@) == nonblank(all.take(i as int)),
        decreases pieces@.len() - i,
    {
        let ghost before = texts(out@);
        assert(all.take(i + 1).drop_last() =~= all.take(i as int));
        assert(all.take(i + 1).last() == pieces@[i as int]@);
        let feature = text::trim(pieces[i].as_str());
        if !feature.as_str().is_empty() {
            out.push(feature);
            assert(texts(out@) =~= before.push(feature@));
        }
        i = i + 1;
    }
    assert(all.take(i as int) =~= all);
    out
}

/// What the labels of an image say of its artifact, where they are those of the
/// tool, complete, and of the current schema.
pub open spec fn labelled_summary(tool: Seq<char>, labels: Seq<(Seq<char>, Seq<char>)>) -> Option<
    SummaryView,
> {
    let at = |suffix: Seq<char>| label_lookup(labels, label_key(tool, suffix));
    match at("schema-version"@) {
        None => None,
        Some(schema) => if text::parsed_decimal(schema, u32::MAX as nat) != Some(
            CURRENT_SCHEMA_VERSION as nat,
        ) {
            None
        } else {
            match (
                at("artifact-id"@),
                at("remote-tag"@),
                at("build-fingerprint"@),
                at("created-at-epoch-ms"@),
                at("crate-name"@),
                at("binary-name"@),
                at("cargo-profile"@),
                at("cargo-features"@),
                at("base-image"@),
            ) {
                (
                    Some(artifact_id),
                    Some(remote_tag),
                    Some(build_fingerprint),
                    Some(created),
                    Some(crate_name),
                    Some(binary_name),
                    Some(cargo_profile),
                    Some(features),
                    Some(base_image),
                ) => match text::parsed_decimal(created, u128::MAX as nat) {
                    None => None,
                    Some(created_at) => Some(
                        SummaryView {
                            artifact_id,
                            remote_tag,
                            build_fingerprint,
                            created_at_epoch_ms: created_at as u128,
                            crate_name,
                            binary_name,
                            cargo_profile,
                            cargo_features: listed_features(features),
                            base_image,
                        },
                    ),
                },
                _ => None,
            }
        },
    }
}

/// What a summary that may be missing says.
pub open spec fn summary_view(r: Option<ArtifactSummary>) -> Option<SummaryView> {
    match r {
        Some(s) => Some(s@),
        None => None,
    }
}

/// What the labels of an image say of its artifact, where they are those of the
/// tool.
pub fn artifact_summary_from_labels(tool: &str, labels: &Vec<(String, String)>) -> (r: Option<
    ArtifactSummary,
>)
    ensures
        summary_view(r) == labelled_summary(tool@, label_views(labels@)),
{
    let schema = label_value(tool, labels, "schema-version")?;
    let version: u64 = text::parse_decimal(schema.as_str(), u32::MAX as u64)?;
    if version != CURRENT_SCHEMA_VERSION as u64 {
        return None;
    }
    let artifact_id = label_value(tool, labels, "artifact-id")?;
    let remote_tag = label_value(tool, labels, "remote-tag")?;
    let build_fingerprint = label_value(tool, labels, "build-fingerprint")?;
    let created = label_value(tool, labels, "created-at-epoch-ms")?;
    let created_at_epoch_ms: u128 = text::parse_decimal_u128(created.as_str(), u128::MAX)?;
    let crate_name = label_value(tool, labels, "crate-name")?;
    let binary_name = label_value(tool, labels, "binary-name")?;
    let cargo_profile = label_value(tool, labels, "cargo-profile")?;
    let features = label_value(tool, labels, "cargo-features")?;
    let cargo_features = parse_label_features(features.as_str());
    let base_image = label_value(tool, labels, "base-image")?;
    Some(
        ArtifactSummary {
            artifact_id,
            remote_tag,
            build_fingerprint,
            created_at_epoch_ms,
            crate_name,
            binary_name,
            cargo_profile,
            cargo_features,
            base_image,
        },
    )
}

// ---------------------------------------------------------------------------
// Laws of labels
// ---------------------------------------------------------------------------

/// The ends of a tool's label keys.
pub open spec fn label_suffixes() -> Seq<Seq<char>> {
    seq![
        "schema-version"@,
        "artifact-id"@,
        "remote-tag"@,
        "build-fingerprint"@,
        "created-at-epoch-ms"@,
        "crate-name"@,
        "binary-name"@,
        "cargo-profile"@,
        "cargo-features"@,
        "base-image"@,
    ]
}

/// The ends of label keys differ from one another and hold no dot.
proof fn lemma_suffixes()
    ensures
        label_suffixes().no_duplicates(),
        forall|i: int| 0 <= i < 10 ==> !(#[trigger] label_suffixes()[i]).contains('.'),
{
    reveal_strlit("schema-version");
    reveal_strlit("artifact-id");
    reveal_strlit("remote-tag");
    reveal_strlit("build-fingerprint");
    reveal_strlit("created-at-epoch-ms");
    reveal_strlit("crate-name");
    reveal_strlit("binary-name");
    reveal_strlit("cargo-profile");
    reveal_strlit("cargo-features");
    reveal_strlit("base-image");
    let all = label_suffixes();
    assert forall|i: int, j: int| 0 <= i < 10 && 0 <= j < 10 && i != j implies all[i] != all[j] by {
        assert(all[i].len() != all[j].len() || all[i][0] != all[j][0]);
    }
}

proof fn lemma_same_prefix(prefix: Seq<char>, a: Seq<char>, b: Seq<char>)
    requires
        prefix + a == prefix + b,
    ensures
        a == b,
{
    let n = prefix.len() as int;
    assert((prefix + a).skip(n) =~= a);
    assert((prefix + b).skip(n) =~= b);
}

proof fn lemma_lookup(labels: Seq<(Seq<char>, Seq<char>)>, key: Seq<char>, i: int)
    requires
        0 <= i < labels.len(),
        labels[i].0 == key,
        forall|j: int| i < j < labels.len() ==> (#[trigger] labels[j]).0 != key,
    ensures
        label_lookup(labels, key) == Some(labels[i].1),
    decreases labels.len(),
{
    if i < labels.len() - 1 {
        assert(labels[labels.len() - 1].0 != key);
        assert forall|j: int| i < j < labels.drop_last().len() implies (
        #[trigger] labels.drop_last()[j]).0 != key by {
            assert(labels[j].0 != key);
        }
        lemma_lookup(labels.drop_last(), key, i);
    }
}

proof fn lemma_lookup_none(labels: Seq<(Seq<char>, Seq<char>)>, key: Seq<char>)
    requires
        forall|j: int| 0 <= j < labels.len() ==> (#[trigger] labels[j]).0 != key,
    ensures
        label_lookup(labels, key) is None,
    decreases labels.len(),
{
    if labels.len() > 0 {
        assert(labels[labels.len() - 1].0 != key);
        assert forall|j: int| 0 <= j < labels.drop_last().len() implies (
        #[trigger] labels.drop_last()[j]).0 != key by {
            assert(labels[j].0 != key);
        }
        lemma_lookup_none(labels.drop_last(), key);
    }
}

proof fn lemma_artifact_lookup(tool: Seq<char>, m: ArtifactMetadata, i: int)
    requires
        0 <= i < 10,
    ensures
        label_lookup(artifact_labels(tool, m), label_key(tool, label_suffixes()[i])) == Some(
            artifact_labels(tool, m)[i].1,
        ),
{
    lemma_suffixes();
    let labels = artifact_labels(tool, m);
    let suffixes = label_suffixes();
    let key = label_key(tool, suffixes[i]);
    assert forall|j: int| 0 <= j < 10 implies (#[trigger] labels[j]).0 == label_key(
        tool,
        suffixes[j],
    ) by {}
    assert forall|j: int| i < j < labels.len() implies (#[trigger] labels[j]).0 != key by {
        if labels[j].0 == key {
            lemma_same_prefix(label_prefix(tool), suffixes[j], suffixes[i]);
        }
    }
    lemma_lookup(labels, key, i);
}

/// Whether a feature is written in a label as it is: not empty, without commas,
/// and without white space at its ends.
pub open spec fn plain_feature(f: Seq<char>) -> bool {
    f.len() > 0 && !f.contains(',') && text::trimmed(f) == f
}

proof fn lemma_features(list: Seq<Seq<char>>)
    requires
        forall|i: int| 0 <= i < list.len() ==> plain_feature(#[trigger] list[i]),
    ensures
        list.len() > 0 ==> text::split(text::joined(list, ","@), ',') == list,
        nonblank(list) == list,
    decreases list.len(),
{
    reveal_strlit(",");
    if list.len() > 0 {
        let front = list.drop_last();
        let last = list.last();
        assert(plain_feature(list[list.len() - 1]));
        assert forall|i: int| 0 <= i < front.len() implies plain_feature(#[trigger] front[i]) by {
            assert(plain_feature(list[i]));
        }
        lemma_features(front);
        unix_path::lemma_split_single(last, ',');
        if list.len() == 1 {
            assert(text::joined(list, ","@) == last);
            assert(seq![last] =~= list);
            assert(front =~= Seq::empty());
        } else {
            let a = text::joined(front, ","@);
            assert(text::joined(list, ","@) =~= a.push(',') + last);
            unix_path::lemma_split_concat(a, last, ',');
            assert(front + seq![last] =~= list);
        }
        assert(nonblank(list) =~= list);
    }
}

/// The labels of an artifact's image are read back as its summary, for every
/// artifact of the current schema whose features are written as they are.
pub proof fn law_labels_round_trip(tool: Seq<char>, m: ArtifactMetadata)
    requires
        m.schema_version == CURRENT_SCHEMA_VERSION,
        forall|i: int|
            0 <= i < m.cargo_features@.len() ==> plain_feature(
                (#[trigger] m.cargo_features@[i])@,
            ),
    ensures
        labelled_summary(tool, artifact_labels(tool, m)) == Some(m.summary()),
{
    let features = texts(m.cargo_features@);
    lemma_artifact_lookup(tool, m, 0);
    lemma_artifact_lookup(tool, m, 1);
    lemma_artifact_lookup(tool, m, 2);
    lemma_artifact_lookup(tool, m, 3);
    lemma_artifact_lookup(tool, m, 4);
    lemma_artifact_lookup(tool, m, 5);
    lemma_artifact_lookup(tool, m, 6);
    lemma_artifact_lookup(tool, m, 7);
    lemma_artifact_lookup(tool, m, 8);
    lemma_artifact_lookup(tool, m, 9);
    text::lemma_parsed_decimal(m.schema_version as nat, u32::MAX as nat);
    text::lemma_parsed_decimal(m.created_at_epoch_ms as nat, u128::MAX as nat);
    assert forall|i: int| 0 <= i < features.len() implies plain_feature(#[trigger] features[i]) by {
        assert(plain_feature(m.cargo_features@[i]@));
    }
    lemma_features(features);
    assert(listed_features(text::joined(features, ","@)) == features) by {
        if features.len() == 0 {
            let e: Seq<char> = Seq::empty();
            assert(text::joined(features, ","@) == e);
            reveal_with_fuel(nonblank, 2);
            assert(text::split(e, ',') =~= seq![e]);
            assert(text::trimmed(e) =~= e);
            assert(text::split(e, ',').drop_last() =~= Seq::empty());
            assert(nonblank(text::split(e, ',')) =~= features);
        }
    }
}

/// The part of a key behind its last dot does not depend on how the key is cut.
proof fn lemma_last_dot(a: Seq<char>, x: Seq<char>, b: Seq<char>, y: Seq<char>)
    requires
        a.push('.') + x == b.push('.') + y,
        !x.contains('.'),
        !y.contains('.'),
    ensures
        a == b,
        x == y,
{
    let whole = a.push('.') + x;
    let other = b.push('.') + y;
    assert(whole == other);
    assert(whole.len() == a.len() + 1 + x.len());
    assert(other.len() == b.len() + 1 + y.len());
    assert(whole[a.len() as int] == '.');
    assert(other[b.len() as int] == '.');
    if a.len() < b.len() {
        let i = b.len() - a.len() - 1;
        assert(x[i] == whole[b.len() as int]);
        assert(x.contains('.'));
    } else if b.len() < a.len() {
        let i = a.len() - b.len() - 1;
        assert(y[i] == other[a.len() as int]);
        assert(y.contains('.'));
    }
    assert(a =~= whole.take(a.len() as int));
    assert(b =~= other.take(b.len() as int));
    assert(x =~= whole.skip(a.len() as int + 1));
    assert(y =~= other.skip(b.len() as int + 1));
}

/// A label prefix without its last dot.
proof fn lemma_prefix_ends_with_dot(tool: Seq<char>)
    ensures
        label_prefix(tool).len() > 0,
        label_prefix(tool) == label_prefix(tool).drop_last().push('.'),
{
    reveal_strlit("io.khoek.tool.");
    reveal_strlit("io.khoek.");
    reveal_strlit(".");
    let p = label_prefix(tool);
    assert(p.last() == '.');
    assert(p =~= p.drop_last().push('.'));
}

/// The labels of one tool's artifacts say nothing to another tool.
pub proof fn law_labels_are_scoped_to_the_tool(
    tool: Seq<char>,
    other: Seq<char>,
    m: ArtifactMetadata,
)
    requires
        label_prefix(tool) != label_prefix(other),
    ensures
        labelled_summary(other, artifact_labels(tool, m)) is None,
{
    lemma_suffixes();
    let labels = artifact_labels(tool, m);
    let suffixes = label_suffixes();
    let key = label_key(other, suffixes[0]);
    let p = label_prefix(tool);
    let q = label_prefix(other);
    lemma_prefix_ends_with_dot(tool);
    lemma_prefix_ends_with_dot(other);
    assert forall|j: int| 0 <= j < labels.len() implies (#[trigger] labels[j]).0 != key by {
        assert(labels[j].0 == p + suffixes[j]);
        if labels[j].0 == key {
            lemma_last_dot(p.drop_last(), suffixes[j], q.drop_last(), suffixes[0]);
        }
    }
    lemma_lookup_none(labels, key);
}

// ---------------------------------------------------------------------------
// Choosing an artifact
// ---------------------------------------------------------------------------

/// Whether an artifact is of the current schema.
pub open spec fn is_current(a: StoredArtifact) -> bool {
    a.metadata.schema_version == CURRENT_SCHEMA_VERSION
}

/// Whether positions list the artifacts of the current schema, each once, the
/// newest first, and those of one age in their order.
pub open spec fn newest_first(list: Seq<StoredArtifact>, order: Seq<int>) -> bool {
    &&& forall|k: int|
        0 <= k < order.len() ==> 0 <= #[trigger] order[k] < list.len() && is_current(list[order[k]])
    &&& forall|i: int|
        0 <= i < list.len() && is_current(#[trigger] list[i]) ==> order.contains(i)
    &&& forall|j: int, k: int|
        #![trigger order[j], order[k]]
        0 <= j < k < order.len() ==> {
            let a = list[order[j]].metadata.created_at_epoch_ms;
            let b = list[order[k]].metadata.created_at_epoch_ms;
            a > b || (a == b && order[j] < order[k])
        }
}

/// Whether the first list holds the artifacts of the second at positions.
pub open spec fn picks(r: Seq<StoredArtifact>, list: Seq<StoredArtifact>, order: Seq<int>) -> bool {
    r.len() == order.len() && forall|k: int|
        0 <= k < r.len() ==> #[trigger] r[k] == list[order[k]]
}

/// The artifacts of the current schema, the newest first.
pub fn sort_artifacts(list: Vec<StoredArtifact>) -> (r: Vec<StoredArtifact>)
    ensures
        exists|order: Seq<int>| newest_first(list@, order) && picks(r@, list@, order),
{
    let ghost all = list@;
    let mut rest = list;
    let mut out: Vec<StoredArtifact> = Vec::new();
    let ghost mut order: Seq<int> = Seq::empty();
    let ghost mut done: int = 0;
    assert(rest@ =~= all.skip(0));
    assert(all.take(0) =~= Seq::empty());
    while rest.len() > 0
        invariant
            0 <= done <= all.len(),
            rest@ == all.skip(done),
            newest_first(all.take(done), order),
            picks(out@, all, order),
        decreases rest@.len(),
    {
        let next = rest.remove(0);
        let ghost before = order;
        let ghost seen = all.take(done);
        let ghost grown = all.take(done + 1);
        assert(next == all[done]);
        assert(rest@ =~= all.skip(done + 1));
        assert forall|i: int| 0 <= i < done implies #[trigger] grown[i] == seen[i] by {}
        assert(grown[done] == next);
        if next.metadata.schema_version == CURRENT_SCHEMA_VERSION {
            let mut at: usize = 0;
            while at < out.len() && out[at].metadata.created_at_epoch_ms
                >= next.metadata.created_at_epoch_ms
                invariant
                    at <= out@.len(),
                    picks(out@, all, before),
                    forall|k: int|
                        0 <= k < at ==> (#[trigger] out@[k]).metadata.created_at_epoch_ms
                            >= next.metadata.created_at_epoch_ms,
                decreases out@.len() - at,
            {
                at = at + 1;
            }
            let ghost old_out = out@;
            out.insert(at, next);
            proof {
                order = before.insert(at as int, done);
                assert(order.len() == before.len() + 1);
                assert forall|k: int| 0 <= k < order.len() implies #[trigger] order[k] == if k < at {
                    before[k]
                } else if k == at {
                    done
                } else {
                    before[k - 1]
                } by {}
                assert forall|k: int| 0 <= k < out@.len() implies #[trigger] out@[k]
                    == all[order[k]] by {
                    if k < at {
                        assert(out@[k] == old_out[k]);
                    } else if k > at {
                        assert(out@[k] == old_out[k - 1]);
                    }
                }
                assert forall|k: int| 0 <= k < order.len() implies 0 <= #[trigger] order[k]
                    < grown.len() && is_current(grown[order[k]]) by {
                    if k < at {
                        assert(is_current(seen[before[k]]));
                    } else if k > at {
                        assert(is_current(seen[before[k - 1]]));
                    }
                }
                assert forall|i: int| 0 <= i < grown.len() && is_current(
                    #[trigger] grown[i],
                ) implies order.contains(i) by {
                    if i < done {
                        assert(is_current(seen[i]));
                        assert(before.contains(i));
                        let k = choose|k: int| 0 <= k < before.len() && before[k] == i;
                        if k < at {
                            assert(order[k] == i);
                        } else {
                            assert(order[k + 1] == i);
                        }
                    } else {
                        assert(order[at as int] == i);
                    }
                }
                assert forall|j: int, k: int|
                    #![trigger order[j], order[k]]
                    0 <= j < k < order.len() implies {
                    let a = grown[order[j]].metadata.created_at_epoch_ms;
                    let b = grown[order[k]].metadata.created_at_epoch_ms;
                    a > b || (a == b && order[j] < order[k])
                } by {
                    if k == at {
                        assert(old_out[j].metadata.created_at_epoch_ms
                            >= next.metadata.created_at_epoch_ms);
                        assert(old_out[j] == all[before[j]]);
                        assert(0 <= before[j] < seen.len());
                    } else if j == at {
                        assert(old_out[k - 1] == all[before[k - 1]]);
                        assert(old_out[at as int].metadata.created_at_epoch_ms
                            < next.metadata.created_at_epoch_ms);
                        assert(old_out[at as int] == all[before[at as int]]);
                        if at < k - 1 {
                            assert(seen[before[at as int]] == all[before[at as int]]);
                            assert(seen[before[k - 1]] == all[before[k - 1]]);
                        }
                    } else {
                        let jj = if j < at {
                            j
                        } else {
                            j - 1
                        };
                        let kk = if k < at {
                            k
                        } else {
                            k - 1
                        };
                        assert(order[j] == before[jj]);
                        assert(order[k] == before[kk]);
                        assert(seen[before[jj]] == all[before[jj]]);
                        assert(seen[before[kk]] == all[before[kk]]);
                    }
                }
            }
        } else {
            proof {
                assert forall|k: int| 0 <= k < order.len() implies 0 <= #[trigger] order[k]
                    < grown.len() && is_current(grown[order[k]]) by {
                    assert(is_current(seen[order[k]]));
                }
                assert forall|i: int| 0 <= i < grown.len() && is_current(
                    #[trigger] grown[i],
                ) implies order.contains(i) by {
                    assert(is_current(seen[i]));
                }
                assert forall|j: int, k: int|
                    #![trigger order[j], order[k]]
                    0 <= j < k < order.len() implies {
                    let a = grown[order[j]].metadata.created_at_epoch_ms;
                    let b = grown[order[k]].metadata.created_at_epoch_ms;
                    a > b || (a == b && order[j] < order[k])
                } by {
                    assert(seen[order[j]] == grown[order[j]]);
                    assert(seen[order[k]] == grown[order[k]]);
                }
            }
        }
        proof {
            done = done + 1;
        }
    }
    proof {
        assert(all.skip(done).len() == 0);
        assert(all.take(done) =~= all);
    }
    out
}

/// Why no artifact was chosen.
#[derive(Debug, PartialEq, Eq)]
#[allow(inconsistent_fields)]
pub enum ResolveError {
    NoArtifacts { root: String },
    AmbiguousArtifact { selector: String, ids: String },
    AmbiguousCrate { selector: String, ids: String },
    NoMatch { selector: String },
}

impl ResolveError {
    /// The words for the error.
    pub open spec fn words(self) -> Seq<char> {
        match self {
            ResolveError::NoArtifacts { root } => "No local artifacts found in `"@ + root@ + "`."@,
            ResolveError::AmbiguousArtifact { selector, ids } => "Artifact selector `"@ + selector@
                + "` is ambiguous: "@ + ids@,
            ResolveError::AmbiguousCrate { selector, ids } => "Crate selector `"@ + selector@
                + "` matches multiple artifacts: "@ + ids@,
            ResolveError::NoMatch { selector } => "No artifact matched `"@ + selector@ + "`."@,
        }
    }

    /// The words for the error.
    pub fn message(&self) -> (out: String)
        ensures
            out@ == self.words(),
    {
        match self {
            ResolveError::NoArtifacts { root } => "No local artifacts found in `".to_owned().concat(
                root.as_str(),
            ).concat("`."),
            ResolveError::AmbiguousArtifact { selector, ids } =>
                "Artifact selector `".to_owned().concat(selector.as_str()).concat(
                "` is ambiguous: ",
            ).concat(ids.as_str()),
            ResolveError::AmbiguousCrate { selector, ids } =>
                "Crate selector `".to_owned().concat(selector.as_str()).concat(
                "` matches multiple artifacts: ",
            ).concat(ids.as_str()),
            ResolveError::NoMatch { selector } => "No artifact matched `".to_owned().concat(
                selector.as_str(),
            ).concat("`."),
        }
    }
}

/// How a selector picks artifacts.
#[derive(Clone, Copy, Debug, PartialEq, Eq, Structural)]
pub enum Selection {
    Id,
    IdPrefix,
    Crate,
}

/// Whether a selector picks an artifact.
pub open spec fn selects(selection: Selection, a: StoredArtifact, selector: Seq<char>) -> bool {
    match selection {
        Selection::Id => a.metadata.artifact_id@ == selector,
        Selection::IdPrefix => selector.is_prefix_of(a.metadata.artifact_id@),
        Selection::Crate => a.metadata.crate_name@ == selector,
    }
}

/// The positions of the artifacts that a selector picks.
pub open spec fn selected(
    selection: Selection,
    list: Seq<StoredArtifact>,
    selector: Seq<char>,
) -> Seq<int>
    decreases list.len(),
{
    if list.len() == 0 {
        Seq::empty()
    } else {
        let before = selected(selection, list.drop_last(), selector);
        if selects(selection, list.last(), selector) {
            before.push(list.len() - 1)
        } else {
            before
        }
    }
}

/// The ids of the artifacts at positions.
pub open spec fn ids_at(list: Seq<StoredArtifact>, positions: Seq<int>) -> Seq<Seq<char>> {
    positions.map_values(|i: int| list[i].metadata.artifact_id@)
}

/// The selector that is left after trimming, where one is.
pub open spec fn effective_selector(selector: Option<&str>) -> Option<Seq<char>> {
    match selector {
        Some(s) => if text::trimmed(s@).len() > 0 {
            Some(text::trimmed(s@))
        } else {
            None
        },
        None => None,
    }
}

/// Whether a result is the choice among artifacts. Without a selector the first
/// is chosen; else the first with that id, else the one whose id begins with it,
/// else the one of that crate, where there is only one.
pub open spec fn resolution(
    list: Seq<StoredArtifact>,
    root: Seq<char>,
    tool: Seq<char>,
    selector: Option<Seq<char>>,
    r: Result<&StoredArtifact, ResolveError>,
) -> bool {
    if list.len() == 0 {
        r matches Err(ResolveError::NoArtifacts { root: at }) && at@ == artifacts_root(root, tool)
    } else {
        match selector {
            None => r matches Ok(a) && *a == list[0],
            Some(s) => {
                let exact = selected(Selection::Id, list, s);
                let prefixed = selected(Selection::IdPrefix, list, s);
                let of_crate = selected(Selection::Crate, list, s);
                if exact.len() > 0 {
                    r matches Ok(a) && *a == list[exact[0]]
                } else if prefixed.len() == 1 {
                    r matches Ok(a) && *a == list[prefixed[0]]
                } else if prefixed.len() > 1 {
                    r matches Err(ResolveError::AmbiguousArtifact { selector, ids }) && selector@
                        == s && ids@ == text::joined(ids_at(list, prefixed), ", "@)
                } else if of_crate.len() == 1 {
                    r matches Ok(a) && *a == list[of_crate[0]]
                } else if of_crate.len() > 1 {
                    r matches Err(ResolveError::AmbiguousCrate { selector, ids }) && selector@ == s
                        && ids@ == text::joined(ids_at(list, of_crate), ", "@)
                } else {
                    r matches Err(ResolveError::NoMatch { selector }) && selector@ == s
                }
            },
        }
    }
}

fn is_selected(selection: Selection, a: &StoredArtifact, selector: &str) -> (r: bool)
    ensures
        r == selects(selection, *a, selector@),
{
    match selection {
        Selection::Id => text::same(a.metadata.artifact_id.as_str(), selector),
        Selection::IdPrefix => text::starts_with(a.metadata.artifact_id.as_str(), selector),
        Selection::Crate => text::same(a.metadata.crate_name.as_str(), selector),
    }
}

fn select(selection: Selection, list: &Vec<StoredArtifact>, selector: &str) -> (out: Vec<usize>)
    ensures
        out@.map_values(|i: usize| i as int) == selected(selection, list@, selector@),
        forall|k: int| 0 <= k < out@.len() ==> #[trigger] out@[k] < list@.len(),
{
    let mut out: Vec<usize> = Vec::new();
    let mut i: usize = 0;
    assert(out@.map_values(|i: usize| i as int) =~= selected(selection, list@.take(0), selector@));
    while i < list.len()
        invariant
            i <= list@.len(),
            out@.map_values(|i: usize| i as int) == selected(
                selection,
                list@.take(i as int),
                selector@,
            ),
            forall|k: int| 0 <= k < out@.len() ==> #[trigger] out@[k] < i,
        decreases list@.len() - i,
    {
        let ghost before = out@.map_values(|i: usize| i as int);
        assert(list@.take(i + 1).drop_last() =~= list@.take(i as int));
        if is_selected(selection, &list[i], selector) {
            out.push(i);
            assert(out@.map_values(|i: usize| i as int) =~= before.push(i as int));
        }
        i = i + 1;
    }
    assert(list@.take(i as int) =~= list@);
    out
}

fn list_ids(list: &Vec<StoredArtifact>, positions: &Vec<usize>) -> (out: String)
    requires
        forall|k: int| 0 <= k < positions@.len() ==> #[trigger] positions@[k] < list@.len(),
    ensures
        out@ == text::joined(
            ids_at(list@, positions@.map_values(|i: usize| i as int)),
            ", "@,
        ),
{
    let ghost all = ids_at(list@, positions@.map_values(|i: usize| i as int));
    let mut ids: Vec<String> = Vec::new();
    let mut k: usize = 0;
    while k < positions.len()
        invariant
            k <= positions@.len(),
            all == ids_at(list@, positions@.map_values(|i: usize| i as int)),
            forall|k: int| 0 <= k < positions@.len() ==> #[trigger] positions@[k] < list@.len(),
            texts(ids@) == all.take(k as int),
        decreases positions@.len() - k,
    {
        let ghost before = texts(ids@);
        let id = list[positions[k]].metadata.artifact_id.clone();
        ids.push(id);
        assert(texts(ids@) =~= before.push(id@));
        k = k + 1;
        assert(all.take(k as int) =~= before.push(all[k - 1]));
    }
    assert(all.take(k as int) =~= all);
    text::join(&ids, ", ")
}

/// Chooses one of the artifacts of a tool, which are in their order.
pub fn resolve_artifact<'a>(
    artifacts: &'a Vec<StoredArtifact>,
    root: &str,
    tool: &str,
    selector: Option<&str>,
) -> (r: Result<&'a StoredArtifact, ResolveError>)
    ensures
        resolution(artifacts@, root@, tool@, effective_selector(selector), r),
{
    if artifacts.len() == 0 {
        return Err(ResolveError::NoArtifacts { root: containers_root(root, tool) });
    }
    let selector = match selector {
        Some(s) => text::trim(s),
        None => return Ok(&artifacts[0]),
    };
    if selector.as_str().is_empty() {
        return Ok(&artifacts[0]);
    }
    let exact = select(Selection::Id, artifacts, selector.as_str());
    let ghost exact_at = exact@.map_values(|i: usize| i as int);
    assert(exact_at.len() == exact@.len());
    if exact.len() > 0 {
        assert(exact_at[0] == exact@[0] as int);
        return Ok(&artifacts[exact[0]]);
    }
    let prefixed = select(Selection::IdPrefix, artifacts, selector.as_str());
    let ghost prefixed_at = prefixed@.map_values(|i: usize| i as int);
    assert(prefixed_at.len() == prefixed@.len());
    if prefixed.len() == 1 {
        assert(prefixed_at[0] == prefixed@[0] as int);
        return Ok(&artifacts[prefixed[0]]);
    }
    if prefixed.len() > 1 {
        let ids = list_ids(artifacts, &prefixed);
        return Err(ResolveError::AmbiguousArtifact { selector, ids });
    }
    let of_crate = select(Selection::Crate, artifacts, selector.as_str());
    let ghost of_crate_at = of_crate@.map_values(|i: usize| i as int);
    assert(of_crate_at.len() == of_crate@.len());
    if of_crate.len() == 1 {
        assert(of_crate_at[0] == of_crate@[0] as int);
        return Ok(&artifacts[of_crate[0]]);
    }
    if of_crate.len() > 1 {
        let ids = list_ids(artifacts, &of_crate);
        return Err(ResolveError::AmbiguousCrate { selector, ids });
    }
    Err(ResolveError::NoMatch { selector })
}

} // verus!
