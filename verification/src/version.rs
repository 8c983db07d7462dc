//! Semantic versions.

use vstd::prelude::*;

use crate::text;

verus! {

/// A semantic version: three numbers, a pre-release text and a build text,
/// either of which may be empty.
#[derive(Clone, Debug, PartialEq, Eq)]
pub struct Version {
    pub major: u64,
    pub minor: u64,
    pub patch: u64,
    pub pre: String,
    pub build: String,
}

/// What a version says.
#[verifier::ext_equal]
pub ghost struct VersionView {
    pub major: nat,
    pub minor: nat,
    pub patch: nat,
    pub pre: Seq<char>,
    pub build: Seq<char>,
}

impl VersionView {
    /// A release: no pre-release text and no build text.
    pub open spec fn is_stable(self) -> bool {
        self.pre.len() == 0 && self.build.len() == 0
    }

    /// Whether the three numbers come before those of another version.
    pub open spec fn numbers_before(self, other: VersionView) -> bool {
        ||| self.major < other.major
        ||| self.major == other.major && self.minor < other.minor
        ||| self.major == other.major && self.minor == other.minor && self.patch < other.patch
    }

    /// Whether the three numbers are those of another version.
    pub open spec fn same_numbers(self, other: VersionView) -> bool {
        self.major == other.major && self.minor == other.minor && self.patch == other.patch
    }

    /// The numbers with dots between them, the pre-release text behind a hyphen
    /// and the build text behind a plus sign, where they are not empty.
    pub open spec fn text(self) -> Seq<char> {
        let numbers = text::decimal(self.major).push('.') + text::decimal(self.minor).push('.')
            + text::decimal(self.patch);
        let with_pre = if self.pre.len() == 0 {
            numbers
        } else {
            numbers.push('-') + self.pre
        };
        if self.build.len() == 0 {
            with_pre
        } else {
            with_pre.push('+') + self.build
        }
    }

    /// The numbers of a version fit the fields that hold them.
    pub open spec fn fits(self) -> bool {
        self.major <= u64::MAX && self.minor <= u64::MAX && self.patch <= u64::MAX
    }
}

/// What a version that may be missing says.
pub open spec fn read(version: Option<Version>) -> Option<VersionView> {
    match version {
        Some(v) => Some(v@),
        None => None,
    }
}

/// What `semver::Version::parse` reads from a text, where it accepts it.
pub uninterp spec fn semver_parsed(text: Seq<char>) -> Option<VersionView>;

/// Whether `semver` orders the first version before the second. `None` where a
/// pre-release or build text is not one that `semver` accepts.
pub uninterp spec fn semver_before(a: VersionView, b: VersionView) -> Option<bool>;

/// `semver::Version::parse`. Its result is a function of the text. A text that
/// is accepted is the text of the version read from it, and the text of a
/// release is accepted and gives that release back.
#[verifier::external_body]
fn semver_parse(text: &str) -> (r: Option<Version>)
    ensures
        read(r) == semver_parsed(text@),
        r matches Some(version) ==> version@.text() == text@,
        forall|w: VersionView|
            #[trigger] w.text() == text@ && w.is_stable() && w.fits() ==> read(r) == Some(w),
{
    let version = semver::Version::parse(text).ok()?;
    Some(
        Version {
            major: version.major,
            minor: version.minor,
            patch: version.patch,
            pre: version.pre.as_str().to_owned(),
            build: version.build.as_str().to_owned(),
        },
    )
}

/// The operator `<` of `semver::Version`. Where the numbers differ they decide.
/// Two releases are ordered by their numbers alone. A release does not come
/// before a pre-release with the same numbers.
#[verifier::external_body]
fn semver_less(a: &Version, b: &Version) -> (r: Option<bool>)
    ensures
        r == semver_before(a@, b@),
        r is Some && !a@.same_numbers(b@) ==> r == Some(a@.numbers_before(b@)),
        a@.is_stable() && b@.is_stable() ==> r == Some(a@.numbers_before(b@)),
        r is Some && a@.same_numbers(b@) && a@.pre.len() == 0 && b@.pre.len() > 0 ==> r == Some(
            false,
        ),
{
    let a = semver::Version {
        major: a.major,
        minor: a.minor,
        patch: a.patch,
        pre: semver::Prerelease::new(&a.pre).ok()?,
        build: semver::BuildMetadata::new(&a.build).ok()?,
    };
    let pre = semver::Prerelease::new(&b.pre).ok()?;
    let build = semver::BuildMetadata::new(&b.build).ok()?;
    let b = semver::Version { major: b.major, minor: b.minor, patch: b.patch, pre, build };
    Some(a < b)
}

impl Version {
    pub open spec fn view(self) -> VersionView {
        VersionView {
            major: self.major as nat,
            minor: self.minor as nat,
            patch: self.patch as nat,
            pre: self.pre@,
            build: self.build@,
        }
    }

    /// A release with the given numbers.
    pub fn new(major: u64, minor: u64, patch: u64) -> (r: Version)
        ensures
            r@.major == major,
            r@.minor == minor,
            r@.patch == patch,
            r@.is_stable(),
    {
        Version { major, minor, patch, pre: String::new(), build: String::new() }
    }

    /// Reads a version from its text.
    pub fn parse(text: &str) -> (r: Option<Version>)
        ensures
            read(r) == semver_parsed(text@),
            r matches Some(version) ==> version@.text() == text@,
            forall|w: VersionView|
                #[trigger] w.text() == text@ && w.is_stable() && w.fits() ==> read(r) == Some(w),
    {
        semver_parse(text)
    }

    /// An owned copy.
    pub fn copy(&self) -> (r: Version)
        ensures
            r == *self,
    {
        Version {
            major: self.major,
            minor: self.minor,
            patch: self.patch,
            pre: self.pre.clone(),
            build: self.build.clone(),
        }
    }

    /// Whether two versions are the same in every field.
    pub fn same(&self, other: &Version) -> (r: bool)
        ensures
            r == (self@ == other@),
    {
        self.major == other.major && self.minor == other.minor && self.patch == other.patch
            && self.pre == other.pre && self.build == other.build
    }

    /// Whether the version is a release.
    pub fn is_stable(&self) -> (r: bool)
        ensures
            r == self@.is_stable(),
    {
        self.pre.as_str().is_empty() && self.build.as_str().is_empty()
    }

    /// Whether this version comes before another. `None` where a pre-release or
    /// build text is malformed.
    pub fn precedes(&self, other: &Version) -> (r: Option<bool>)
        ensures
            r == semver_before(self@, other@),
            r is Some && !self@.same_numbers(other@) ==> r == Some(self@.numbers_before(other@)),
            self@.is_stable() && other@.is_stable() ==> r == Some(self@.numbers_before(other@)),
            r is Some && self@.same_numbers(other@) && self@.pre.len() == 0 && other@.pre.len() > 0
                ==> r == Some(false),
    {
        semver_less(self, other)
    }

    /// The text of the version.
    pub fn text(&self) -> (out: String)
        ensures
            out@ == self@.text(),
    {
        let mut out = text::decimal_u64(self.major);
        out.push('.');
        let mut minor = text::decimal_u64(self.minor);
        minor.push('.');
        out.append(minor.as_str());
        let patch = text::decimal_u64(self.patch);
        out.append(patch.as_str());
        if !self.pre.as_str().is_empty() {
            out.push('-');
            out.append(self.pre.as_str());
        }
        if !self.build.as_str().is_empty() {
            out.push('+');
            out.append(self.build.as_str());
        }
        out
    }
}

} // verus!
