//! Helpers for build scripts: cache directories, Make and CMake commands, and
//! what the compilers say of themselves.

use vstd::prelude::*;

use crate::process::{CommandLine, CommandLineView};
use crate::search::{first_failing, lemma_first_failing};
use crate::text;
use crate::text::texts;
use crate::unix_path;
use crate::unix_path::{path, PathView};

verus! {

// ---------------------------------------------------------------------------
// Cache directories
// ---------------------------------------------------------------------------

/// A character of a component: ASCII letters and digits as they are, anything
/// else as a hyphen.
pub open spec fn component_char(c: char) -> char {
    if text::is_alnum(c) {
        c
    } else {
        '-'
    }
}

/// A text as a component of a name.
pub open spec fn component(value: Seq<char>) -> Seq<char> {
    value.map_values(|c: char| component_char(c))
}

/// A text as a component of a name.
pub fn sanitize_component(value: &str) -> (out: String)
    ensures
        out@ == component(value@),
{
    let v = text::to_chars(value);
    let ghost mapped = component(value@);
    let mut output = String::new();
    let mut i: usize = 0;
    while i < v.len()
        invariant
            i <= v@.len(),
            v@ == value@,
            mapped == component(value@),
            output@ == mapped.take(i as int),
        decreases v@.len() - i,
    {
        let c = v[i];
        if text::is_ascii_alnum(c) {
            output.push(c);
        } else {
            output.push('-');
        }
        i = i + 1;
        assert(mapped.take(i as int) =~= mapped.take(i - 1).push(mapped[i - 1]));
    }
    assert(mapped.take(i as int) =~= mapped);
    output
}

/// What a cache is built from, as one name.
#[derive(Clone, Debug, PartialEq, Eq)]
pub struct CacheFingerprint {
    value: String,
}

/// The parts of a fingerprint so far.
#[derive(Clone, Debug, PartialEq, Eq)]
pub struct CacheFingerprintBuilder {
    parts: Vec<String>,
}

/// Parts with one more component, where it is not empty.
pub open spec fn with_component(parts: Seq<Seq<char>>, value: Seq<char>) -> Seq<Seq<char>> {
    if value.len() == 0 {
        parts
    } else {
        parts.push(component(value))
    }
}

/// Parts with a key and its value, where neither is empty.
pub open spec fn with_pair(
    parts: Seq<Seq<char>>,
    key: Seq<char>,
    value: Seq<char>,
) -> Seq<Seq<char>> {
    if key.len() == 0 || value.len() == 0 {
        parts
    } else {
        with_component(parts, component(key) + "-"@ + component(value))
    }
}

/// Parts with one more component for each text of a list.
pub open spec fn with_components(parts: Seq<Seq<char>>, values: Seq<Seq<char>>) -> Seq<Seq<char>>
    decreases values.len(),
{
    if values.len() == 0 {
        parts
    } else {
        with_component(with_components(parts, values.drop_last()), values.last())
    }
}

impl CacheFingerprint {
    pub closed spec fn view(self) -> Seq<char> {
        self.value@
    }

    /// A fingerprint without parts.
    pub fn builder() -> (r: CacheFingerprintBuilder)
        ensures
            r@ == Seq::<Seq<char>>::empty(),
    {
        let r = CacheFingerprintBuilder { parts: Vec::new() };
        assert(r@ =~= Seq::<Seq<char>>::empty());
        r
    }

    /// The fingerprint of components, where there is one that is not empty.
    pub fn from_components(components: &Vec<String>) -> (r: Option<CacheFingerprint>)
        ensures
            fingerprint_of(r) == fingerprint(with_components(Seq::empty(), texts(components@))),
    {
        let ghost all = texts(components@);
        let mut builder = CacheFingerprint::builder();
        let mut i: usize = 0;
        assert(builder@ =~= with_components(Seq::empty(), all.take(0)));
        while i < components.len()
            invariant
                i <= components@.len(),
                all == texts(components@),
                builder@ == with_components(Seq::empty(), all.take(i as int)),
            decreases components@.len() - i,
        {
            assert(all.take(i + 1).drop_last() =~= all.take(i as int));
            assert(all.take(i + 1).last() == components@[i as int]@);
            builder = builder.component(components[i].as_str());
            i = i + 1;
        }
        assert(all.take(i as int) =~= all);
        builder.build()
    }

    /// The fingerprint as a name.
    pub fn as_str(&self) -> (r: &str)
        ensures
            r@ == self@,
    {
        self.value.as_str()
    }
}

/// The fingerprint of parts, where there are some.
pub open spec fn fingerprint(parts: Seq<Seq<char>>) -> Option<Seq<char>> {
    if parts.len() == 0 {
        None
    } else {
        Some(text::joined(parts, "__"@))
    }
}

/// What a fingerprint that may be missing says.
pub open spec fn fingerprint_of(f: Option<CacheFingerprint>) -> Option<Seq<char>> {
    match f {
        Some(f) => Some(f@),
        None => None,
    }
}

impl CacheFingerprintBuilder {
    pub closed spec fn view(self) -> Seq<Seq<char>> {
        texts(self.parts@)
    }

    /// Adds a component, where it is not empty.
    pub fn component(self, value: &str) -> (r: CacheFingerprintBuilder)
        ensures
            r@ == with_component(self@, value@),
    {
        let normalized = sanitize_component(value);
        let mut parts = self.parts;
        let ghost before = texts(parts@);
        if !normalized.as_str().is_empty() {
            parts.push(normalized);
            assert(texts(parts@) =~= before.push(normalized@));
        }
        CacheFingerprintBuilder { parts }
    }

    /// Adds a key and its value, where neither is empty.
    pub fn kv(self, key: &str, value: &str) -> (r: CacheFingerprintBuilder)
        ensures
            r@ == with_pair(self@, key@, value@),
    {
        let key = sanitize_component(key);
        let value = sanitize_component(value);
        if key.as_str().is_empty() || value.as_str().is_empty() {
            return self;
        }
        let pair = key.concat("-").concat(value.as_str());
        self.component(pair.as_str())
    }

    /// Adds a key that is on or off.
    pub fn flag(self, key: &str, enabled: bool) -> (r: CacheFingerprintBuilder)
        ensures
            r@ == with_pair(
                self@,
                key@,
                if enabled {
                    "1"@
                } else {
                    "0"@
                },
            ),
    {
        self.kv(
            key,
            if enabled {
                "1"
            } else {
                "0"
            },
        )
    }

    /// The fingerprint of the parts, where there are some.
    pub fn build(self) -> (r: Option<CacheFingerprint>)
        ensures
            fingerprint_of(r) == fingerprint(self@),
    {
        assert(texts(self.parts@).len() == self.parts@.len());
        if self.parts.len() == 0 {
            None
        } else {
            Some(CacheFingerprint { value: text::join(&self.parts, "__") })
        }
    }
}

/// The characters of a fingerprint.
pub open spec fn fingerprint_char(c: char) -> bool {
    text::is_alnum(c) || c == '-' || c == '_'
}

/// Whether a text is made of the characters of a fingerprint.
pub open spec fn fingerprint_text(s: Seq<char>) -> bool {
    forall|i: int| 0 <= i < s.len() ==> fingerprint_char(#[trigger] s[i])
}

/// Whatever goes into a component, what comes out is safe in a name, and a
/// fingerprint of such parts is too.
pub proof fn law_fingerprint_is_a_safe_name(value: Seq<char>, parts: Seq<Seq<char>>)
    requires
        forall|i: int| 0 <= i < parts.len() ==> fingerprint_text(#[trigger] parts[i]),
    ensures
        fingerprint_text(component(value)),
        component(component(value)) == component(value),
        fingerprint(parts) matches Some(f) ==> fingerprint_text(f),
{
    assert(component(component(value)) =~= component(value));
    if parts.len() > 0 {
        lemma_joined_text(parts);
    }
}

proof fn lemma_joined_text(parts: Seq<Seq<char>>)
    requires
        forall|i: int| 0 <= i < parts.len() ==> fingerprint_text(#[trigger] parts[i]),
    ensures
        fingerprint_text(text::joined(parts, "__"@)),
    decreases parts.len(),
{
    reveal_strlit("__");
    if parts.len() > 0 {
        assert(fingerprint_text(parts[parts.len() - 1]));
        assert(fingerprint_text(parts[0]));
        if parts.len() > 1 {
            let front = parts.drop_last();
            assert forall|i: int| 0 <= i < front.len() implies fingerprint_text(
                #[trigger] front[i],
            ) by {
                assert(fingerprint_text(parts[i]));
            }
            lemma_joined_text(front);
            let a = text::joined(front, "__"@);
            let s = text::joined(parts, "__"@);
            assert forall|i: int| 0 <= i < s.len() implies fingerprint_char(#[trigger] s[i]) by {
                if i < a.len() {
                    assert(fingerprint_char(a[i]));
                } else if i >= a.len() + 2 {
                    assert(fingerprint_char(parts.last()[i - a.len() - 2]));
                }
            }
        }
    }
}

/// The directory of a cache: a component, and perhaps a fingerprint.
#[derive(Clone, Debug, PartialEq, Eq)]
pub struct CacheDirBuilder {
    component: String,
    fingerprint: Option<CacheFingerprint>,
}

impl CacheDirBuilder {
    pub closed spec fn view(self) -> (Seq<char>, Option<Seq<char>>) {
        (self.component@, fingerprint_of(self.fingerprint))
    }

    /// The same directory with a fingerprint.
    pub fn with_fingerprint(self, fingerprint: CacheFingerprint) -> (r: CacheDirBuilder)
        ensures
            r@ == (self@.0, Some(fingerprint@)),
    {
        CacheDirBuilder { component: self.component, fingerprint: Some(fingerprint) }
    }

    /// The same directory with a fingerprint or without.
    pub fn with_fingerprint_opt(self, fingerprint: Option<CacheFingerprint>) -> (r: CacheDirBuilder)
        ensures
            r@ == (self@.0, fingerprint_of(fingerprint)),
    {
        CacheDirBuilder { component: self.component, fingerprint }
    }

    /// The path of the directory beneath a root.
    pub fn path(&self, cache_root: &str) -> (out: String)
        ensures
            out@ == match self@.1 {
                None => unix_path::joined(cache_root@, self@.0),
                Some(f) => unix_path::joined(
                    unix_path::joined(cache_root@, self@.0),
                    "fp-"@ + f,
                ),
            },
    {
        let base = unix_path::join(cache_root, self.component.as_str());
        match &self.fingerprint {
            None => base,
            Some(f) => {
                let name = "fp-".to_owned().concat(f.as_str());
                unix_path::join(base.as_str(), name.as_str())
            },
        }
    }
}

/// The directory of the cache of a component.
pub fn cache_dir(component: &str) -> (r: CacheDirBuilder)
    requires
        component@.len() > 0,
    ensures
        r@ == (self::component(component@), None::<Seq<char>>),
{
    CacheDirBuilder { component: sanitize_component(component), fingerprint: None }
}

/// The directory of the caches of a package for a target.
pub fn cache_root(target_root: &str, package: &str, target_triple: &str) -> (out: String)
    ensures
        out@ == unix_path::joined(
            unix_path::joined(
                unix_path::joined(target_root@, "build-deps"@),
                component(package@),
            ),
            component(target_triple@),
        ),
{
    let package = sanitize_component(package);
    let target = sanitize_component(target_triple);
    let base = unix_path::join(target_root, "build-deps");
    let middle = unix_path::join(base.as_str(), package.as_str());
    unix_path::join(middle.as_str(), target.as_str())
}

/// The directory of the vendored sources of a package.
pub fn vendor_dir(manifest_dir: &str) -> (out: String)
    ensures
        out@ == unix_path::joined(manifest_dir@, "vendor"@),
{
    unix_path::join(manifest_dir, "vendor")
}

/// The position behind the last part that is `target`, or zero.
pub open spec fn behind_target(parts: Seq<Seq<char>>) -> int
    decreases parts.len(),
{
    if parts.len() == 0 {
        0
    } else if parts.last() == "target"@ {
        parts.len() as int
    } else {
        behind_target(parts.drop_last())
    }
}

/// Whether a path is the target directory: the one that is set, else the nearest
/// directory named `target` above the output directory, else the one beside the
/// manifest.
pub open spec fn is_target_root(
    cargo_target_dir: Option<String>,
    out_dir: Seq<char>,
    manifest_dir: Seq<char>,
    root: Seq<char>,
) -> bool {
    match cargo_target_dir {
        Some(dir) => root == dir@,
        None => {
            let out = path(out_dir);
            let n = behind_target(out.parts);
            if n > 0 {
                path(root) == (PathView { absolute: out.absolute, parts: out.parts.take(n) })
            } else {
                root == unix_path::joined(manifest_dir, "target"@)
            }
        },
    }
}

/// The target directory.
pub fn target_root(cargo_target_dir: Option<String>, out_dir: &str, manifest_dir: &str) -> (out:
    String)
    ensures
        is_target_root(cargo_target_dir, out_dir@, manifest_dir@, out@),
{
    if let Some(dir) = cargo_target_dir {
        return dir;
    }
    let mut parts = unix_path::parts(out_dir);
    let ghost all = texts(parts@);
    let mut n: usize = parts.len();
    assert(all.take(n as int) =~= all);
    while n > 0
        invariant
            n <= parts@.len(),
            all == texts(parts@),
            behind_target(all) == behind_target(all.take(n as int)),
        decreases n,
    {
        assert(all.take(n as int).last() == parts@[n - 1]@);
        assert(all.take(n as int).drop_last() =~= all.take(n - 1));
        if text::same(parts[n - 1].as_str(), "target") {
            parts.truncate(n);
            assert(texts(parts@) =~= all.take(n as int));
            return render_parts(out_dir, &parts);
        }
        n = n - 1;
    }
    assert(all.take(0) =~= Seq::empty());
    unix_path::join(manifest_dir, "target")
}

fn render_parts(from: &str, parts: &Vec<String>) -> (out: String)
    requires
        0 < parts@.len() <= path(from@).parts.len(),
        texts(parts@) == path(from@).parts.take(parts@.len() as int),
    ensures
        path(out@) == (PathView { absolute: path(from@).absolute, parts: texts(parts@) }),
{
    if unix_path::is_absolute(from) {
        proof {
            assert forall|i: int| 0 <= i < texts(parts@).len() implies unix_path::is_part(
                #[trigger] texts(parts@)[i],
            ) by {
                unix_path::lemma_parts_are_parts(from@, i);
            }
            unix_path::lemma_rendered(texts(parts@));
        }
        unix_path::render(parts)
    } else {
        proof {
            unix_path::lemma_relative_parts(from@);
            unix_path::lemma_rendered_relative(texts(parts@));
        }
        text::join(parts, "/")
    }
}

// ---------------------------------------------------------------------------
// Parallel jobs
// ---------------------------------------------------------------------------

/// The number of jobs: the one that is set, where it is a number above zero,
/// else that of the processors, else one.
pub open spec fn job_count(num_jobs: Option<Seq<char>>, available: Option<usize>) -> nat {
    let set = match num_jobs {
        Some(s) => text::parsed_decimal(s, usize::MAX as nat),
        None => None,
    };
    match set {
        Some(n) => if n > 0 {
            n
        } else {
            processors(available)
        },
        None => processors(available),
    }
}

/// The number of processors, or one where it is not known.
pub open spec fn processors(available: Option<usize>) -> nat {
    match available {
        Some(n) => n as nat,
        None => 1,
    }
}

/// The number of jobs.
pub fn parallel_jobs(num_jobs: Option<&str>, available: Option<usize>) -> (r: usize)
    ensures
        r as nat == job_count(
            match num_jobs {
                Some(s) => Some(s@),
                None => None,
            },
            available,
        ),
{
    if let Some(s) = num_jobs {
        if let Some(n) = text::parse_decimal(s, usize::MAX as u64) {
            if n > 0 {
                return n as usize;
            }
        }
    }
    match available {
        Some(n) => n,
        None => 1,
    }
}

/// The argument for parallel jobs, where there is more than one.
pub open spec fn parallel_arguments(jobs: usize) -> Seq<Seq<char>> {
    if jobs > 1 {
        seq!["-j"@ + text::decimal(jobs as nat)]
    } else {
        seq![]
    }
}

/// Adds the argument for parallel jobs to a command.
pub fn apply_parallel(command: &mut CommandLine, jobs: usize)
    ensures
        final(command)@ == (CommandLineView {
            arguments: old(command)@.arguments + parallel_arguments(jobs),
            ..old(command)@
        }),
{
    let ghost before = command@;
    if jobs > 1 {
        let digits = text::decimal_u64(jobs as u64);
        let argument = "-j".to_owned().concat(digits.as_str());
        command.arg(argument.as_str());
    }
    assert(command@ =~= (CommandLineView {
        arguments: before.arguments + parallel_arguments(jobs),
        ..before
    }));
}

/// The arguments for parallel jobs of CMake.
pub open spec fn cmake_parallel_arguments(jobs: usize, supports_parallel: bool) -> Seq<Seq<char>> {
    if jobs > 1 && supports_parallel {
        seq!["--parallel"@, text::decimal(jobs as nat)]
    } else {
        seq![]
    }
}

/// The variable for parallel jobs of CMake.
pub open spec fn cmake_parallel_variables(jobs: usize, install: bool) -> Seq<
    (Seq<char>, Seq<char>),
> {
    if jobs <= 1 {
        seq![]
    } else if install {
        seq![("CMAKE_INSTALL_PARALLEL_LEVEL"@, text::decimal(jobs as nat))]
    } else {
        seq![("CMAKE_BUILD_PARALLEL_LEVEL"@, text::decimal(jobs as nat))]
    }
}

/// Adds the settings for parallel jobs to a CMake command.
pub fn apply_cmake_parallel(
    command: &mut CommandLine,
    jobs: usize,
    supports_parallel: bool,
    install: bool,
)
    ensures
        final(command)@ == (CommandLineView {
            arguments: old(command)@.arguments + cmake_parallel_arguments(jobs, supports_parallel),
            environment: old(command)@.environment + cmake_parallel_variables(jobs, install),
            ..old(command)@
        }),
{
    let ghost before = command@;
    if jobs > 1 {
        let digits = text::decimal_u64(jobs as u64);
        if supports_parallel {
            command.arg("--parallel");
            command.arg(digits.as_str());
        }
        if install {
            command.env("CMAKE_INSTALL_PARALLEL_LEVEL", digits.as_str());
        } else {
            command.env("CMAKE_BUILD_PARALLEL_LEVEL", digits.as_str());
        }
    }
    assert(command@ =~= (CommandLineView {
        arguments: before.arguments + cmake_parallel_arguments(jobs, supports_parallel),
        environment: before.environment + cmake_parallel_variables(jobs, install),
        ..before
    }));
}

fn at_least_one(jobs: usize) -> (r: usize)
    ensures
        r == if jobs == 0 {
            1usize
        } else {
            jobs
        },
{
    if jobs == 0 {
        1
    } else {
        jobs
    }
}

// ---------------------------------------------------------------------------
// Make
// ---------------------------------------------------------------------------

/// Runs Make with a number of jobs, which is at least one.
#[derive(Clone, Copy, Debug, PartialEq, Eq, Structural)]
pub struct MakeRunner {
    jobs: usize,
}

/// A command, and the directory in which it runs.
#[derive(Clone, Debug, PartialEq, Eq)]
pub struct DirectoryCommand {
    pub command: CommandLine,
    pub directory: String,
}

/// The Make command with arguments behind that for parallel jobs.
pub open spec fn make_command(jobs: usize, arguments: Seq<Seq<char>>) -> CommandLineView {
    CommandLineView {
        program: "make"@,
        arguments: parallel_arguments(jobs) + arguments,
        environment: Seq::empty(),
    }
}

impl MakeRunner {
    /// The number of jobs.
    pub closed spec fn view(self) -> usize {
        self.jobs
    }

    /// A runner with the number of jobs that the environment asks for.
    pub fn from_env(num_jobs: Option<&str>, available: Option<usize>) -> (r: MakeRunner)
        ensures
            r@ == {
                let n = job_count(
                    match num_jobs {
                        Some(s) => Some(s@),
                        None => None,
                    },
                    available,
                );
                if n == 0 {
                    1
                } else {
                    n
                }
            },
    {
        MakeRunner::with_jobs(parallel_jobs(num_jobs, available))
    }

    /// A runner with a number of jobs, or one for zero.
    pub fn with_jobs(jobs: usize) -> (r: MakeRunner)
        ensures
            r@ == if jobs == 0 {
                1usize
            } else {
                jobs
            },
    {
        MakeRunner { jobs: at_least_one(jobs) }
    }

    /// The number of jobs.
    pub fn jobs(&self) -> (r: usize)
        ensures
            r == self@,
    {
        self.jobs
    }

    /// The command that makes the first target in a directory.
    pub fn command(&self, dir: &str) -> (r: DirectoryCommand)
        ensures
            r.command@ == make_command(self@, Seq::empty()),
            r.directory@ == dir@,
    {
        let mut command = CommandLine::new("make");
        apply_parallel(&mut command, self.jobs);
        assert(command@ =~= make_command(self@, Seq::empty()));
        DirectoryCommand { command, directory: dir.to_owned() }
    }

    /// The command that makes a target in a directory.
    pub fn command_for_target(&self, dir: &str, target: &str) -> (r: DirectoryCommand)
        ensures
            r.command@ == make_command(self@, seq![target@]),
            r.directory@ == dir@,
    {
        let mut made = self.command(dir);
        made.command.arg(target);
        assert(made.command@ =~= make_command(self@, seq![target@]));
        made
    }
}

/// How a command ended: whether it succeeded and the words for its status, or
/// why it did not start.
pub type Ended = Result<(bool, String), String>;

/// What is said of a command that did not succeed.
pub open spec fn run_fault(err: Seq<char>, ended: Ended) -> Option<Seq<char>> {
    match ended {
        Ok((true, _)) => None,
        Ok((false, status)) => Some(err + ": status "@ + status@),
        Err(e) => Some(err + ": "@ + e@),
    }
}

/// Demands that a command succeeded.
pub fn run(err: &str, ended: &Ended) -> (r: Result<(), String>)
    ensures
        match r {
            Ok(_) => run_fault(err@, *ended) is None,
            Err(e) => run_fault(err@, *ended) == Some(e@),
        },
{
    match ended {
        Ok((success, status)) => if *success {
            Ok(())
        } else {
            Err(err.to_owned().concat(": status ").concat(status.as_str()))
        },
        Err(e) => Err(err.to_owned().concat(": ").concat(e.as_str())),
    }
}

// ---------------------------------------------------------------------------
// CMake
// ---------------------------------------------------------------------------

/// A version of CMake.
#[derive(Clone, Copy, Debug, PartialEq, Eq, Structural)]
pub struct CmakeVersion {
    pub major: u32,
    pub minor: u32,
    pub patch: u32,
}

impl CmakeVersion {
    /// A version.
    pub fn new(major: u32, minor: u32, patch: u32) -> (r: CmakeVersion)
        ensures
            r == (CmakeVersion { major, minor, patch }),
    {
        CmakeVersion { major, minor, patch }
    }

    /// Whether this version is another one or a later one.
    pub open spec fn reaches(self, other: CmakeVersion) -> bool {
        ||| self.major > other.major
        ||| self.major == other.major && self.minor > other.minor
        ||| self.major == other.major && self.minor == other.minor && self.patch >= other.patch
    }

    /// Whether this version is another one or a later one.
    pub fn at_least(self, other: CmakeVersion) -> (r: bool)
        ensures
            r == self.reaches(other),
    {
        self.major > other.major || (self.major == other.major && self.minor > other.minor) || (
        self.major == other.major && self.minor == other.minor && self.patch >= other.patch)
    }
}

/// What a version of CMake can do in parallel.
#[derive(Clone, Copy, Debug, PartialEq, Eq, Structural)]
pub struct CmakeCapabilities {
    pub build_parallel: bool,
    pub install_parallel: bool,
}

/// What a version of CMake can do in parallel: build from 3.12 on, and install
/// from 3.31 on.
pub fn cmake_capabilities(version: CmakeVersion) -> (r: CmakeCapabilities)
    ensures
        r.build_parallel == version.reaches(CmakeVersion { major: 3, minor: 12, patch: 0 }),
        r.install_parallel == version.reaches(CmakeVersion { major: 3, minor: 31, patch: 0 }),
{
    CmakeCapabilities {
        build_parallel: version.at_least(CmakeVersion::new(3, 12, 0)),
        install_parallel: version.at_least(CmakeVersion::new(3, 31, 0)),
    }
}

/// The number of decimal digits at the beginning of a text.
pub open spec fn leading_digits(s: Seq<char>) -> int
    decreases s.len(),
{
    if s.len() > 0 && text::is_digit(s[0]) {
        1 + leading_digits(s.skip(1))
    } else {
        0
    }
}

/// The number at the beginning of a part of a version, where there is one that
/// fits.
pub open spec fn version_number(part: Seq<char>) -> Option<nat> {
    let n = leading_digits(part);
    if n == 0 || text::decimal_value(part.take(n)) > u32::MAX {
        None
    } else {
        Some(text::decimal_value(part.take(n)))
    }
}

/// The version that a text names: two or three parts between dots, each with a
/// number at its beginning; whatever follows is passed over.
pub open spec fn named_version(raw: Seq<char>) -> Option<CmakeVersion> {
    let parts = text::split(raw, '.');
    if parts.len() < 2 {
        None
    } else {
        let patch = if parts.len() > 2 {
            version_number(parts[2])
        } else {
            Some(0)
        };
        match (version_number(parts[0]), version_number(parts[1]), patch) {
            (Some(major), Some(minor), Some(patch)) => Some(
                CmakeVersion { major: major as u32, minor: minor as u32, patch: patch as u32 },
            ),
            _ => None,
        }
    }
}

proof fn lemma_leading_digits(s: Seq<char>, n: int)
    requires
        0 <= n <= s.len(),
        forall|i: int| 0 <= i < n ==> text::is_digit(#[trigger] s[i]),
        n < s.len() ==> !text::is_digit(s[n]),
    ensures
        leading_digits(s) == n,
    decreases s.len(),
{
    if n > 0 {
        assert(text::is_digit(s[0]));
        let rest = s.skip(1);
        assert forall|i: int| 0 <= i < n - 1 implies text::is_digit(#[trigger] rest[i]) by {
            assert(rest[i] == s[i + 1]);
        }
        lemma_leading_digits(rest, n - 1);
    }
}

fn parse_version_component(part: &str) -> (r: Option<u32>)
    ensures
        match r {
            Some(n) => version_number(part@) == Some(n as nat),
            None => version_number(part@) is None,
        },
{
    let v = text::to_chars(part);
    let mut n: usize = 0;
    while n < v.len() && '0' <= v[n] && v[n] <= '9'
        invariant
            n <= v@.len(),
            forall|i: int| 0 <= i < n ==> text::is_digit(#[trigger] v@[i]),
        decreases v@.len() - n,
    {
        n = n + 1;
    }
    proof {
        lemma_leading_digits(v@, n as int);
    }
    if n == 0 {
        return None;
    }
    let digits = text::from_chars_range(&v, 0, n);
    assert(digits@ =~= v@.take(n as int));
    assert(digits@.len() > 0 && digits@[0] == v@[0] && text::is_digit(v@[0]));
    assert(text::all_digits(digits@)) by {
        assert forall|i: int| 0 <= i < digits@.len() implies text::is_digit(
            #[trigger] digits@[i],
        ) by {
            assert(digits@[i] == v@[i]);
        }
    }
    match text::parse_decimal(digits.as_str(), u32::MAX as u64) {
        Some(value) => Some(value as u32),
        None => None,
    }
}

/// The version that a text names, where it names one.
pub fn read_cmake_version(raw: &str) -> (r: Option<CmakeVersion>)
    ensures
        r == named_version(raw@),
{
    let parts = text::split_char(raw, '.');
    let ghost all = texts(parts@);
    assert(all.len() == parts@.len());
    if parts.len() < 2 {
        return None;
    }
    assert(all[0] == parts@[0]@ && all[1] == parts@[1]@);
    let major: u32 = parse_version_component(parts[0].as_str())?;
    let minor: u32 = parse_version_component(parts[1].as_str())?;
    let patch: u32 = if parts.len() > 2 {
        assert(all[2] == parts@[2]@);
        parse_version_component(parts[2].as_str())?
    } else {
        0
    };
    Some(CmakeVersion { major, minor, patch })
}

/// The version that a text names.
pub fn parse_cmake_version(raw: &str) -> (r: CmakeVersion)
    requires
        named_version(raw@) is Some,
    ensures
        Some(r) == named_version(raw@),
{
    read_cmake_version(raw).unwrap()
}

/// Whether a line of CMake's output names its version.
pub open spec fn is_version_line(line: Seq<char>) -> bool {
    "cmake version"@.is_prefix_of(line)
}

/// The version in what `cmake --version` prints: the third word of the first
/// line that names it.
pub open spec fn printed_version(stdout: Seq<char>) -> Option<CmakeVersion> {
    let lines = text::lines(stdout);
    let i = first_failing(|k: int| !is_version_line(lines[k]), lines.len(), 0);
    if i >= lines.len() || text::words(lines[i]).len() < 3 {
        None
    } else {
        named_version(text::words(lines[i])[2])
    }
}

/// The version in what `cmake --version` prints, where it names one.
pub fn cmake_version(stdout: &str) -> (r: Option<CmakeVersion>)
    ensures
        r == printed_version(stdout@),
{
    let lines = text::split_lines(stdout);
    let ghost all = texts(lines@);
    let ghost p = |k: int| !is_version_line(all[k]);
    let mut i: usize = 0;
    while i < lines.len()
        invariant
            i <= lines@.len(),
            all == texts(lines@),
            forall|k: int| 0 <= k < i ==> #[trigger] p(k),
        decreases lines@.len() - i,
    {
        assert(all[i as int] == lines@[i as int]@);
        if text::starts_with(lines[i].as_str(), "cmake version") {
            proof {
                assert(!p(i as int));
                lemma_first_failing(p, all.len(), 0, i as int);
            }
            let words = text::split_words(lines[i].as_str());
            assert(texts(words@).len() == words@.len());
            if words.len() < 3 {
                return None;
            }
            assert(texts(words@)[2] == words@[2]@);
            return read_cmake_version(words[2].as_str());
        }
        assert(p(i as int));
        i = i + 1;
    }
    proof {
        lemma_first_failing(p, all.len(), 0, all.len() as int);
    }
    None
}

/// Runs CMake on a build directory with a number of jobs.
#[derive(Clone, Debug, PartialEq, Eq)]
pub struct CmakeRunner {
    build_dir: String,
    jobs: usize,
    capabilities: CmakeCapabilities,
}

/// The arguments for a configuration.
pub open spec fn config_arguments(config: Option<&str>) -> Seq<Seq<char>> {
    match config {
        Some(c) => seq!["--config"@, c@],
        None => seq![],
    }
}

impl CmakeRunner {
    /// The build directory.
    pub closed spec fn directory(self) -> Seq<char> {
        self.build_dir@
    }

    /// The number of jobs.
    pub closed spec fn job_number(self) -> usize {
        self.jobs
    }

    /// What CMake can do in parallel.
    pub closed spec fn abilities(self) -> CmakeCapabilities {
        self.capabilities
    }

    /// A runner on a build directory.
    pub fn new(build_dir: &str, jobs: usize, capabilities: CmakeCapabilities) -> (r: CmakeRunner)
        ensures
            r.directory() == build_dir@,
            r.job_number() == jobs,
            r.abilities() == capabilities,
    {
        CmakeRunner { build_dir: build_dir.to_owned(), jobs, capabilities }
    }

    /// The same runner with a number of jobs, or one for zero.
    pub fn with_jobs(self, jobs: usize) -> (r: CmakeRunner)
        ensures
            r.directory() == self.directory(),
            r.abilities() == self.abilities(),
            r.job_number() == if jobs == 0 {
                1usize
            } else {
                jobs
            },
    {
        CmakeRunner {
            build_dir: self.build_dir,
            jobs: at_least_one(jobs),
            capabilities: self.capabilities,
        }
    }

    /// The number of jobs.
    pub fn jobs(&self) -> (r: usize)
        ensures
            r == self.job_number(),
    {
        self.jobs
    }

    /// What CMake can do in parallel.
    pub fn capabilities(&self) -> (r: CmakeCapabilities)
        ensures
            r == self.abilities(),
    {
        self.capabilities
    }

    /// The command that builds a target.
    pub fn build_target(&self, target: &str, config: Option<&str>) -> (r: CommandLine)
        ensures
            r@ == (CommandLineView {
                program: "cmake"@,
                arguments: seq!["--build"@, self.directory(), "--target"@, target@]
                    + config_arguments(config) + cmake_parallel_arguments(
                    self.job_number(),
                    self.abilities().build_parallel,
                ),
                environment: cmake_parallel_variables(self.job_number(), false),
            }),
    {
        let mut command = CommandLine::new("cmake");
        command.arg("--build");
        command.arg(self.build_dir.as_str());
        command.arg("--target");
        command.arg(target);
        if let Some(c) = config {
            command.arg("--config");
            command.arg(c);
        }
        assert(command@.arguments =~= seq!["--build"@, self.directory(), "--target"@, target@]
            + config_arguments(config));
        apply_cmake_parallel(&mut command, self.jobs, self.capabilities.build_parallel, false);
        assert(command@.environment =~= cmake_parallel_variables(self.job_number(), false));
        command
    }

    /// The command that installs what was built.
    pub fn install(&self, config: Option<&str>) -> (r: CommandLine)
        ensures
            r@ == (CommandLineView {
                program: "cmake"@,
                arguments: seq!["--install"@, self.directory()] + config_arguments(config)
                    + cmake_parallel_arguments(
                    self.job_number(),
                    self.abilities().install_parallel,
                ),
                environment: cmake_parallel_variables(self.job_number(), true),
            }),
    {
        let mut command = CommandLine::new("cmake");
        command.arg("--install");
        command.arg(self.build_dir.as_str());
        if let Some(c) = config {
            command.arg("--config");
            command.arg(c);
        }
        assert(command@.arguments =~= seq!["--install"@, self.directory()] + config_arguments(
            config,
        ));
        apply_cmake_parallel(&mut command, self.jobs, self.capabilities.install_parallel, true);
        assert(command@.environment =~= cmake_parallel_variables(self.job_number(), true));
        command
    }
}

// ---------------------------------------------------------------------------
// Compilers
// ---------------------------------------------------------------------------

/// The processor that a flag names, where it names one.
pub open spec fn target_cpu(token: Seq<char>) -> Option<Seq<char>> {
    if "-Ctarget-cpu="@.is_prefix_of(token) {
        Some(token.skip("-Ctarget-cpu="@.len() as int))
    } else if "target-cpu="@.is_prefix_of(token) {
        Some(token.skip("target-cpu="@.len() as int))
    } else {
        None
    }
}

/// The processor that the last flag with one names.
pub open spec fn last_target_cpu(tokens: Seq<Seq<char>>) -> Option<Seq<char>>
    decreases tokens.len(),
{
    if tokens.len() == 0 {
        None
    } else if target_cpu(tokens.last()) is Some {
        target_cpu(tokens.last())
    } else {
        last_target_cpu(tokens.drop_last())
    }
}

fn after_prefix(s: &str, prefix: &str) -> (r: Option<String>)
    ensures
        text::opt(r) == if prefix@.is_prefix_of(s@) {
            Some(s@.skip(prefix@.len() as int))
        } else {
            None
        },
{
    if !text::starts_with(s, prefix) {
        return None;
    }
    let v = text::to_chars(s);
    let n: usize = prefix.unicode_len();
    assert(v@.subrange(n as int, v@.len() as int) =~= s@.skip(n as int));
    Some(text::from_chars_range(&v, n, v.len()))
}

fn read_target_cpu(token: &str) -> (r: Option<String>)
    ensures
        text::opt(r) == target_cpu(token@),
{
    let joined = after_prefix(token, "-Ctarget-cpu=");
    if joined.is_some() {
        return joined;
    }
    after_prefix(token, "target-cpu=")
}

/// Whether the compiler flags ask for the processor of the machine itself. The
/// flags are separated by unit separators.
pub fn wants_native_cpu_flags(flags: Option<&str>) -> (r: bool)
    ensures
        r == (flags matches Some(s) && last_target_cpu(text::split(s@, '\u{1f}')) == Some(
            "native"@,
        )),
{
    let flags = match flags {
        Some(s) => s,
        None => return false,
    };
    let tokens = text::split_char(flags, '\u{1f}');
    let ghost all = texts(tokens@);
    let mut i: usize = tokens.len();
    assert(all.take(i as int) =~= all);
    while i > 0
        invariant
            i <= tokens@.len(),
            all == texts(tokens@),
            last_target_cpu(all) == last_target_cpu(all.take(i as int)),
        decreases i,
    {
        i = i - 1;
        assert(all.take(i + 1).last() == tokens@[i as int]@);
        assert(all.take(i + 1).drop_last() =~= all.take(i as int));
        if let Some(cpu) = read_target_cpu(tokens[i].as_str()) {
            return text::same(cpu.as_str(), "native");
        }
    }
    assert(all.take(0) =~= Seq::empty());
    false
}

/// A directory that a compiler named, and whether it exists.
#[derive(Clone, Debug, PartialEq, Eq)]
pub struct NamedDirectory {
    pub path: String,
    pub exists: bool,
}

/// The paths of the directories that exist.
pub open spec fn existing_paths(named: Seq<NamedDirectory>) -> Seq<Seq<char>>
    decreases named.len(),
{
    if named.len() == 0 {
        Seq::empty()
    } else if named.last().exists {
        existing_paths(named.drop_last()).push(named.last().path@)
    } else {
        existing_paths(named.drop_last())
    }
}

/// Whether the target system is macOS.
pub open spec fn targets_macos(target_os: Option<String>) -> bool {
    text::opt(target_os) == Some("macos"@)
}

fn is_macos(target_os: &Option<String>) -> (r: bool)
    ensures
        r == targets_macos(*target_os),
{
    match target_os {
        Some(name) => text::same(name.as_str(), "macos"),
        None => false,
    }
}

/// The system include directories: none for macOS, and otherwise those that the
/// compiler named and that exist. `None` where there is no such directory.
pub fn clang_system_include_dirs(
    target_os: &Option<String>,
    named: &Vec<NamedDirectory>,
) -> (r: Option<Vec<String>>)
    ensures
        r is None <==> !targets_macos(*target_os) && existing_paths(named@).len() == 0,
        r matches Some(dirs) ==> texts(dirs@) == if targets_macos(*target_os) {
            Seq::empty()
        } else {
            existing_paths(named@)
        },
{
    let mut out: Vec<String> = Vec::new();
    assert(texts(out@) =~= Seq::empty());
    if is_macos(target_os) {
        return Some(out);
    }
    let mut i: usize = 0;
    assert(named@.take(0) =~= Seq::empty());
    while i < named.len()
        invariant
            i <= named@.len(),
            texts(out@) == existing_paths(named@.take(i as int)),
        decreases named@.len() - i,
    {
        let ghost before = texts(out@);
        assert(named@.take(i + 1).drop_last() =~= named@.take(i as int));
        if named[i].exists {
            out.push(named[i].path.clone());
            assert(texts(out@) =~= before.push(named@[i as int].path@));
        }
        i = i + 1;
    }
    assert(named@.take(i as int) =~= named@);
    assert(texts(out@).len() == out@.len());
    if out.len() == 0 {
        None
    } else {
        Some(out)
    }
}

/// The root of the macOS SDK: for macOS alone, what the environment declares
/// where it exists, or else what `xcrun` printed where that exists.
pub open spec fn sdk_root(
    target_os: Option<String>,
    declared: Option<NamedDirectory>,
    printed: Option<NamedDirectory>,
) -> Option<NamedDirectory> {
    if !targets_macos(target_os) {
        None
    } else {
        match declared {
            Some(d) if d.exists => Some(d),
            _ => match printed {
                Some(p) if p.exists => Some(p),
                _ => None,
            },
        }
    }
}

/// The root of the macOS SDK, where the target is macOS and there is one.
pub fn macos_sdk_root(
    target_os: &Option<String>,
    declared: Option<NamedDirectory>,
    printed: Option<NamedDirectory>,
) -> (r: Option<String>)
    ensures
        r == match sdk_root(*target_os, declared, printed) {
            Some(d) => Some(d.path),
            None => None,
        },
{
    if !is_macos(target_os) {
        return None;
    }
    if let Some(d) = declared {
        if d.exists {
            return Some(d.path);
        }
    }
    match printed {
        Some(p) => if p.exists {
            Some(p.path)
        } else {
            None
        },
        None => None,
    }
}

/// The arguments for system include directories.
pub open spec fn isystem_arguments(dirs: Seq<Seq<char>>) -> Seq<Seq<char>>
    decreases dirs.len(),
{
    if dirs.len() == 0 {
        Seq::empty()
    } else {
        isystem_arguments(dirs.drop_last()).push("-isystem"@).push(dirs.last())
    }
}

/// The arguments for system include directories.
pub fn clang_system_include_args(dirs: &Vec<String>) -> (r: Vec<String>)
    ensures
        texts(r@) == isystem_arguments(texts(dirs@)),
{
    let ghost all = texts(dirs@);
    let mut out: Vec<String> = Vec::new();
    let mut i: usize = 0;
    assert(texts(out@) =~= isystem_arguments(all.take(0)));
    while i < dirs.len()
        invariant
            i <= dirs@.len(),
            all == texts(dirs@),
            texts(out@) == isystem_arguments(all.take(i as int)),
        decreases dirs@.len() - i,
    {
        let ghost before = texts(out@);
        let dir = dirs[i].clone();
        out.push("-isystem".to_owned());
        out.push(dir);
        assert(texts(out@) =~= before.push("-isystem"@).push(dir@));
        assert(all.take(i + 1).drop_last() =~= all.take(i as int));
        i = i + 1;
    }
    assert(all.take(i as int) =~= all);
    out
}

/// The arguments for the macOS SDK, where there is one.
pub fn clang_macos_sysroot_args(sdk_root: &Option<String>) -> (r: Vec<String>)
    ensures
        texts(r@) == match sdk_root {
            Some(root) => seq!["-isysroot"@, root@],
            None => Seq::empty(),
        },
{
    let mut out: Vec<String> = Vec::new();
    if let Some(root) = sdk_root {
        out.push("-isysroot".to_owned());
        out.push(root.clone());
    }
    assert(texts(out@) =~= match sdk_root {
        Some(root) => seq!["-isysroot"@, root@],
        None => Seq::empty(),
    });
    out
}

/// The path that a compiler printed, where it printed one.
pub fn printed_path(stdout: &str) -> (r: Option<String>)
    ensures
        text::opt(r) == if text::trimmed(stdout@).len() == 0 {
            None
        } else {
            Some(text::trimmed(stdout@))
        },
{
    let trimmed = text::trim(stdout);
    if trimmed.as_str().is_empty() {
        None
    } else {
        Some(trimmed)
    }
}

} // verus!
