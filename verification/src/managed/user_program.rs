//! Updating the program that a user has installed with Cargo.

use vstd::prelude::*;

use super::product::{identifier, identifier_char, is_valid_identifier};
use crate::command_reading::{cargo_installs, lemma_cargo_values, lemma_read_cargo};
use crate::duration::{Duration, NANOS_PER_SECOND};
use crate::process::{variable_views, CommandLine, CommandLineView};
use crate::text;
use crate::text::texts;
use crate::unix_path;
use crate::unix_path::path;
use crate::version::{read, semver_parsed, Version, VersionView};

verus! {

/// How long is waited between two looks at Cargo.
pub const POLL_INTERVAL_MILLISECONDS: u64 = 100;

/// How long Cargo may take to end once it was told to.
pub const TERMINATION_GRACE_SECONDS: u64 = 2;

/// The most bytes of output that a program may print for its version.
pub const MAXIMUM_VERSION_OUTPUT: usize = 4096;

/// An update before it is checked.
#[derive(Clone, Debug, PartialEq, Eq)]
pub struct UserProgramUpdateOptions {
    pub package: String,
    pub cargo_binary: String,
    pub version: String,
    pub registry: Option<String>,
    pub cargo_root: String,
    pub timeout: Duration,
}

impl Default for UserProgramUpdateOptions {
    fn default() -> (r: Self)
        ensures
            r.package@.len() == 0,
            r.cargo_binary@.len() == 0,
            r.version@.len() == 0,
            r.registry is None,
            r.cargo_root@.len() == 0,
            r.timeout@ == 3600 * NANOS_PER_SECOND,
    {
        UserProgramUpdateOptions {
            package: String::new(),
            cargo_binary: String::new(),
            version: String::new(),
            registry: None,
            cargo_root: String::new(),
            timeout: Duration::from_secs(3600),
        }
    }
}

/// Why an update is refused or failed.
#[derive(Debug, PartialEq, Eq)]
pub enum UserProgramError {
    Package,
    Binary,
    Version,
    Unstable,
    Registry,
    CargoRoot,
    Timeout,
    RunsAsRoot,
    RootHasNoCargoRoot,
    NoHome,
    RelativeHome,
}

impl UserProgramError {
    /// The words for the error.
    pub open spec fn words(self) -> Seq<char> {
        match self {
            UserProgramError::Package => "user-program Cargo package name is invalid"@,
            UserProgramError::Binary => "user-program Cargo binary name is invalid"@,
            UserProgramError::Version => "user-program release version is not semantic"@,
            UserProgramError::Unstable =>
                "user-program release must be stable and omit build metadata"@,
            UserProgramError::Registry => "user-program Cargo registry name is invalid"@,
            UserProgramError::CargoRoot =>
                "user-program Cargo root must be a normalized absolute path"@,
            UserProgramError::Timeout =>
                "user-program update timeout must be between one minute and one day"@,
            UserProgramError::RunsAsRoot => "a user-program update must not run as root"@,
            UserProgramError::RootHasNoCargoRoot =>
                "a user-program Cargo root cannot be resolved for root"@,
            UserProgramError::NoHome => "current user has no home directory"@,
            UserProgramError::RelativeHome => "current user home directory is not absolute"@,
        }
    }

    /// The words for the error.
    pub fn message(&self) -> (r: &'static str)
        ensures
            r@ == self.words(),
    {
        match self {
            UserProgramError::Package => "user-program Cargo package name is invalid",
            UserProgramError::Binary => "user-program Cargo binary name is invalid",
            UserProgramError::Version => "user-program release version is not semantic",
            UserProgramError::Unstable =>
                "user-program release must be stable and omit build metadata",
            UserProgramError::Registry => "user-program Cargo registry name is invalid",
            UserProgramError::CargoRoot =>
                "user-program Cargo root must be a normalized absolute path",
            UserProgramError::Timeout =>
                "user-program update timeout must be between one minute and one day",
            UserProgramError::RunsAsRoot => "a user-program update must not run as root",
            UserProgramError::RootHasNoCargoRoot =>
                "a user-program Cargo root cannot be resolved for root",
            UserProgramError::NoHome => "current user has no home directory",
            UserProgramError::RelativeHome => "current user home directory is not absolute",
        }
    }
}

/// Whether a registry, where one is named, has a name.
pub open spec fn registry_ok(registry: Option<String>) -> bool {
    registry matches Some(name) ==> identifier(name@)
}

/// A Cargo root: a plain absolute path other than the root itself.
pub open spec fn cargo_root_ok(root: Seq<char>) -> bool {
    unix_path::is_plain(path(root)) && path(root) != path("/"@)
}

/// A timeout: from one minute to one day.
pub open spec fn timeout_ok(timeout: nat) -> bool {
    60 * NANOS_PER_SECOND <= timeout <= 86_400 * NANOS_PER_SECOND
}

impl UserProgramUpdateOptions {
    /// Why the update is refused, given the version that was read from its text:
    /// the first condition that does not hold decides.
    pub open spec fn fault(self, version: Option<VersionView>) -> Option<UserProgramError> {
        if !identifier(self.package@) {
            Some(UserProgramError::Package)
        } else if !identifier(self.cargo_binary@) {
            Some(UserProgramError::Binary)
        } else {
            match version {
                None => Some(UserProgramError::Version),
                Some(v) => if !v.is_stable() {
                    Some(UserProgramError::Unstable)
                } else if !registry_ok(self.registry) {
                    Some(UserProgramError::Registry)
                } else if !cargo_root_ok(self.cargo_root@) {
                    Some(UserProgramError::CargoRoot)
                } else if !timeout_ok(self.timeout@) {
                    Some(UserProgramError::Timeout)
                } else {
                    None
                },
            }
        }
    }

    /// Whether a result is the judgement on the update, given the version that
    /// was read from its text.
    pub open spec fn verdict(
        self,
        version: Option<VersionView>,
        r: Result<UserProgramUpdate, UserProgramError>,
    ) -> bool {
        match self.fault(version) {
            Some(e) => r == Err::<UserProgramUpdate, UserProgramError>(e),
            None => r matches Ok(update) && update.of(self) && Some(update.target()) == version,
        }
    }

    /// Checks the update, given the version that was read from its text.
    pub fn validate_with(self, version: Option<Version>) -> (r: Result<
        UserProgramUpdate,
        UserProgramError,
    >)
        ensures
            self.verdict(read(version), r),
    {
        if !is_valid_identifier(self.package.as_str()) {
            return Err(UserProgramError::Package);
        }
        if !is_valid_identifier(self.cargo_binary.as_str()) {
            return Err(UserProgramError::Binary);
        }
        let version = match version {
            Some(version) => version,
            None => return Err(UserProgramError::Version),
        };
        if !version.is_stable() {
            return Err(UserProgramError::Unstable);
        }
        if let Some(registry) = &self.registry {
            if !is_valid_identifier(registry.as_str()) {
                return Err(UserProgramError::Registry);
            }
        }
        if !unix_path::is_plain_path(self.cargo_root.as_str()) || unix_path::same_path(
            self.cargo_root.as_str(),
            "/",
        ) {
            return Err(UserProgramError::CargoRoot);
        }
        let least = Duration::from_secs(60);
        let most = Duration::from_secs(86_400);
        if !least.at_most(&self.timeout) || !self.timeout.at_most(&most) {
            return Err(UserProgramError::Timeout);
        }
        Ok(
            UserProgramUpdate {
                package: self.package,
                cargo_binary: self.cargo_binary,
                version,
                registry: self.registry,
                cargo_root: self.cargo_root,
                timeout: self.timeout,
            },
        )
    }

    /// Checks the update.
    pub fn validate(self) -> (r: Result<UserProgramUpdate, UserProgramError>)
        ensures
            self.verdict(semver_parsed(self.version@), r),
            r matches Ok(update) ==> update.target().text() == self.version@,
            forall|v: VersionView|
                #[trigger] v.text() == self.version@ && v.is_stable() && v.fits() && self.fault(
                    Some(v),
                ) is None ==> r is Ok,
    {
        let version = Version::parse(self.version.as_str());
        self.validate_with(version)
    }
}

/// An update that was checked: one exact version of one binary.
#[derive(Clone, Debug, PartialEq, Eq)]
pub struct UserProgramUpdate {
    package: String,
    cargo_binary: String,
    version: Version,
    registry: Option<String>,
    cargo_root: String,
    timeout: Duration,
}

/// The output that a program printed for its version.
#[derive(Clone, Debug, PartialEq, Eq)]
pub struct VersionOutput {
    pub success: bool,
    pub stdout: Vec<u8>,
    pub stdout_text: Option<String>,
    pub stderr: Vec<u8>,
}

/// What is done about Cargo while it runs.
#[derive(Clone, Copy, Debug, PartialEq, Eq, Structural)]
pub enum InstallStep {
    Succeeded,
    Failed,
    StopCancelled,
    StopTimedOut,
    Wait,
}

impl UserProgramUpdate {
    /// Whether the update is the one of the options.
    pub closed spec fn of(self, options: UserProgramUpdateOptions) -> bool {
        &&& self.package == options.package
        &&& self.cargo_binary == options.cargo_binary
        &&& self.registry == options.registry
        &&& self.cargo_root == options.cargo_root
        &&& self.timeout == options.timeout
    }

    /// The version of the update.
    pub closed spec fn target(self) -> VersionView {
        self.version@
    }

    /// The arguments of Cargo that install the update.
    pub closed spec fn arguments(self) -> Seq<Seq<char>> {
        update_arguments(
            self.version@,
            self.package@,
            self.cargo_binary@,
            self.cargo_root@,
            text::opt(self.registry),
        )
    }

    /// The directory of the user's Cargo installation.
    pub closed spec fn root(self) -> Seq<char> {
        self.cargo_root@
    }

    /// How long the update may take.
    pub closed spec fn limit(self) -> nat {
        self.timeout@
    }

    /// The name of the program.
    pub closed spec fn binary(self) -> Seq<char> {
        self.cargo_binary@
    }

    /// An update installs what its options name, within the time that they give it.
    pub proof fn law_an_update_is_of_its_options(self, options: UserProgramUpdateOptions)
        requires
            self.of(options),
        ensures
            self.root() == options.cargo_root@,
            self.limit() == options.timeout@,
            self.binary() == options.cargo_binary@,
            self.arguments() == update_arguments(
                self.target(),
                options.package@,
                options.cargo_binary@,
                options.cargo_root@,
                text::opt(options.registry),
            ),
    {
    }

    /// An update that was accepted has the user's own Cargo install the binary that
    /// its options name, in exactly the version that they name, under their root
    /// and from their registry.
    pub proof fn law_an_update_installs_what_its_options_name(
        self,
        options: UserProgramUpdateOptions,
        r: CommandLine,
    )
        requires
            call_ensures(
                UserProgramUpdateOptions::validate,
                (options,),
                Ok::<UserProgramUpdate, UserProgramError>(self),
            ),
            call_ensures(UserProgramUpdate::command, (&self,), r),
        ensures
            cargo_installs(
                texts(r.arguments@),
                options.package@,
                options.version@,
                seq![options.cargo_binary@],
                options.cargo_root@,
                text::opt(options.registry),
            ),
            r.program@ == unix_path::joined(options.cargo_root@, "bin/cargo"@),
            r.environment@.len() == 0,
    {
        let words = texts(r.arguments@);
        assert(words == r@.arguments);
        assert(variable_views(r.environment@) == r@.environment);
        assert(r@.environment.len() == r.environment@.len());
        let version = options.version@;
        let registry = text::opt(options.registry);
        let last: Seq<(Seq<char>, Seq<char>)> = match registry {
            Some(name) => seq![("--registry"@, name)],
            None => seq![],
        };
        let names = seq![options.cargo_binary@];
        let pairs = names.map_values(|n: Seq<char>| ("--bin"@, n));
        let first = seq![("--version"@, version)];
        let root = seq![("--root"@, options.cargo_root@)];
        let second = pairs + root + last;
        assert(identifier_char(options.package@[0]));
        lemma_read_cargo(words, first, options.package@, second);
        assert(first + second =~= first + pairs + root + last);
        lemma_cargo_values(first + second, version, names, options.cargo_root@, registry, false);
    }

    /// The path of the program that is installed.
    pub fn program_path(&self) -> (out: String)
        ensures
            out@ == unix_path::joined(unix_path::joined(self.root(), "bin"@), self.binary()),
    {
        let bin = unix_path::join(self.cargo_root.as_str(), "bin");
        unix_path::join(bin.as_str(), self.cargo_binary.as_str())
    }

    /// Whether the installed program is the one of the update, from what it
    /// printed for its version.
    pub fn is_current(&self, output: &VersionOutput) -> (r: bool)
        ensures
            r == (output.success && output.stdout@.len() <= MAXIMUM_VERSION_OUTPUT
                && output.stderr@.len() <= MAXIMUM_VERSION_OUTPUT && (output.stdout_text matches
                Some(s) && last_word(s@) == Some(self.target().text()))),
    {
        if !output.success || output.stdout.len() > MAXIMUM_VERSION_OUTPUT || output.stderr.len()
            > MAXIMUM_VERSION_OUTPUT {
            return false;
        }
        match &output.stdout_text {
            Some(s) => {
                let expected = self.version.text();
                ends_with_word(s.as_str(), expected.as_str())
            },
            None => false,
        }
    }

    /// The command that installs the update.
    pub fn command(&self) -> (r: CommandLine)
        ensures
            r@ == (CommandLineView {
                program: unix_path::joined(self.root(), "bin/cargo"@),
                arguments: self.arguments(),
                environment: Seq::empty(),
            }),
    {
        let program = unix_path::join(self.cargo_root.as_str(), "bin/cargo");
        let mut command = CommandLine::new(program.as_str());
        let version = self.version.text();
        command.arg("install");
        command.arg("--locked");
        command.arg("--force");
        command.arg("--version");
        command.arg(version.as_str());
        command.arg(self.package.as_str());
        command.arg("--bin");
        command.arg(self.cargo_binary.as_str());
        command.arg("--root");
        command.arg(self.cargo_root.as_str());
        if let Some(registry) = &self.registry {
            command.arg("--registry");
            command.arg(registry.as_str());
        }
        assert(command@.arguments =~= self.arguments());
        command
    }

    /// What is done about Cargo while it runs: its end comes first, then an
    /// interrupt, then the timeout.
    pub fn install_step(&self, exited: Option<bool>, cancelled: bool, elapsed: Duration) -> (r:
        InstallStep)
        ensures
            r == match exited {
                Some(success) => if success {
                    InstallStep::Succeeded
                } else {
                    InstallStep::Failed
                },
                None => if cancelled {
                    InstallStep::StopCancelled
                } else if elapsed@ >= self.limit() {
                    InstallStep::StopTimedOut
                } else {
                    InstallStep::Wait
                },
            },
    {
        match exited {
            Some(success) => if success {
                InstallStep::Succeeded
            } else {
                InstallStep::Failed
            },
            None => if cancelled {
                InstallStep::StopCancelled
            } else if self.timeout.at_most(&elapsed) {
                InstallStep::StopTimedOut
            } else {
                InstallStep::Wait
            },
        }
    }

    /// The text of a failed installation.
    pub fn failure_text(&self, status: &str) -> (out: String)
        ensures
            out@ == "Cargo failed to install "@ + self.binary() + " v"@ + self.target().text()
                + ": "@ + status@,
    {
        let version = self.version.text();
        "Cargo failed to install ".to_owned().concat(self.cargo_binary.as_str()).concat(
            " v",
        ).concat(version.as_str()).concat(": ").concat(status)
    }

    /// The text of an installation that took too long.
    pub fn timeout_text(&self) -> (out: String)
        ensures
            out@ == "timed out after "@ + text::decimal(self.limit() / (NANOS_PER_SECOND as nat))
                + " seconds updating "@ + self.binary(),
    {
        let seconds = text::decimal_u64(self.timeout.as_secs());
        "timed out after ".to_owned().concat(seconds.as_str()).concat(" seconds updating ").concat(
            self.cargo_binary.as_str(),
        )
    }
}

/// The arguments of Cargo that install one exact version of one binary.
pub open spec fn update_arguments(
    version: VersionView,
    package: Seq<char>,
    binary: Seq<char>,
    root: Seq<char>,
    registry: Option<Seq<char>>,
) -> Seq<Seq<char>> {
    seq![
        "install"@,
        "--locked"@,
        "--force"@,
        "--version"@,
        version.text(),
        package,
        "--bin"@,
        binary,
        "--root"@,
        root,
    ] + match registry {
        Some(name) => seq!["--registry"@, name],
        None => seq![],
    }
}

/// The last word of a text, where it has one.
pub open spec fn last_word(s: Seq<char>) -> Option<Seq<char>> {
    if text::words(s).len() == 0 {
        None
    } else {
        Some(text::words(s).last())
    }
}

/// Whether a word is the last one of a text.
pub fn ends_with_word(s: &str, word: &str) -> (r: bool)
    ensures
        r == (last_word(s@) == Some(word@)),
{
    let words = text::split_words(s);
    assert(texts(words@).len() == words@.len());
    if words.len() == 0 {
        return false;
    }
    assert(texts(words@).last() == words@[words@.len() - 1]@);
    text::same(words[words.len() - 1].as_str(), word)
}

/// Checks that an update does not run as root.
pub fn check_install_user(is_root: bool) -> (r: Result<(), UserProgramError>)
    ensures
        r == if is_root {
            Err::<(), UserProgramError>(UserProgramError::RunsAsRoot)
        } else {
            Ok::<(), UserProgramError>(())
        },
{
    if is_root {
        Err(UserProgramError::RunsAsRoot)
    } else {
        Ok(())
    }
}

/// The directory of the current user's Cargo installation.
pub fn current_user_cargo_root(is_root: bool, home: &Option<String>) -> (r: Result<
    String,
    UserProgramError,
>)
    ensures
        if is_root {
            r == Err::<String, UserProgramError>(UserProgramError::RootHasNoCargoRoot)
        } else {
            match home {
                None => r == Err::<String, UserProgramError>(UserProgramError::NoHome),
                Some(h) => if unix_path::absolute(h@) {
                    r matches Ok(root) && root@ == unix_path::joined(h@, ".cargo"@)
                } else {
                    r == Err::<String, UserProgramError>(UserProgramError::RelativeHome)
                },
            }
        },
{
    if is_root {
        return Err(UserProgramError::RootHasNoCargoRoot);
    }
    match home {
        None => Err(UserProgramError::NoHome),
        Some(h) => if unix_path::is_absolute(h.as_str()) {
            Ok(unix_path::join(h.as_str(), ".cargo"))
        } else {
            Err(UserProgramError::RelativeHome)
        },
    }
}

} // verus!
