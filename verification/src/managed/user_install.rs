//! Reinstalling the program of the user who asked for a redeploy.

use vstd::prelude::*;

use super::account::UserInstallContext;
use super::builder::{registry_arguments, request_registry};
use super::job::RedeployRequest;
use super::product::{
    identifier, identifier_char, is_valid_identifier, ManagedProduct, ManagedProductOptions,
};
use super::protocol::{is_job_text, JobId};
use super::release::CargoRegistry;
use super::user_program::{ends_with_word, last_word};
use crate::command_reading::{cargo_installs, lemma_cargo_values, lemma_read_cargo};
use crate::debug_text::{debug_quote, debug_quoted};
use crate::process::{variable_views, CommandLine, CommandLineView};
use crate::text;
use crate::text::texts;
use crate::unix_path;
use crate::version::Version;

verus! {

pub const USER_INSTALL_ROOT: &'static str = "/run/capulus/user-installs";

/// The most bytes that the output for a version may have.
pub const VERSION_OUTPUT_LIMIT: u64 = 4096;

/// Why a user's program was not reinstalled.
#[derive(Debug, PartialEq, Eq)]
pub enum UserInstallError {
    WrongVersion(String),
    InvalidName(String),
    NotUserDirectory(String),
}

impl UserInstallError {
    /// The words for the error.
    pub open spec fn words(self) -> Seq<char> {
        match self {
            UserInstallError::WrongVersion(version) =>
                "requesting user's reinstalled CLI did not report version "@ + version@,
            UserInstallError::InvalidName(name) =>
                "ephemeral user installation has an invalid name: "@ + debug_quoted(name@),
            UserInstallError::NotUserDirectory(name) =>
                "ephemeral user installation is not a user-owned real directory: "@ + debug_quoted(
                name@,
            ),
        }
    }

    /// The words for the error.
    pub fn message(&self) -> (out: String)
        ensures
            out@ == self.words(),
    {
        match self {
            UserInstallError::WrongVersion(version) =>
                "requesting user's reinstalled CLI did not report version ".to_owned().concat(
                version.as_str(),
            ),
            UserInstallError::InvalidName(name) => {
                let name = debug_quote(name.as_str());
                "ephemeral user installation has an invalid name: ".to_owned().concat(name.as_str())
            },
            UserInstallError::NotUserDirectory(name) => {
                let name = debug_quote(name.as_str());
                "ephemeral user installation is not a user-owned real directory: ".to_owned().concat(
                    name.as_str(),
                )
            },
        }
    }
}

/// The search path of a user's build.
pub open spec fn user_search_path(cargo_home: Seq<char>) -> Seq<char> {
    unix_path::joined(cargo_home, "bin"@) + ":/usr/local/bin:/usr/bin:/bin"@
}

/// The search path of a user's build: the own Cargo binaries come first.
pub fn user_path(cargo_home: &str) -> (out: String)
    ensures
        out@ == user_search_path(cargo_home@),
{
    unix_path::join(cargo_home, "bin").concat(":/usr/local/bin:/usr/bin:/bin")
}

/// The directory of an ephemeral Cargo home.
pub fn ephemeral_root(product: &ManagedProduct, job: &JobId) -> (out: String)
    ensures
        out@ == unix_path::joined(
            "/run/capulus/user-installs"@,
            product@.product@ + "-"@ + text::hex(job@),
        ),
{
    let id = job.text();
    let name = product.name().to_owned().concat("-").concat(id.as_str());
    unix_path::join(USER_INSTALL_ROOT, name.as_str())
}

/// The command that reinstalls a user's program from an ephemeral Cargo home.
pub open spec fn reinstallation(
    o: ManagedProductOptions,
    request: RedeployRequest,
    context: UserInstallContext,
    ephemeral: Seq<char>,
) -> CommandLineView {
    CommandLineView {
        program: context.cargo@,
        arguments: seq![
            "install"@,
            "--locked"@,
            "--force"@,
            "--root"@,
            context.cargo_home@,
            "--version"@,
            request.release.version@.text(),
            o.package@,
            "--bin"@,
            o.user_binary.cargo_name@,
        ] + registry_arguments(request_registry(request)),
        environment: seq![
            ("CARGO_HOME"@, ephemeral),
            ("RUSTUP_HOME"@, context.rustup_home@),
            ("CARGO_TARGET_DIR"@, unix_path::joined(ephemeral, "target"@)),
            ("PATH"@, user_search_path(context.cargo_home@)),
        ],
    }
}

/// The command that reinstalls a user's program from an ephemeral Cargo home.
pub fn reinstall_user_cli(
    product: &ManagedProduct,
    request: &RedeployRequest,
    context: &UserInstallContext,
    ephemeral: &str,
) -> (r: CommandLine)
    ensures
        r@ == reinstallation(product@, *request, *context, ephemeral@),
{
    let mut command = CommandLine::new(context.cargo.as_str());
    let target = unix_path::join(ephemeral, "target");
    let search = user_path(context.cargo_home.as_str());
    command.env("CARGO_HOME", ephemeral);
    command.env("RUSTUP_HOME", context.rustup_home.as_str());
    command.env("CARGO_TARGET_DIR", target.as_str());
    command.env("PATH", search.as_str());
    let version = request.release.version.text();
    command.arg("install");
    command.arg("--locked");
    command.arg("--force");
    command.arg("--root");
    command.arg(context.cargo_home.as_str());
    command.arg("--version");
    command.arg(version.as_str());
    command.arg(product.package());
    command.arg("--bin");
    command.arg(product.user_binary().cargo_name.as_str());
    if let Some(registry) = request.release.registry.cargo_registry_name() {
        command.arg("--registry");
        command.arg(registry);
    }
    assert(command@ =~= reinstallation(product@, *request, *context, ephemeral@));
    command
}

/// The value that a command sets a variable to, where it sets it once.
pub open spec fn sets_variable(command: CommandLine, name: Seq<char>, value: Seq<char>) -> bool {
    &&& exists|i: int|
        0 <= i < command.environment@.len() && (#[trigger] command.environment@[i]).0@ == name
            && command.environment@[i].1@ == value
    &&& forall|i: int|
        0 <= i < command.environment@.len() && (#[trigger] command.environment@[i]).0@ == name
            ==> command.environment@[i].1@ == value
}

/// A user's program is reinstalled by that user's Cargo, in exactly the version of
/// the release and over the user's own installation, while Cargo keeps what it
/// writes besides in the ephemeral directory.
pub proof fn law_the_users_program_is_replaced_by_the_release(
    product: ManagedProduct,
    request: RedeployRequest,
    context: UserInstallContext,
    ephemeral: &str,
    r: CommandLine,
)
    requires
        product@.accepted(),
        call_ensures(reinstall_user_cli, (&product, &request, &context, ephemeral), r),
    ensures
        r.program@ == context.cargo@,
        cargo_installs(
            texts(r.arguments@),
            product@.package@,
            request.release.version@.text(),
            seq![product@.user_binary.cargo_name@],
            context.cargo_home@,
            match request.release.registry {
                CargoRegistry::CratesIo => None,
                CargoRegistry::Private { name, .. } => Some(name@),
            },
        ),
        sets_variable(r, "CARGO_HOME"@, ephemeral@),
        sets_variable(r, "RUSTUP_HOME"@, context.rustup_home@),
        sets_variable(r, "CARGO_TARGET_DIR"@, unix_path::joined(ephemeral@, "target"@)),
        sets_variable(
            r,
            "PATH"@,
            unix_path::joined(context.cargo_home@, "bin"@) + ":/usr/local/bin:/usr/bin:/bin"@,
        ),
{
    let words = texts(r.arguments@);
    assert(words == r@.arguments);
    let version = request.release.version@.text();
    let binary = product@.user_binary.cargo_name@;
    let registry = request_registry(request);
    let last: Seq<(Seq<char>, Seq<char>)> = match registry {
        Some(name) => seq![("--registry"@, name)],
        None => seq![],
    };
    let names = seq![binary];
    let pairs = names.map_values(|n: Seq<char>| ("--bin"@, n));
    let first = seq![("--root"@, context.cargo_home@), ("--version"@, version)];
    let second = pairs + last;
    assert(identifier_char(product@.package@[0]));
    lemma_read_cargo(words, first, product@.package@, second);
    assert(first + second =~= seq![("--root"@, context.cargo_home@)] + seq![("--version"@, version)]
        + pairs + last);
    lemma_cargo_values(first + second, version, names, context.cargo_home@, registry, true);
    reveal_strlit("CARGO_HOME");
    reveal_strlit("RUSTUP_HOME");
    reveal_strlit("CARGO_TARGET_DIR");
    reveal_strlit("PATH");
    assert("CARGO_HOME"@.len() == 10 && "RUSTUP_HOME"@.len() == 11 && "CARGO_TARGET_DIR"@.len()
        == 16 && "PATH"@.len() == 4);
    let variables = r.environment@;
    assert(variable_views(variables) == r@.environment);
    assert(forall|i: int|
        0 <= i < variables.len() ==> r@.environment[i] == ((#[trigger] variables[i]).0@, variables[
        i].1@));
    assert(variables[0].0@ == "CARGO_HOME"@ && variables[1].0@ == "RUSTUP_HOME"@
        && variables[2].0@ == "CARGO_TARGET_DIR"@ && variables[3].0@ == "PATH"@);
}

/// Checks that a reinstalled program reports the version of the release: as the
/// last word of what it prints.
pub fn verify_installed_version(output: &str, expected: &Version) -> (r: Result<
    (),
    UserInstallError,
>)
    ensures
        if last_word(output@) == Some(expected@.text()) {
            r is Ok
        } else {
            r matches Err(UserInstallError::WrongVersion(v)) && v@ == expected@.text()
        },
{
    let version = expected.text();
    if ends_with_word(output, version.as_str()) {
        return Ok(());
    }
    Err(UserInstallError::WrongVersion(version))
}

/// The position of the last hyphen, or minus one.
pub open spec fn last_hyphen(s: Seq<char>) -> int
    decreases s.len(),
{
    if s.len() == 0 {
        -1
    } else if s.last() == '-' {
        s.len() - 1
    } else {
        last_hyphen(s.drop_last())
    }
}

/// Whether a name is that of an ephemeral installation: a product and a job with
/// a hyphen between them.
pub open spec fn ephemeral_name_ok(name: Seq<char>) -> bool {
    let i = last_hyphen(name);
    i >= 0 && identifier(name.take(i)) && is_job_text(name.skip(i + 1))
}

/// Checks that an entry is an ephemeral installation that was left behind: it
/// has such a name, and is a real directory of a user's.
pub fn check_orphan(name: &str, is_directory: bool, uid: u32) -> (r: Result<(), UserInstallError>)
    ensures
        if !ephemeral_name_ok(name@) {
            r matches Err(UserInstallError::InvalidName(n)) && n@ == name@
        } else if !is_directory || uid == 0 {
            r matches Err(UserInstallError::NotUserDirectory(n)) && n@ == name@
        } else {
            r is Ok
        },
{
    let v = text::to_chars(name);
    let mut i: usize = v.len();
    assert(v@.take(i as int) =~= v@);
    while i > 0 && v[i - 1] != '-'
        invariant
            i <= v@.len(),
            last_hyphen(v@) == last_hyphen(v@.take(i as int)),
        decreases i,
    {
        assert(v@.take(i as int).drop_last() =~= v@.take(i - 1));
        i = i - 1;
    }
    if i == 0 {
        assert(v@.take(0) =~= Seq::empty());
        return Err(UserInstallError::InvalidName(name.to_owned()));
    }
    assert(v@.take(i as int).last() == '-');
    assert(v@.subrange(0, i - 1) =~= v@.take(i - 1));
    assert(v@.subrange(i as int, v@.len() as int) =~= v@.skip(i as int));
    let product = text::from_chars_range(&v, 0, i - 1);
    let job = text::from_chars_range(&v, i, v.len());
    if !is_valid_identifier(product.as_str()) || JobId::parse(job.as_str()).is_err() {
        return Err(UserInstallError::InvalidName(name.to_owned()));
    }
    if !is_directory || uid == 0 {
        return Err(UserInstallError::NotUserDirectory(name.to_owned()));
    }
    Ok(())
}

} // verus!
