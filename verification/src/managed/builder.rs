//! Building a release: the commands for Cargo and Rustup, and what is demanded
//! of what they produce.

use vstd::prelude::*;

use super::job::RedeployRequest;
use super::manifest::{release_accepted, release_fault, InstallationManifest};
use super::product::{identifier_char, ManagedProduct, ProductValidationError, SystemBinary};
use super::release::{CargoConfiguration, CargoRegistry};
use super::user_program::{ends_with_word, last_word};
use crate::command_reading::{
    cargo_installs, cargo_options, lemma_cargo_values, lemma_read_cargo,
};
use crate::digest;
use crate::duration::{Duration, NANOS_PER_SECOND};
use crate::text;
use crate::text::texts;
use crate::unix_path;
use crate::unix_path::path;
use crate::version::Version;

verus! {

pub const GLOBAL_BUILD_LOCK_ROOT: &'static str = "/run/capulus/locks";

pub const GLOBAL_BUILD_LOCK_NAME: &'static str = "managed-build";

/// The most bytes that the Rustup installer may have.
pub const RUSTUP_DOWNLOAD_LIMIT: u64 = 67_108_864;

pub const TOOLCHAIN_TIMEOUT_SECONDS: u64 = 1200;

pub const RUSTUP_BOOTSTRAP_TIMEOUT_SECONDS: u64 = 300;

pub const COMMAND_POLL_MILLISECONDS: u64 = 200;

/// Why a build was refused or failed.
#[derive(Debug, PartialEq, Eq)]
#[allow(inconsistent_fields)]
pub enum BuildError {
    MismatchedProduct,
    MalformedChecksum,
    InstallerTooLarge,
    ChecksumMismatch,
    NoRustupTarget { architecture: String, system: String },
    OutputTooLarge { description: String, limit: u64 },
    WrongVersion { binary: String, version: String },
    Manifest(ProductValidationError),
    ArtifactOwner(String),
    ForeignArtifact(String),
    NotInstalledProgram(String),
}

impl BuildError {
    /// The words for the error.
    pub open spec fn words(self) -> Seq<char> {
        match self {
            BuildError::MismatchedProduct => "build request does not match the managed product"@,
            BuildError::MalformedChecksum => "Rustup checksum response is malformed"@,
            BuildError::InstallerTooLarge => "Rustup installer exceeds the download safety limit"@,
            BuildError::ChecksumMismatch =>
                "Rustup installer checksum does not match its published SHA-256"@,
            BuildError::NoRustupTarget { architecture, system } =>
                "Capulus has no audited Rustup bootstrap target for "@ + architecture@ + "-"@
                + system@,
            BuildError::OutputTooLarge { description, limit } => description@ + " exceeds the "@
                + text::decimal(limit as nat) + "-byte safety limit"@,
            BuildError::WrongVersion { binary, version } => "staged binary "@ + binary@
                + " did not report requested version "@ + version@,
            BuildError::Manifest(e) => e.words(),
            BuildError::ArtifactOwner(path) =>
                "staged program is not an executable regular file owned by the declared artifact owner: "@
                + path@,
            BuildError::ForeignArtifact(path) =>
                "staged artifact is not a build-account-owned regular file: "@ + path@,
            BuildError::NotInstalledProgram(installed) =>
                "initial system setup must run from the installed managed program at "@
                + installed@,
        }
    }

    /// The words for the error.
    pub fn message(&self) -> (out: String)
        ensures
            out@ == self.words(),
    {
        match self {
            BuildError::MismatchedProduct =>
                "build request does not match the managed product".to_owned(),
            BuildError::MalformedChecksum => "Rustup checksum response is malformed".to_owned(),
            BuildError::InstallerTooLarge =>
                "Rustup installer exceeds the download safety limit".to_owned(),
            BuildError::ChecksumMismatch =>
                "Rustup installer checksum does not match its published SHA-256".to_owned(),
            BuildError::NoRustupTarget { architecture, system } =>
                "Capulus has no audited Rustup bootstrap target for ".to_owned().concat(
                architecture.as_str(),
            ).concat("-").concat(system.as_str()),
            BuildError::OutputTooLarge { description, limit } => {
                let limit = text::decimal_u64(*limit);
                description.clone().concat(" exceeds the ").concat(limit.as_str()).concat(
                    "-byte safety limit",
                )
            },
            BuildError::WrongVersion { binary, version } => "staged binary ".to_owned().concat(
                binary.as_str(),
            ).concat(" did not report requested version ").concat(version.as_str()),
            BuildError::Manifest(e) => e.message(),
            BuildError::ArtifactOwner(path) =>
                "staged program is not an executable regular file owned by the declared artifact owner: ".to_owned().concat(
                path.as_str(),
            ),
            BuildError::ForeignArtifact(path) =>
                "staged artifact is not a build-account-owned regular file: ".to_owned().concat(
                path.as_str(),
            ),
            BuildError::NotInstalledProgram(installed) =>
                "initial system setup must run from the installed managed program at ".to_owned().concat(
                installed.as_str(),
            ),
        }
    }
}

/// The directories of one build.
#[derive(Clone, Debug, PartialEq, Eq)]
pub struct BuildPaths {
    pub job_root: String,
    pub cargo_home: String,
    pub install_root: String,
}

/// The directories of the build that a request asks for.
pub fn build_paths(jobs_home: &str, request: &RedeployRequest) -> (r: BuildPaths)
    ensures
        r.job_root@ == unix_path::joined(
            jobs_home@,
            request.product@ + "-"@ + text::hex(request.job@),
        ),
        r.cargo_home@ == unix_path::joined(r.job_root@, "cargo"@),
        r.install_root@ == unix_path::joined(r.job_root@, "install"@),
{
    let id = request.job.text();
    let name = request.product.clone().concat("-").concat(id.as_str());
    let job_root = unix_path::join(jobs_home, name.as_str());
    let cargo_home = unix_path::join(job_root.as_str(), "cargo");
    let install_root = unix_path::join(job_root.as_str(), "install");
    BuildPaths { job_root, cargo_home, install_root }
}

/// The arguments that name the binaries to install.
pub open spec fn binary_arguments(binaries: Seq<SystemBinary>) -> Seq<Seq<char>>
    decreases binaries.len(),
{
    if binaries.len() == 0 {
        Seq::empty()
    } else {
        binary_arguments(binaries.drop_last()) + seq!["--bin"@, binaries.last().cargo_name@]
    }
}

/// The arguments that name a registry.
pub open spec fn registry_arguments(registry: Option<Seq<char>>) -> Seq<Seq<char>> {
    match registry {
        Some(name) => seq!["--registry"@, name],
        None => seq![],
    }
}

/// The name of the registry of a request, where it has one.
pub open spec fn request_registry(request: RedeployRequest) -> Option<Seq<char>> {
    match request.release.registry {
        super::release::CargoRegistry::CratesIo => None,
        super::release::CargoRegistry::Private { name, .. } => Some(name@),
    }
}

/// The arguments of Cargo that install the binaries of a release.
pub open spec fn install_arguments(
    request: RedeployRequest,
    binaries: Seq<SystemBinary>,
    install_root: Seq<char>,
) -> Seq<Seq<char>> {
    seq![
        "install"@,
        "--locked"@,
        "--force"@,
        "--root"@,
        install_root,
        "--version"@,
        request.release.version@.text(),
        request.package@,
    ] + binary_arguments(binaries) + registry_arguments(request_registry(request))
}

/// The arguments of Cargo that compile the release that a request asks for.
pub fn compile_arguments(
    request: &RedeployRequest,
    product: &ManagedProduct,
    install_root: &str,
) -> (r: Result<Vec<String>, BuildError>)
    ensures
        if request.product@ != product@.product@ || request.package@ != product@.package@ {
            r matches Err(e) && e is MismatchedProduct
        } else {
            r matches Ok(list) && texts(list@) == install_arguments(
                *request,
                product@.system_binaries@,
                install_root@,
            )
        },
{
    if !text::same(request.product.as_str(), product.name()) || !text::same(
        request.package.as_str(),
        product.package(),
    ) {
        return Err(BuildError::MismatchedProduct);
    }
    let mut list: Vec<String> = Vec::new();
    list.push("install".to_owned());
    list.push("--locked".to_owned());
    list.push("--force".to_owned());
    list.push("--root".to_owned());
    list.push(install_root.to_owned());
    list.push("--version".to_owned());
    list.push(request.release.version.text());
    list.push(request.package.clone());
    let ghost start = texts(list@);
    assert(start =~= seq![
        "install"@,
        "--locked"@,
        "--force"@,
        "--root"@,
        install_root@,
        "--version"@,
        request.release.version@.text(),
        request.package@,
    ]);
    let binaries = product.system_binaries();
    let mut i: usize = 0;
    assert(texts(list@) =~= start + binary_arguments(binaries@.take(0)));
    while i < binaries.len()
        invariant
            i <= binaries@.len(),
            texts(list@) == start + binary_arguments(binaries@.take(i as int)),
        decreases binaries@.len() - i,
    {
        let ghost before = texts(list@);
        let name = binaries[i].cargo_name.clone();
        list.push("--bin".to_owned());
        list.push(name);
        assert(texts(list@) =~= before.push("--bin"@).push(name@));
        assert(binaries@.take(i + 1).drop_last() =~= binaries@.take(i as int));
        i = i + 1;
        assert(texts(list@) =~= start + binary_arguments(binaries@.take(i as int)));
    }
    assert(binaries@.take(i as int) =~= binaries@);
    if let Some(registry) = request.release.registry.cargo_registry_name() {
        list.push("--registry".to_owned());
        list.push(registry.to_owned());
    }
    assert(texts(list@) =~= install_arguments(
        *request,
        product@.system_binaries@,
        install_root@,
    ));
    Ok(list)
}

/// What Cargo is told on its command line does not depend on the address, the
/// token and the certificates of a private registry.
pub proof fn law_arguments_hold_no_secrets(
    a: RedeployRequest,
    b: RedeployRequest,
    binaries: Seq<SystemBinary>,
    install_root: Seq<char>,
)
    requires
        a.package@ == b.package@,
        a.release.version@ == b.release.version@,
        request_registry(a) == request_registry(b),
    ensures
        install_arguments(a, binaries, install_root) == install_arguments(
            b,
            binaries,
            install_root,
        ),
{
}

/// Cargo is asked for exactly the release that a request names: the binaries of
/// the product, from the request's registry, under the given root, in one
/// version, whose text gives that version back when it is read.
pub proof fn law_cargo_builds_the_requested_release(
    request: RedeployRequest,
    product: ManagedProduct,
    install_root: &str,
    r: Result<Vec<String>, BuildError>,
    word: &str,
    read_back: Option<Version>,
)
    requires
        product@.accepted(),
        call_ensures(compile_arguments, (&request, &product, install_root), r),
        word@ == request.release.version@.text(),
        call_ensures(Version::parse, (word,), read_back),
    ensures
        r matches Ok(list) ==> {
            &&& request.product@ == product@.product@
            &&& cargo_installs(
                texts(list@),
                request.package@,
                word@,
                product@.system_binaries@.map_values(|b: SystemBinary| b.cargo_name@),
                install_root@,
                match request.release.registry {
                    CargoRegistry::CratesIo => None,
                    CargoRegistry::Private { name, .. } => Some(name@),
                },
            )
        },
        request.product@ == product@.product@ && request.package@ == product@.package@ ==> r is Ok,
        request.release.version@.is_stable() ==> (read_back matches Some(v) && v@
            == request.release.version@),
{
    if let Ok(list) = r {
        let words = texts(list@);
        let binaries = product@.system_binaries@;
        let names = binaries.map_values(|b: SystemBinary| b.cargo_name@);
        let registry = request_registry(request);
        let pairs = names.map_values(|n: Seq<char>| ("--bin"@, n));
        let last: Seq<(Seq<char>, Seq<char>)> = match registry {
            Some(name) => seq![("--registry"@, name)],
            None => seq![],
        };
        let first = seq![("--root"@, install_root@), ("--version"@, word@)];
        lemma_binary_arguments(binaries);
        assert(identifier_char(request.package@[0]));
        let second = pairs + last;
        let tail = binary_arguments(binaries) + registry_arguments(registry);
        assert forall|i: int| 0 <= i < second.len() implies cargo_options().contains(
            (#[trigger] second[i]).0,
        ) && words[4 + 2 * first.len() + 2 * i] == second[i].0 && words[5 + 2 * first.len() + 2 * i]
            == second[i].1 by {
            assert(i < binaries.len() ==> names_binary(binaries, i));
            assert(words[8 + 2 * i] == tail[2 * i]);
            assert(words[9 + 2 * i] == tail[2 * i + 1]);
        }
        lemma_read_cargo(words, first, request.package@, second);
        let r0 = seq![("--root"@, install_root@)];
        let v0 = seq![("--version"@, word@)];
        assert(first + second =~= r0 + v0 + pairs + last);
        lemma_cargo_values(first + second, word@, names, install_root@, registry, true);
    }
}

/// Whether the arguments name a binary at its place.
spec fn names_binary(binaries: Seq<SystemBinary>, i: int) -> bool {
    &&& binary_arguments(binaries)[2 * i] == "--bin"@
    &&& binary_arguments(binaries)[2 * i + 1] == binaries[i].cargo_name@
}

proof fn lemma_binary_arguments(binaries: Seq<SystemBinary>)
    ensures
        binary_arguments(binaries).len() == 2 * binaries.len(),
        forall|i: int| 0 <= i < binaries.len() ==> #[trigger] names_binary(binaries, i),
    decreases binaries.len(),
{
    if binaries.len() > 0 {
        let front = binaries.drop_last();
        lemma_binary_arguments(front);
        let before = binary_arguments(front);
        let all = binary_arguments(binaries);
        assert forall|i: int| 0 <= i < binaries.len() implies #[trigger] names_binary(
            binaries,
            i,
        ) by {
            if i < front.len() {
                assert(names_binary(front, i));
                assert(front[i] == binaries[i]);
                assert(all[2 * i] == before[2 * i]);
                assert(all[2 * i + 1] == before[2 * i + 1]);
            } else {
                assert(2 * i == before.len());
            }
        }
    }
}

/// A private file that a build needs: its path and contents.
#[derive(Clone, Debug, PartialEq, Eq)]
pub struct SecretFile {
    pub path: String,
    pub contents: String,
}

/// What private files say.
pub open spec fn secret_views(files: Seq<SecretFile>) -> Seq<(Seq<char>, Seq<char>)> {
    files.map_values(|f: SecretFile| (f.path@, f.contents@))
}

/// The path of a registry's certificates in a Cargo home.
pub fn registry_ca_path(cargo_home: &str) -> (out: String)
    ensures
        out@ == unix_path::joined(cargo_home@, "registry-ca.pem"@),
{
    unix_path::join(cargo_home, "registry-ca.pem")
}

/// The private files that make Cargo use a registry: the credentials and the
/// certificates, where there are some, and the configuration.
pub fn registry_files(cargo_home: &str, configuration: &CargoConfiguration<'_>) -> (r: Vec<
    SecretFile,
>)
    ensures
        secret_views(r@) == match (configuration.credentials, configuration.ca_pem) {
            (Some(credentials), Some(pem)) => seq![
                (unix_path::joined(cargo_home@, "credentials.toml"@), credentials@),
                (unix_path::joined(cargo_home@, "registry-ca.pem"@), pem@),
            ],
            (Some(credentials), None) => seq![
                (unix_path::joined(cargo_home@, "credentials.toml"@), credentials@),
            ],
            _ => seq![],
        } + seq![(unix_path::joined(cargo_home@, "config.toml"@), configuration.config@)],
{
    let mut files: Vec<SecretFile> = Vec::new();
    if let Some(credentials) = &configuration.credentials {
        files.push(
            SecretFile {
                path: unix_path::join(cargo_home, "credentials.toml"),
                contents: credentials.clone(),
            },
        );
        if let Some(pem) = configuration.ca_pem {
            files.push(
                SecretFile { path: registry_ca_path(cargo_home), contents: pem.to_owned() },
            );
        }
    }
    files.push(
        SecretFile {
            path: unix_path::join(cargo_home, "config.toml"),
            contents: configuration.config.clone(),
        },
    );
    assert(secret_views(files@) =~= (match (configuration.credentials, configuration.ca_pem) {
        (Some(credentials), Some(pem)) => seq![
            (unix_path::joined(cargo_home@, "credentials.toml"@), credentials@),
            (unix_path::joined(cargo_home@, "registry-ca.pem"@), pem@),
        ],
        (Some(credentials), None) => seq![
            (unix_path::joined(cargo_home@, "credentials.toml"@), credentials@),
        ],
        _ => seq![],
    } + seq![(unix_path::joined(cargo_home@, "config.toml"@), configuration.config@)]));
    files
}

/// The private files that are removed once Cargo has returned.
pub fn secret_paths(cargo_home: &str) -> (r: Vec<String>)
    ensures
        texts(r@) == seq![
            unix_path::joined(cargo_home@, "credentials.toml"@),
            unix_path::joined(cargo_home@, "registry-ca.pem"@),
        ],
{
    let mut out: Vec<String> = Vec::new();
    out.push(unix_path::join(cargo_home, "credentials.toml"));
    out.push(unix_path::join(cargo_home, "registry-ca.pem"));
    assert(texts(out@) =~= seq![
        unix_path::joined(cargo_home@, "credentials.toml"@),
        unix_path::joined(cargo_home@, "registry-ca.pem"@),
    ]);
    out
}

// ---------------------------------------------------------------------------
// Rustup
// ---------------------------------------------------------------------------

/// The platform of the Rustup installer for an architecture and a system.
pub open spec fn rustup_platform(architecture: Seq<char>, system: Seq<char>) -> Option<Seq<char>> {
    if system != "linux"@ {
        None
    } else if architecture == "x86_64"@ {
        Some("x86_64-unknown-linux-gnu"@)
    } else if architecture == "aarch64"@ {
        Some("aarch64-unknown-linux-gnu"@)
    } else {
        None
    }
}

/// The platform of the Rustup installer for an architecture and a system.
pub fn rustup_target(architecture: &str, system: &str) -> (r: Result<&'static str, BuildError>)
    ensures
        match rustup_platform(architecture@, system@) {
            Some(platform) => r matches Ok(p) && p@ == platform,
            None => r matches Err(BuildError::NoRustupTarget { architecture: a, system: s }) && a@
                == architecture@ && s@ == system@,
        },
{
    if text::same(system, "linux") {
        if text::same(architecture, "x86_64") {
            return Ok("x86_64-unknown-linux-gnu");
        }
        if text::same(architecture, "aarch64") {
            return Ok("aarch64-unknown-linux-gnu");
        }
    }
    Err(
        BuildError::NoRustupTarget {
            architecture: architecture.to_owned(),
            system: system.to_owned(),
        },
    )
}

/// The URL of the Rustup installer for a platform.
pub fn rustup_url(platform: &str) -> (out: String)
    ensures
        out@ == "https://static.rust-lang.org/rustup/dist/"@ + platform@ + "/rustup-init"@,
{
    "https://static.rust-lang.org/rustup/dist/".to_owned().concat(platform).concat("/rustup-init")
}

/// Whether a text is the first word of a checksum file.
pub open spec fn checksum_word(response: Seq<char>) -> Option<Seq<char>> {
    if text::words(response).len() == 0 {
        None
    } else {
        Some(text::words(response)[0])
    }
}

/// The checksum that a response publishes: its first word, where it is
/// sixty-four hexadecimal digits, in lower case.
pub open spec fn published_checksum(response: Seq<char>) -> Option<Seq<char>> {
    match checksum_word(response) {
        Some(word) => if super::journal::is_digest(word) {
            Some(word.map_values(|c: char| text::lower(c)))
        } else {
            None
        },
        None => None,
    }
}

/// The checksum that a response publishes.
pub fn expected_checksum(response: &str) -> (r: Result<String, BuildError>)
    ensures
        match published_checksum(response@) {
            Some(checksum) => r matches Ok(s) && s@ == checksum,
            None => r matches Err(e) && e is MalformedChecksum,
        },
{
    let words = text::split_words(response);
    assert(texts(words@).len() == words@.len());
    if words.len() == 0 {
        return Err(BuildError::MalformedChecksum);
    }
    assert(texts(words@)[0] == words@[0]@);
    if !super::journal::valid_digest(words[0].as_str()) {
        return Err(BuildError::MalformedChecksum);
    }
    let v = text::to_chars(words[0].as_str());
    let ghost mapped = v@.map_values(|c: char| text::lower(c));
    let mut out = String::new();
    let mut i: usize = 0;
    while i < v.len()
        invariant
            i <= v@.len(),
            mapped == v@.map_values(|c: char| text::lower(c)),
            out@ == mapped.take(i as int),
        decreases v@.len() - i,
    {
        out.push(text::to_lower(v[i]));
        i = i + 1;
        assert(mapped.take(i as int) =~= mapped.take(i - 1).push(mapped[i - 1]));
    }
    assert(mapped.take(i as int) =~= mapped);
    Ok(out)
}

/// Checks a Rustup installer, given its digest: it must not be too large, and
/// its digest must be the published one.
pub fn check_installer(length: usize, actual: &str, expected: &str) -> (r: Result<(), BuildError>)
    ensures
        if length > RUSTUP_DOWNLOAD_LIMIT {
            r matches Err(e) && e is InstallerTooLarge
        } else if actual@ != expected@ {
            r matches Err(e) && e is ChecksumMismatch
        } else {
            r is Ok
        },
{
    if length as u64 > RUSTUP_DOWNLOAD_LIMIT {
        return Err(BuildError::InstallerTooLarge);
    }
    if !text::same(actual, expected) {
        return Err(BuildError::ChecksumMismatch);
    }
    Ok(())
}

/// Checks a Rustup installer: it must not be too large, and its digest must be
/// the published one.
pub fn verify_installer(bytes: &Vec<u8>, expected: &str) -> (r: Result<(), BuildError>)
    ensures
        if bytes@.len() > RUSTUP_DOWNLOAD_LIMIT {
            r matches Err(e) && e is InstallerTooLarge
        } else if digest::digest_text(bytes@) != expected@ {
            r matches Err(e) && e is ChecksumMismatch
        } else {
            r is Ok
        },
{
    let actual = digest::bytes_digest(bytes);
    check_installer(bytes.len(), actual.as_str(), expected)
}

// ---------------------------------------------------------------------------
// What was built
// ---------------------------------------------------------------------------

/// Checks that an output is not too large.
pub fn check_output_size(length: u64, limit: u64, description: &str) -> (r: Result<(), BuildError>)
    ensures
        if length > limit {
            r matches Err(BuildError::OutputTooLarge { description: d, limit: l }) && d@
                == description@ && l == limit
        } else {
            r is Ok
        },
{
    if length > limit {
        return Err(BuildError::OutputTooLarge { description: description.to_owned(), limit });
    }
    Ok(())
}

/// Checks that a staged binary reports the requested version: as the last word
/// of what it prints.
pub fn check_reported_version(output: &str, binary: &str, expected: &Version) -> (r: Result<
    (),
    BuildError,
>)
    ensures
        if last_word(output@) == Some(expected@.text()) {
            r is Ok
        } else {
            r matches Err(BuildError::WrongVersion { binary: b, version: v }) && b@ == binary@ && v@
                == expected@.text()
        },
{
    let version = expected.text();
    if ends_with_word(output, version.as_str()) {
        return Ok(());
    }
    Err(BuildError::WrongVersion { binary: binary.to_owned(), version })
}

/// What was found of a staged program.
#[derive(Clone, Copy, Debug, PartialEq, Eq, Structural)]
pub struct ArtifactFacts {
    pub regular: bool,
    pub uid: u32,
    pub gid: u32,
    pub mode: u32,
}

/// The user and group that own what was built.
#[derive(Clone, Copy, Debug, PartialEq, Eq, Structural)]
pub struct ArtifactOwner {
    pub uid: u32,
    pub gid: u32,
}

impl ArtifactOwner {
    /// Whether a staged program is a regular file of the owner's with some right
    /// to execute it.
    pub open spec fn owns(self, facts: ArtifactFacts) -> bool {
        facts.regular && facts.uid == self.uid && facts.gid == self.gid && facts.mode & 0o111 != 0
    }

    /// Checks a file that is about to be copied into place: a regular file of the
    /// owner's.
    pub fn check_source(&self, path: &String, facts: &ArtifactFacts) -> (r: Result<(), BuildError>)
        ensures
            if facts.regular && facts.uid == self.uid && facts.gid == self.gid {
                r is Ok
            } else {
                r matches Err(BuildError::ForeignArtifact(p)) && p == *path
            },
    {
        if !facts.regular || facts.uid != self.uid || facts.gid != self.gid {
            return Err(BuildError::ForeignArtifact(path.clone()));
        }
        Ok(())
    }

    /// Checks a staged program.
    pub fn check(&self, path: &String, facts: &ArtifactFacts) -> (r: Result<(), BuildError>)
        ensures
            if self.owns(*facts) {
                r is Ok
            } else {
                r matches Err(BuildError::ArtifactOwner(p)) && p == *path
            },
    {
        if !facts.regular || facts.uid != self.uid || facts.gid != self.gid || facts.mode & 0o111
            == 0 {
            return Err(BuildError::ArtifactOwner(path.clone()));
        }
        Ok(())
    }
}

/// Checks that the running program is the installed one, before the system is
/// set up from it. Both paths are those that are left when links are followed;
/// `installed` is the path that the error names.
pub fn check_running_program(running: &str, resolved: &str, installed: &str) -> (r: Result<
    (),
    BuildError,
>)
    ensures
        if path(running@) == path(resolved@) {
            r is Ok
        } else {
            r matches Err(BuildError::NotInstalledProgram(p)) && p@ == installed@
        },
{
    if unix_path::same_path(running, resolved) {
        return Ok(());
    }
    Err(BuildError::NotInstalledProgram(installed.to_owned()))
}

/// Checks the manifest of what was built.
pub fn check_built_manifest(
    product: &ManagedProduct,
    manifest: &InstallationManifest,
    version: &Version,
) -> (r: Result<(), BuildError>)
    ensures
        r is Ok <==> release_accepted(product@, manifest@, version@),
        r matches Err(e) ==> e matches BuildError::Manifest(fault) && release_fault(
            product@,
            manifest@,
            version@,
            fault,
        ),
{
    match product.validate_release_manifest(manifest, version) {
        Ok(_) => Ok(()),
        Err(fault) => Err(BuildError::Manifest(fault)),
    }
}

/// What is done about a command that has a deadline.
#[derive(Clone, Copy, Debug, PartialEq, Eq, Structural)]
pub enum DeadlineStep {
    Succeeded,
    Failed,
    Terminate,
    Wait,
}

/// What is done about a command that has a deadline: its end comes before the
/// deadline.
pub fn deadline_step(exited: Option<bool>, elapsed: Duration, timeout: Duration) -> (r:
    DeadlineStep)
    ensures
        r == match exited {
            Some(success) => if success {
                DeadlineStep::Succeeded
            } else {
                DeadlineStep::Failed
            },
            None => if elapsed@ >= timeout@ {
                DeadlineStep::Terminate
            } else {
                DeadlineStep::Wait
            },
        },
{
    match exited {
        Some(success) => if success {
            DeadlineStep::Succeeded
        } else {
            DeadlineStep::Failed
        },
        None => if timeout.at_most(&elapsed) {
            DeadlineStep::Terminate
        } else {
            DeadlineStep::Wait
        },
    }
}

/// The text of a command that took too long.
pub fn deadline_text(timeout: Duration, action: &str) -> (out: String)
    ensures
        out@ == "timed out after "@ + text::decimal(timeout@ / (NANOS_PER_SECOND as nat))
            + " seconds trying to "@ + action@,
{
    let seconds = text::decimal_u64(timeout.as_secs());
    "timed out after ".to_owned().concat(seconds.as_str()).concat(" seconds trying to ").concat(
        action,
    )
}

} // verus!
