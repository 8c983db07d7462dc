//! Managed products: what a product installs, and when its declaration and its
//! installation manifests are valid.

use vstd::prelude::*;

use crate::debug_text::{debug_quote, debug_quoted};
use crate::duration::{Duration, NANOS_PER_SECOND};
use crate::search::{first_failing, lemma_first_failing};
use crate::text;
use crate::text::texts;
use crate::unix_path;
use crate::unix_path::{path, PathView};
use crate::version::Version;

verus! {

pub const MINIMUM_BUILD_TIMEOUT_SECONDS: u64 = 60;

pub const MAXIMUM_BUILD_TIMEOUT_SECONDS: u64 = 86_400;

pub const REDEPLOY_FIXED_BUDGET_SECONDS: u64 = 2_100;

pub const MINIMUM_TASKS: u64 = 16;

pub const MAXIMUM_TASKS: u64 = 32_768;

/// The declaration of a product, before it is checked.
#[derive(Clone, Debug, PartialEq, Eq)]
pub struct ManagedProductOptions {
    pub product: String,
    pub package: String,
    pub version: Version,
    pub system_binaries: Vec<SystemBinary>,
    pub user_binary: UserBinary,
    pub agent_binary: String,
    pub service: AgentServiceOptions,
    pub application_socket: ApplicationSocketOptions,
    pub management_socket: SocketOptions,
    pub redeploy: ManagedRedeployOptions,
}

/// Limits of a redeploy: how long a build may take, and how many tasks it may
/// have.
#[derive(Clone, Copy, Debug, PartialEq, Eq)]
pub struct ManagedRedeployOptions {
    pub build_timeout: Duration,
    pub maximum_tasks: u64,
}

impl Default for ManagedRedeployOptions {
    /// Half an hour and 512 tasks.
    fn default() -> (r: Self)
        ensures
            r.build_timeout@ == 1800 * NANOS_PER_SECOND,
            r.maximum_tasks == 512,
    {
        ManagedRedeployOptions { build_timeout: Duration::from_secs(1800), maximum_tasks: 512 }
    }
}

/// A Cargo binary and the path at which it is installed.
#[derive(Clone, Debug, PartialEq, Eq)]
pub struct SystemBinary {
    pub cargo_name: String,
    pub destination: String,
}

/// The Cargo binary that users install for themselves.
#[derive(Clone, Debug, PartialEq, Eq)]
pub struct UserBinary {
    pub cargo_name: String,
}

/// How the agent runs as a system service.
#[derive(Clone, Debug, PartialEq, Eq)]
pub struct AgentServiceOptions {
    pub description: String,
    pub executable: String,
    pub arguments: Vec<String>,
    pub restart_delay: Duration,
    pub network_required: bool,
    pub state_directory_mode: u32,
    pub hardening: ServiceHardening,
}

/// How tightly the service is confined.
#[derive(Clone, Debug, PartialEq, Eq)]
pub enum ServiceHardening {
    Strict { read_write_paths: Vec<String>, device_allow: Vec<String> },
    SystemNetworkController,
}

/// A Unix socket: its path, mode and owning group.
#[derive(Clone, Debug, PartialEq, Eq)]
pub struct SocketOptions {
    pub path: String,
    pub mode: u32,
    pub group: Option<String>,
}

/// Whether the agent binds the application socket itself or has it from
/// systemd.
#[derive(Clone, Debug, PartialEq, Eq)]
pub enum ApplicationSocketOptions {
    AgentBound(SocketOptions),
    SystemdActivated(SocketOptions),
}

/// Why a product declaration or an installation manifest was refused.
#[derive(Debug, PartialEq, Eq)]
#[allow(inconsistent_fields)]
pub enum ProductValidationError {
    Identifier { field: &'static str, value: String },
    MissingSystemBinary,
    BuildTimeout,
    MaximumTasks,
    RedeployRuntime,
    BinaryDestination(String),
    BinaryNameMismatch { cargo_name: String, destination: String },
    DuplicateBinary(String),
    DuplicateDestination(String),
    MissingUserBinary(String),
    UnknownAgentExecutable(String),
    UnknownAgentBinary(String),
    UnsafeServiceText,
    RestartDelay,
    StateDirectoryMode,
    UnsafePath(String),
    HardeningPath(String),
    SocketPath { expected: String, actual: String },
    SocketMode,
    DuplicateSocketPath,
    InstallationSchema(u16),
    ManifestProduct { actual: String, expected: String },
    ManifestPackage { actual: String, expected: String },
    ManifestVersion { actual: Version, expected: Version },
    ManifestBinarySet,
    UnexpectedManagedUnit,
    MissingRequiredUnit,
    UnitEnablement,
    UnitDestination(String),
    UnitContents(String),
    FileMode(u32),
    UnitName(String),
    MissingUnitFile(String),
}

impl ProductValidationError {
    /// The words for the error.
    pub open spec fn words(self) -> Seq<char> {
        match self {
            ProductValidationError::Identifier { field, value } => field@ + " must be a lowercase ASCII identifier: "@ + debug_quoted(value@),
            ProductValidationError::MissingSystemBinary => "managed product must install at least one system binary"@,
            ProductValidationError::BuildTimeout => "managed build timeout must be at least 60 seconds"@,
            ProductValidationError::MaximumTasks => "managed redeploy task limit must be between 16 and 32768"@,
            ProductValidationError::RedeployRuntime => "managed redeploy runtime limit cannot be represented"@,
            ProductValidationError::BinaryDestination(path) => "managed binary destination must be directly beneath /usr/local/bin: "@ + path@,
            ProductValidationError::BinaryNameMismatch { cargo_name, destination } => "Cargo binary "@ + debug_quoted(cargo_name@) + " does not match destination "@ + destination@,
            ProductValidationError::DuplicateBinary(name) => "managed product contains duplicate Cargo binary "@ + debug_quoted(name@),
            ProductValidationError::DuplicateDestination(path) => "managed product contains duplicate destination "@ + path@,
            ProductValidationError::MissingUserBinary(name) => "user Cargo binary "@ + debug_quoted(name@) + " is not among the managed system binaries"@,
            ProductValidationError::UnknownAgentExecutable(path) => "agent executable "@ + path@ + " is not among the managed system binary destinations"@,
            ProductValidationError::UnknownAgentBinary(path) => "agent binary "@ + path@ + " is not among the managed system binary destinations"@,
            ProductValidationError::UnsafeServiceText => "agent service description or argument contains forbidden control/specifier bytes"@,
            ProductValidationError::RestartDelay => "agent restart delay must be between one second and one hour"@,
            ProductValidationError::StateDirectoryMode => "agent state-directory mode must grant owner rwx and no permissions outside 0777"@,
            ProductValidationError::UnsafePath(path) => "managed path must be absolute, normalized, and contain no parent traversal: "@ + path@,
            ProductValidationError::HardeningPath(path) => "strict hardening path does not exist beneath an allowed system root: "@ + path@,
            ProductValidationError::SocketPath { expected, actual } => "socket path must be "@ + expected@ + ", not "@ + actual@,
            ProductValidationError::SocketMode => "socket mode must grant no permissions outside 0777"@,
            ProductValidationError::DuplicateSocketPath => "application and Capulus sockets must have distinct paths"@,
            ProductValidationError::InstallationSchema(schema) => "installation manifest schema v"@ + text::decimal(schema as nat) + " is unsupported"@,
            ProductValidationError::ManifestProduct { actual, expected } => "installation manifest is for "@ + debug_quoted(actual@) + ", expected "@ + debug_quoted(expected@),
            ProductValidationError::ManifestPackage { actual, expected } => "installation manifest package is "@ + debug_quoted(actual@) + ", expected "@ + debug_quoted(expected@),
            ProductValidationError::ManifestVersion { actual, expected } => "installation manifest version is "@ + actual@.text() + ", expected "@ + expected@.text(),
            ProductValidationError::ManifestBinarySet => "installation manifest has a different managed binary set"@,
            ProductValidationError::UnexpectedManagedUnit => "installation manifest contains an unexpected managed unit"@,
            ProductValidationError::MissingRequiredUnit => "installation manifest omits its service or Capulus socket"@,
            ProductValidationError::UnitEnablement => "installation manifest unit files and enabled units differ"@,
            ProductValidationError::UnitDestination(path) => "managed unit destination is outside the product namespace: "@ + path@,
            ProductValidationError::UnitContents(name) => "managed unit "@ + debug_quoted(name@) + " has invalid or oversized contents"@,
            ProductValidationError::FileMode(mode) => "managed file mode "@ + text::octal(mode as nat) + " is not permitted"@,
            ProductValidationError::UnitName(name) => "managed unit name is outside the product namespace: "@ + debug_quoted(name@),
            ProductValidationError::MissingUnitFile(name) => "enabled unit has no corresponding managed file: "@ + debug_quoted(name@),
        }
    }

    /// The words for the error.
    pub fn message(&self) -> (out: String)
        ensures
            out@ == self.words(),
    {
        match self {
            ProductValidationError::Identifier { field, value } => {
                let value = debug_quote(value.as_str());
                (*field).to_owned().concat(" must be a lowercase ASCII identifier: ").concat(value.as_str())
            },
            ProductValidationError::MissingSystemBinary => "managed product must install at least one system binary".to_owned(),
            ProductValidationError::BuildTimeout => "managed build timeout must be at least 60 seconds".to_owned(),
            ProductValidationError::MaximumTasks => "managed redeploy task limit must be between 16 and 32768".to_owned(),
            ProductValidationError::RedeployRuntime => "managed redeploy runtime limit cannot be represented".to_owned(),
            ProductValidationError::BinaryDestination(path) => "managed binary destination must be directly beneath /usr/local/bin: ".to_owned().concat(path.as_str()),
            ProductValidationError::BinaryNameMismatch { cargo_name, destination } => {
                let cargo_name = debug_quote(cargo_name.as_str());
                "Cargo binary ".to_owned().concat(cargo_name.as_str()).concat(" does not match destination ").concat(destination.as_str())
            },
            ProductValidationError::DuplicateBinary(name) => {
                let name = debug_quote(name.as_str());
                "managed product contains duplicate Cargo binary ".to_owned().concat(name.as_str())
            },
            ProductValidationError::DuplicateDestination(path) => "managed product contains duplicate destination ".to_owned().concat(path.as_str()),
            ProductValidationError::MissingUserBinary(name) => {
                let name = debug_quote(name.as_str());
                "user Cargo binary ".to_owned().concat(name.as_str()).concat(" is not among the managed system binaries")
            },
            ProductValidationError::UnknownAgentExecutable(path) => "agent executable ".to_owned().concat(path.as_str()).concat(" is not among the managed system binary destinations"),
            ProductValidationError::UnknownAgentBinary(path) => "agent binary ".to_owned().concat(path.as_str()).concat(" is not among the managed system binary destinations"),
            ProductValidationError::UnsafeServiceText => "agent service description or argument contains forbidden control/specifier bytes".to_owned(),
            ProductValidationError::RestartDelay => "agent restart delay must be between one second and one hour".to_owned(),
            ProductValidationError::StateDirectoryMode => "agent state-directory mode must grant owner rwx and no permissions outside 0777".to_owned(),
            ProductValidationError::UnsafePath(path) => "managed path must be absolute, normalized, and contain no parent traversal: ".to_owned().concat(path.as_str()),
            ProductValidationError::HardeningPath(path) => "strict hardening path does not exist beneath an allowed system root: ".to_owned().concat(path.as_str()),
            ProductValidationError::SocketPath { expected, actual } => "socket path must be ".to_owned().concat(expected.as_str()).concat(", not ").concat(actual.as_str()),
            ProductValidationError::SocketMode => "socket mode must grant no permissions outside 0777".to_owned(),
            ProductValidationError::DuplicateSocketPath => "application and Capulus sockets must have distinct paths".to_owned(),
            ProductValidationError::InstallationSchema(schema) => {
                let schema = text::decimal_u64(*schema as u64);
                "installation manifest schema v".to_owned().concat(schema.as_str()).concat(" is unsupported")
            },
            ProductValidationError::ManifestProduct { actual, expected } => {
                let actual = debug_quote(actual.as_str());
                let expected = debug_quote(expected.as_str());
                "installation manifest is for ".to_owned().concat(actual.as_str()).concat(", expected ").concat(expected.as_str())
            },
            ProductValidationError::ManifestPackage { actual, expected } => {
                let actual = debug_quote(actual.as_str());
                let expected = debug_quote(expected.as_str());
                "installation manifest package is ".to_owned().concat(actual.as_str()).concat(", expected ").concat(expected.as_str())
            },
            ProductValidationError::ManifestVersion { actual, expected } => {
                let actual = actual.text();
                let expected = expected.text();
                "installation manifest version is ".to_owned().concat(actual.as_str()).concat(", expected ").concat(expected.as_str())
            },
            ProductValidationError::ManifestBinarySet => "installation manifest has a different managed binary set".to_owned(),
            ProductValidationError::UnexpectedManagedUnit => "installation manifest contains an unexpected managed unit".to_owned(),
            ProductValidationError::MissingRequiredUnit => "installation manifest omits its service or Capulus socket".to_owned(),
            ProductValidationError::UnitEnablement => "installation manifest unit files and enabled units differ".to_owned(),
            ProductValidationError::UnitDestination(path) => "managed unit destination is outside the product namespace: ".to_owned().concat(path.as_str()),
            ProductValidationError::UnitContents(name) => {
                let name = debug_quote(name.as_str());
                "managed unit ".to_owned().concat(name.as_str()).concat(" has invalid or oversized contents")
            },
            ProductValidationError::FileMode(mode) => {
                let mode = text::octal_u32(*mode);
                "managed file mode ".to_owned().concat(mode.as_str()).concat(" is not permitted")
            },
            ProductValidationError::UnitName(name) => {
                let name = debug_quote(name.as_str());
                "managed unit name is outside the product namespace: ".to_owned().concat(name.as_str())
            },
            ProductValidationError::MissingUnitFile(name) => {
                let name = debug_quote(name.as_str());
                "enabled unit has no corresponding managed file: ".to_owned().concat(name.as_str())
            },
        }
    }
}

// ---------------------------------------------------------------------------
// Identifiers, unit text and paths
// ---------------------------------------------------------------------------

/// A character of an identifier.
pub open spec fn identifier_char(c: char) -> bool {
    text::is_lower(c) || text::is_digit(c) || c == '-' || c == '_'
}

/// A lower-case ASCII identifier: one to 64 characters, the first a letter.
pub open spec fn identifier(s: Seq<char>) -> bool {
    &&& 1 <= s.len() <= 64
    &&& text::is_lower(s[0])
    &&& forall|i: int| 0 <= i < s.len() ==> identifier_char(#[trigger] s[i])
}

/// Whether a text is a lower-case ASCII identifier.
pub fn is_valid_identifier(value: &str) -> (r: bool)
    ensures
        r == identifier(value@),
{
    let v = text::to_chars(value);
    if v.len() == 0 || v.len() > 64 || !('a' <= v[0] && v[0] <= 'z') {
        return false;
    }
    let mut i: usize = 0;
    while i < v.len()
        invariant
            i <= v@.len(),
            forall|k: int| 0 <= k < i ==> identifier_char(#[trigger] v@[k]),
        decreases v@.len() - i,
    {
        let c = v[i];
        if !(('a' <= c && c <= 'z') || ('0' <= c && c <= '9') || c == '-' || c == '_') {
            assert(!identifier_char(v@[i as int]));
            return false;
        }
        i = i + 1;
    }
    true
}

/// The error for a text that is not an identifier.
pub open spec fn identifier_fault(
    e: ProductValidationError,
    field: Seq<char>,
    value: Seq<char>,
) -> bool {
    e matches ProductValidationError::Identifier { field: f, value: v } && f@ == field && v@
        == value
}

pub(crate) fn validate_identifier(field: &'static str, value: &str) -> (r: Result<
    (),
    ProductValidationError,
>)
    ensures
        r is Ok <==> identifier(value@),
        r matches Err(e) ==> identifier_fault(e, field@, value@),
{
    if !is_valid_identifier(value) {
        return Err(ProductValidationError::Identifier { field, value: value.to_owned() });
    }
    Ok(())
}

/// The error for a path that is not absolute or has a `..` part.
pub open spec fn path_fault(e: ProductValidationError, p: Seq<char>) -> bool {
    e matches ProductValidationError::UnsafePath(actual) && actual@ == p
}

pub(crate) fn validate_absolute_path(p: &str) -> (r: Result<(), ProductValidationError>)
    ensures
        r is Ok <==> unix_path::is_plain(path(p@)),
        r matches Err(e) ==> path_fault(e, p@),
{
    if !unix_path::is_plain_path(p) {
        return Err(ProductValidationError::UnsafePath(p.to_owned()));
    }
    Ok(())
}

/// A character that unit files do not take: an ASCII control character or a
/// percent sign.
pub open spec fn unsafe_unit_char(c: char) -> bool {
    (c as u32) < 32 || c as u32 == 127 || c == '%'
}

/// Whether a text holds a character that unit files do not take.
pub open spec fn unsafe_text(s: Seq<char>) -> bool {
    exists|i: int| 0 <= i < s.len() && unsafe_unit_char(#[trigger] s[i])
}

fn unsafe_unit_text(value: &str) -> (r: bool)
    ensures
        r == unsafe_text(value@),
{
    let v = text::to_chars(value);
    let mut i: usize = 0;
    while i < v.len()
        invariant
            i <= v@.len(),
            forall|k: int| 0 <= k < i ==> !unsafe_unit_char(#[trigger] v@[k]),
        decreases v@.len() - i,
    {
        let n: u32 = v[i] as u32;
        if n < 32 || n == 127 || v[i] == '%' {
            assert(unsafe_unit_char(v@[i as int]));
            return true;
        }
        i = i + 1;
    }
    false
}

// ---------------------------------------------------------------------------
// The declaration of a product
// ---------------------------------------------------------------------------

/// The names under which binaries are built.
pub open spec fn cargo_names(binaries: Seq<SystemBinary>) -> Seq<Seq<char>> {
    binaries.map_values(|b: SystemBinary| b.cargo_name@)
}

/// The paths at which binaries are installed.
pub open spec fn destinations(binaries: Seq<SystemBinary>) -> Seq<PathView> {
    binaries.map_values(|b: SystemBinary| path(b.destination@))
}

/// The binary at position `i`: a name that is an identifier, a destination of
/// that name directly beneath `/usr/local/bin`, neither used by an earlier one.
pub open spec fn binary_ok(binaries: Seq<SystemBinary>, i: int) -> bool {
    let b = binaries[i];
    &&& identifier(b.cargo_name@)
    &&& unix_path::is_plain(path(b.destination@))
    &&& unix_path::parent(path(b.destination@)) == Some(path("/usr/local/bin"@))
    &&& unix_path::file_name(path(b.destination@)) == Some(b.cargo_name@)
    &&& !cargo_names(binaries).take(i).contains(b.cargo_name@)
    &&& !destinations(binaries).take(i).contains(path(b.destination@))
}

/// The position of the first binary that is not in order, or the number of
/// binaries.
pub open spec fn first_bad_binary(binaries: Seq<SystemBinary>) -> int {
    first_failing(|i: int| binary_ok(binaries, i), binaries.len(), 0)
}

/// The error for the binary at position `i`.
pub open spec fn binary_fault(
    e: ProductValidationError,
    binaries: Seq<SystemBinary>,
    i: int,
) -> bool {
    let b = binaries[i];
    if !identifier(b.cargo_name@) {
        identifier_fault(e, "Cargo binary"@, b.cargo_name@)
    } else if !unix_path::is_plain(path(b.destination@)) {
        path_fault(e, b.destination@)
    } else if unix_path::parent(path(b.destination@)) != Some(path("/usr/local/bin"@)) {
        e == ProductValidationError::BinaryDestination(b.destination)
    } else if unix_path::file_name(path(b.destination@)) != Some(b.cargo_name@) {
        e == (ProductValidationError::BinaryNameMismatch {
            cargo_name: b.cargo_name,
            destination: b.destination,
        })
    } else if cargo_names(binaries).take(i).contains(b.cargo_name@) {
        e == ProductValidationError::DuplicateBinary(b.cargo_name)
    } else {
        e == ProductValidationError::DuplicateDestination(b.destination)
    }
}

proof fn lemma_first_bad_binary(binaries: Seq<SystemBinary>, i: int)
    requires
        0 <= i <= binaries.len(),
        forall|k: int| 0 <= k < i ==> #[trigger] binary_ok(binaries, k),
        i < binaries.len() ==> !binary_ok(binaries, i),
    ensures
        first_bad_binary(binaries) == i,
{
    let p = |k: int| binary_ok(binaries, k);
    assert forall|k: int| 0 <= k < i implies #[trigger] p(k) by {
        assert(binary_ok(binaries, k));
    }
    lemma_first_failing(p, binaries.len(), 0, i);
}

fn has_name(binaries: &Vec<SystemBinary>, count: usize, name: &str) -> (r: bool)
    requires
        count <= binaries@.len(),
    ensures
        r == cargo_names(binaries@).take(count as int).contains(name@),
{
    let ghost names = cargo_names(binaries@).take(count as int);
    let mut i: usize = 0;
    while i < count
        invariant
            i <= count <= binaries@.len(),
            names == cargo_names(binaries@).take(count as int),
            forall|k: int| 0 <= k < i ==> #[trigger] names[k] != name@,
        decreases count - i,
    {
        if text::same(binaries[i].cargo_name.as_str(), name) {
            assert(names[i as int] == name@);
            return true;
        }
        i = i + 1;
    }
    false
}

fn has_destination(binaries: &Vec<SystemBinary>, count: usize, destination: &str) -> (r: bool)
    requires
        count <= binaries@.len(),
    ensures
        r == destinations(binaries@).take(count as int).contains(path(destination@)),
{
    let ghost paths = destinations(binaries@).take(count as int);
    let mut i: usize = 0;
    while i < count
        invariant
            i <= count <= binaries@.len(),
            paths == destinations(binaries@).take(count as int),
            forall|k: int| 0 <= k < i ==> #[trigger] paths[k] != path(destination@),
        decreases count - i,
    {
        if unix_path::same_path(binaries[i].destination.as_str(), destination) {
            assert(paths[i as int] == path(destination@));
            return true;
        }
        i = i + 1;
    }
    false
}

fn validate_binary(binaries: &Vec<SystemBinary>, i: usize) -> (r: Result<
    (),
    ProductValidationError,
>)
    requires
        i < binaries@.len(),
    ensures
        r is Ok <==> binary_ok(binaries@, i as int),
        r matches Err(e) ==> binary_fault(e, binaries@, i as int),
{
    let binary = &binaries[i];
    validate_identifier("Cargo binary", binary.cargo_name.as_str())?;
    validate_absolute_path(binary.destination.as_str())?;
    if !unix_path::parent_is(binary.destination.as_str(), "/usr/local/bin") {
        return Err(ProductValidationError::BinaryDestination(binary.destination.clone()));
    }
    let named = match unix_path::file_name_of(binary.destination.as_str()) {
        Some(name) => name == binary.cargo_name,
        None => false,
    };
    if !named {
        return Err(
            ProductValidationError::BinaryNameMismatch {
                cargo_name: binary.cargo_name.clone(),
                destination: binary.destination.clone(),
            },
        );
    }
    if has_name(binaries, i, binary.cargo_name.as_str()) {
        return Err(ProductValidationError::DuplicateBinary(binary.cargo_name.clone()));
    }
    if has_destination(binaries, i, binary.destination.as_str()) {
        return Err(ProductValidationError::DuplicateDestination(binary.destination.clone()));
    }
    Ok(())
}

fn validate_binaries(binaries: &Vec<SystemBinary>) -> (r: Result<(), ProductValidationError>)
    ensures
        r is Ok <==> first_bad_binary(binaries@) == binaries@.len(),
        r matches Err(e) ==> binary_fault(e, binaries@, first_bad_binary(binaries@)),
{
    let mut i: usize = 0;
    while i < binaries.len()
        invariant
            i <= binaries@.len(),
            forall|k: int| 0 <= k < i ==> #[trigger] binary_ok(binaries@, k),
        decreases binaries@.len() - i,
    {
        match validate_binary(binaries, i) {
            Ok(_) => {},
            Err(e) => {
                proof {
                    lemma_first_bad_binary(binaries@, i as int);
                }
                return Err(e);
            },
        }
        i = i + 1;
    }
    proof {
        lemma_first_bad_binary(binaries@, i as int);
    }
    Ok(())
}

/// A path that a strictly confined service may use: absolute, without `..`
/// parts and characters that unit files do not take, beneath the product's
/// state or runtime directory or beneath `/dev`.
pub open spec fn hardening_path_ok(product: Seq<char>, p: Seq<char>) -> bool {
    &&& unix_path::is_plain(path(p))
    &&& !unsafe_text(p)
    &&& under_allowed_root(product, p)
}

/// Whether a path stands beneath a root that a service may use.
pub open spec fn under_allowed_root(product: Seq<char>, p: Seq<char>) -> bool {
    ||| unix_path::is_under(path(p), path("/var/lib/"@ + product))
    ||| unix_path::is_under(path(p), path("/run/"@ + product))
    ||| unix_path::is_under(path(p), path("/dev/"@))
}

/// The position of the first path that a strictly confined service may not
/// use, or the number of paths.
pub open spec fn first_bad_path(product: Seq<char>, paths: Seq<String>) -> int {
    first_failing(|i: int| hardening_path_ok(product, paths[i]@), paths.len(), 0)
}

/// The error for a path that a strictly confined service may not use.
pub open spec fn hardening_fault(
    e: ProductValidationError,
    product: Seq<char>,
    p: Seq<char>,
) -> bool {
    if !unix_path::is_plain(path(p)) || unsafe_text(p) {
        path_fault(e, p)
    } else {
        e matches ProductValidationError::HardeningPath(actual) && actual@ == p
    }
}

fn validate_hardening_path(product: &str, p: &str) -> (r: Result<(), ProductValidationError>)
    ensures
        r is Ok <==> hardening_path_ok(product@, p@),
        r matches Err(e) ==> hardening_fault(e, product@, p@),
{
    validate_absolute_path(p)?;
    if unsafe_unit_text(p) {
        return Err(ProductValidationError::UnsafePath(p.to_owned()));
    }
    let state = "/var/lib/".to_owned().concat(product);
    let runtime = "/run/".to_owned().concat(product);
    if !unix_path::starts_with(p, state.as_str()) && !unix_path::starts_with(p, runtime.as_str())
        && !unix_path::starts_with(p, "/dev/") {
        return Err(ProductValidationError::HardeningPath(p.to_owned()));
    }
    Ok(())
}

fn validate_hardening_paths(product: &str, paths: &Vec<String>) -> (r: Result<
    (),
    ProductValidationError,
>)
    ensures
        r is Ok <==> first_bad_path(product@, paths@) == paths@.len(),
        first_bad_path(product@, paths@) <= paths@.len(),
        r matches Err(e) ==> hardening_fault(
            e,
            product@,
            paths@[first_bad_path(product@, paths@)]@,
        ),
{
    let ghost p = |k: int| hardening_path_ok(product@, paths@[k]@);
    let mut i: usize = 0;
    while i < paths.len()
        invariant
            i <= paths@.len(),
            forall|k: int| 0 <= k < i ==> #[trigger] p(k),
        decreases paths@.len() - i,
    {
        match validate_hardening_path(product, paths[i].as_str()) {
            Ok(_) => {},
            Err(e) => {
                proof {
                    lemma_first_failing(p, paths@.len(), 0, i as int);
                }
                return Err(e);
            },
        }
        assert(p(i as int));
        i = i + 1;
    }
    proof {
        lemma_first_failing(p, paths@.len(), 0, i as int);
    }
    Ok(())
}

/// The description and the arguments of a service: a description that is not
/// empty, and no character that unit files do not take.
pub open spec fn service_text_ok(service: AgentServiceOptions) -> bool {
    &&& service.description@.len() > 0
    &&& !unsafe_text(service.description@)
    &&& forall|i: int|
        0 <= i < service.arguments@.len() ==> !unsafe_text((#[trigger] service.arguments@[i])@)
}

/// A restart delay: whole seconds, from one second to one hour.
pub open spec fn restart_delay_ok(delay: nat) -> bool {
    &&& NANOS_PER_SECOND <= delay <= 3600 * NANOS_PER_SECOND
    &&& delay % (NANOS_PER_SECOND as nat) == 0
}

/// The mode of a state directory: all rights for the owner, and nothing beyond
/// the nine permission bits.
pub open spec fn state_mode_ok(mode: u32) -> bool {
    mode <= 0o777 && mode & 0o700 == 0o700
}

/// Whether the paths of a hardening are in order.
pub open spec fn hardening_ok(product: Seq<char>, hardening: ServiceHardening) -> bool {
    match hardening {
        ServiceHardening::Strict { read_write_paths, device_allow } => {
            &&& first_bad_path(product, read_write_paths@) == read_write_paths@.len()
            &&& first_bad_path(product, device_allow@) == device_allow@.len()
        },
        ServiceHardening::SystemNetworkController => true,
    }
}

/// Whether a service declaration is in order.
pub open spec fn service_ok(
    product: Seq<char>,
    service: AgentServiceOptions,
    binaries: Seq<SystemBinary>,
) -> bool {
    &&& destinations(binaries).contains(path(service.executable@))
    &&& service_text_ok(service)
    &&& restart_delay_ok(service.restart_delay@)
    &&& state_mode_ok(service.state_directory_mode)
    &&& hardening_ok(product, service.hardening)
}

/// The error for a service declaration that is not in order.
pub open spec fn service_fault(
    e: ProductValidationError,
    product: Seq<char>,
    service: AgentServiceOptions,
    binaries: Seq<SystemBinary>,
) -> bool {
    if !destinations(binaries).contains(path(service.executable@)) {
        e == ProductValidationError::UnknownAgentExecutable(service.executable)
    } else if !service_text_ok(service) {
        e is UnsafeServiceText
    } else if !restart_delay_ok(service.restart_delay@) {
        e is RestartDelay
    } else if !state_mode_ok(service.state_directory_mode) {
        e is StateDirectoryMode
    } else {
        match service.hardening {
            ServiceHardening::Strict { read_write_paths, device_allow } => {
                let i = first_bad_path(product, read_write_paths@);
                let j = first_bad_path(product, device_allow@);
                if i < read_write_paths@.len() {
                    hardening_fault(e, product, read_write_paths@[i]@)
                } else {
                    hardening_fault(e, product, device_allow@[j]@)
                }
            },
            ServiceHardening::SystemNetworkController => false,
        }
    }
}

fn any_unsafe_text(list: &Vec<String>) -> (r: bool)
    ensures
        r == exists|i: int| 0 <= i < list@.len() && unsafe_text((#[trigger] list@[i])@),
{
    let mut i: usize = 0;
    while i < list.len()
        invariant
            i <= list@.len(),
            forall|k: int| 0 <= k < i ==> !unsafe_text((#[trigger] list@[k])@),
        decreases list@.len() - i,
    {
        if unsafe_unit_text(list[i].as_str()) {
            return true;
        }
        i = i + 1;
    }
    false
}

fn validate_service(
    product: &str,
    service: &AgentServiceOptions,
    binaries: &Vec<SystemBinary>,
) -> (r: Result<(), ProductValidationError>)
    ensures
        r is Ok <==> service_ok(product@, *service, binaries@),
        r matches Err(e) ==> service_fault(e, product@, *service, binaries@),
{
    assert(destinations(binaries@).take(binaries@.len() as int) == destinations(binaries@));
    if !has_destination(binaries, binaries.len(), service.executable.as_str()) {
        return Err(ProductValidationError::UnknownAgentExecutable(service.executable.clone()));
    }
    if service.description.as_str().is_empty() || unsafe_unit_text(service.description.as_str())
        || any_unsafe_text(&service.arguments) {
        return Err(ProductValidationError::UnsafeServiceText);
    }
    let least = Duration::from_secs(1);
    let most = Duration::from_secs(3600);
    if !least.at_most(&service.restart_delay) || !service.restart_delay.at_most(&most) {
        return Err(ProductValidationError::RestartDelay);
    }
    if service.restart_delay.subsec_nanos() != 0 {
        return Err(ProductValidationError::RestartDelay);
    }
    if service.state_directory_mode > 0o777 || service.state_directory_mode & 0o700 != 0o700 {
        return Err(ProductValidationError::StateDirectoryMode);
    }
    match &service.hardening {
        ServiceHardening::Strict { read_write_paths, device_allow } => {
            validate_hardening_paths(product, read_write_paths)?;
            validate_hardening_paths(product, device_allow)?;
        },
        ServiceHardening::SystemNetworkController => {},
    }
    Ok(())
}

/// The name of the socket file of a descriptor.
pub open spec fn socket_file(descriptor: Seq<char>) -> Seq<char> {
    if descriptor == "application"@ {
        "agent.sock"@
    } else {
        "capulus.sock"@
    }
}

/// The path at which a product's socket must stand.
pub open spec fn socket_path(product: Seq<char>, descriptor: Seq<char>) -> Seq<char> {
    unix_path::joined(unix_path::joined("/run"@, product), socket_file(descriptor))
}

/// Whether the mode of a socket is in order. The management socket is for root
/// alone, or for root and an explicit group; the application socket has no
/// permission beyond the nine bits.
pub open spec fn socket_mode_ok(descriptor: Seq<char>, socket: SocketOptions) -> bool {
    if descriptor == "application"@ {
        socket.mode <= 0o777
    } else {
        socket.mode == 0o600 || socket.mode == 0o660 && socket.group is Some
    }
}

/// Whether the group of a socket, where there is one, is an identifier.
pub open spec fn group_ok(group: Option<String>) -> bool {
    group matches Some(g) ==> identifier(g@)
}

/// Whether a socket declaration is in order.
pub open spec fn socket_ok(
    product: Seq<char>,
    descriptor: Seq<char>,
    socket: SocketOptions,
) -> bool {
    &&& unix_path::is_plain(path(socket.path@))
    &&& path(socket.path@) == path(socket_path(product, descriptor))
    &&& socket_mode_ok(descriptor, socket)
    &&& group_ok(socket.group)
}

/// The error for a socket declaration that is not in order.
pub open spec fn socket_fault(
    e: ProductValidationError,
    product: Seq<char>,
    descriptor: Seq<char>,
    socket: SocketOptions,
) -> bool {
    if !unix_path::is_plain(path(socket.path@)) {
        path_fault(e, socket.path@)
    } else if path(socket.path@) != path(socket_path(product, descriptor)) {
        e matches ProductValidationError::SocketPath { expected, actual } && expected@
            == socket_path(product, descriptor) && actual == socket.path
    } else if !socket_mode_ok(descriptor, socket) {
        e is SocketMode
    } else {
        socket.group matches Some(g) && identifier_fault(e, "socket group"@, g@)
    }
}

fn validate_socket(product: &str, descriptor: &str, socket: &SocketOptions) -> (r: Result<
    (),
    ProductValidationError,
>)
    ensures
        r is Ok <==> socket_ok(product@, descriptor@, *socket),
        r matches Err(e) ==> socket_fault(e, product@, descriptor@, *socket),
{
    validate_absolute_path(socket.path.as_str())?;
    let application = text::same(descriptor, "application");
    let filename = if application {
        "agent.sock"
    } else {
        "capulus.sock"
    };
    let directory = unix_path::join("/run", product);
    let expected = unix_path::join(directory.as_str(), filename);
    if !unix_path::same_path(socket.path.as_str(), expected.as_str()) {
        return Err(ProductValidationError::SocketPath { expected, actual: socket.path.clone() });
    }
    let permitted = if application {
        socket.mode <= 0o777
    } else {
        socket.mode == 0o600 || (socket.mode == 0o660 && socket.group.is_some())
    };
    if !permitted {
        return Err(ProductValidationError::SocketMode);
    }
    if let Some(group) = &socket.group {
        validate_identifier("socket group", group.as_str())?;
    }
    Ok(())
}

impl ApplicationSocketOptions {
    /// The socket, however it is bound.
    pub open spec fn socket(self) -> SocketOptions {
        match self {
            ApplicationSocketOptions::AgentBound(options) => options,
            ApplicationSocketOptions::SystemdActivated(options) => options,
        }
    }

    /// The socket, however it is bound.
    pub fn options(&self) -> (r: &SocketOptions)
        ensures
            *r == self.socket(),
    {
        match self {
            ApplicationSocketOptions::AgentBound(options) => options,
            ApplicationSocketOptions::SystemdActivated(options) => options,
        }
    }

    /// Whether systemd binds the socket.
    pub fn is_systemd_activated(&self) -> (r: bool)
        ensures
            r == (self is SystemdActivated),
    {
        match self {
            ApplicationSocketOptions::AgentBound(_) => false,
            ApplicationSocketOptions::SystemdActivated(_) => true,
        }
    }
}

/// Whether a build timeout is from one minute to one day.
pub open spec fn build_timeout_ok(timeout: nat) -> bool {
    MINIMUM_BUILD_TIMEOUT_SECONDS * NANOS_PER_SECOND <= timeout <= MAXIMUM_BUILD_TIMEOUT_SECONDS
        * NANOS_PER_SECOND
}

/// How long a redeploy may run: two builds and thirty-five minutes.
pub open spec fn runtime_max(build_timeout: nat) -> nat {
    build_timeout * 2 + (REDEPLOY_FIXED_BUDGET_SECONDS * NANOS_PER_SECOND) as nat
}

impl ManagedProductOptions {
    /// Whether the declaration describes a product.
    pub open spec fn accepted(self) -> bool {
        &&& identifier(self.product@)
        &&& identifier(self.package@)
        &&& self.system_binaries@.len() > 0
        &&& build_timeout_ok(self.redeploy.build_timeout@)
        &&& MINIMUM_TASKS <= self.redeploy.maximum_tasks <= MAXIMUM_TASKS
        &&& first_bad_binary(self.system_binaries@) == self.system_binaries@.len()
        &&& identifier(self.user_binary.cargo_name@)
        &&& cargo_names(self.system_binaries@).contains(self.user_binary.cargo_name@)
        &&& unix_path::is_plain(path(self.agent_binary@))
        &&& destinations(self.system_binaries@).contains(path(self.agent_binary@))
        &&& service_ok(self.product@, self.service, self.system_binaries@)
        &&& socket_ok(self.product@, "application"@, self.application_socket.socket())
        &&& socket_ok(self.product@, "capulus"@, self.management_socket)
        &&& path(self.application_socket.socket().path@) != path(self.management_socket.path@)
    }

    /// The error for a declaration that does not describe a product: the first
    /// condition that does not hold decides.
    pub open spec fn fault(self, e: ProductValidationError) -> bool {
        let binaries = self.system_binaries@;
        if !identifier(self.product@) {
            identifier_fault(e, "product"@, self.product@)
        } else if !identifier(self.package@) {
            identifier_fault(e, "package"@, self.package@)
        } else if binaries.len() == 0 {
            e is MissingSystemBinary
        } else if !build_timeout_ok(self.redeploy.build_timeout@) {
            e is BuildTimeout
        } else if !(MINIMUM_TASKS <= self.redeploy.maximum_tasks <= MAXIMUM_TASKS) {
            e is MaximumTasks
        } else if first_bad_binary(binaries) != binaries.len() {
            binary_fault(e, binaries, first_bad_binary(binaries))
        } else if !identifier(self.user_binary.cargo_name@) {
            identifier_fault(e, "user Cargo binary"@, self.user_binary.cargo_name@)
        } else if !cargo_names(binaries).contains(self.user_binary.cargo_name@) {
            e == ProductValidationError::MissingUserBinary(self.user_binary.cargo_name)
        } else if !unix_path::is_plain(path(self.agent_binary@)) {
            path_fault(e, self.agent_binary@)
        } else if !destinations(binaries).contains(path(self.agent_binary@)) {
            e == ProductValidationError::UnknownAgentBinary(self.agent_binary)
        } else if !service_ok(self.product@, self.service, binaries) {
            service_fault(e, self.product@, self.service, binaries)
        } else if !socket_ok(self.product@, "application"@, self.application_socket.socket()) {
            socket_fault(e, self.product@, "application"@, self.application_socket.socket())
        } else if !socket_ok(self.product@, "capulus"@, self.management_socket) {
            socket_fault(e, self.product@, "capulus"@, self.management_socket)
        } else {
            e is DuplicateSocketPath
        }
    }

    /// Checks the declaration and makes the product that it describes.
    pub fn validate(self) -> (r: Result<ManagedProduct, ProductValidationError>)
        ensures
            r is Ok <==> self.accepted(),
            r matches Ok(product) ==> product@ == self,
            r matches Err(e) ==> self.fault(e),
    {
        validate_identifier("product", self.product.as_str())?;
        validate_identifier("package", self.package.as_str())?;
        if self.system_binaries.len() == 0 {
            return Err(ProductValidationError::MissingSystemBinary);
        }
        let least = Duration::from_secs(MINIMUM_BUILD_TIMEOUT_SECONDS);
        let most = Duration::from_secs(MAXIMUM_BUILD_TIMEOUT_SECONDS);
        if !least.at_most(&self.redeploy.build_timeout) || !self.redeploy.build_timeout.at_most(
            &most,
        ) {
            return Err(ProductValidationError::BuildTimeout);
        }
        if self.redeploy.maximum_tasks < MINIMUM_TASKS || self.redeploy.maximum_tasks
            > MAXIMUM_TASKS {
            return Err(ProductValidationError::MaximumTasks);
        }
        let budget = Duration::from_secs(REDEPLOY_FIXED_BUDGET_SECONDS);
        let redeploy_runtime_max = match self.redeploy.build_timeout.checked_mul(2) {
            Some(builds) => match builds.checked_add(&budget) {
                Some(total) => total,
                None => return Err(ProductValidationError::RedeployRuntime),
            },
            None => return Err(ProductValidationError::RedeployRuntime),
        };
        validate_binaries(&self.system_binaries)?;
        validate_identifier("user Cargo binary", self.user_binary.cargo_name.as_str())?;
        let count: usize = self.system_binaries.len();
        assert(cargo_names(self.system_binaries@).take(count as int) == cargo_names(
            self.system_binaries@,
        ));
        assert(destinations(self.system_binaries@).take(count as int) == destinations(
            self.system_binaries@,
        ));
        if !has_name(&self.system_binaries, count, self.user_binary.cargo_name.as_str()) {
            return Err(ProductValidationError::MissingUserBinary(self.user_binary.cargo_name));
        }
        validate_absolute_path(self.agent_binary.as_str())?;
        if !has_destination(&self.system_binaries, count, self.agent_binary.as_str()) {
            return Err(ProductValidationError::UnknownAgentBinary(self.agent_binary));
        }
        validate_service(self.product.as_str(), &self.service, &self.system_binaries)?;
        validate_socket(self.product.as_str(), "application", self.application_socket.options())?;
        validate_socket(self.product.as_str(), "capulus", &self.management_socket)?;
        if unix_path::same_path(
            self.application_socket.options().path.as_str(),
            self.management_socket.path.as_str(),
        ) {
            return Err(ProductValidationError::DuplicateSocketPath);
        }
        Ok(ManagedProduct { options: self, redeploy_runtime_max })
    }
}

/// A product whose declaration was checked. Its view is the declaration.
#[derive(Debug, PartialEq, Eq)]
pub struct ManagedProduct {
    options: ManagedProductOptions,
    redeploy_runtime_max: Duration,
}

impl ManagedProduct {
    #[verifier::type_invariant]
    pub closed spec fn checked(self) -> bool {
        &&& self.options.accepted()
        &&& self.redeploy_runtime_max@ == runtime_max(self.options.redeploy.build_timeout@)
    }

    pub closed spec fn view(self) -> ManagedProductOptions {
        self.options
    }

    /// The declaration behind the product, which was accepted.
    pub fn declaration(&self) -> (r: &ManagedProductOptions)
        ensures
            *r == self@,
            self@.accepted(),
    {
        proof {
            use_type_invariant(self);
        }
        &self.options
    }

    /// The name of the product.
    pub fn name(&self) -> (r: &str)
        ensures
            r@ == self@.product@,
    {
        self.options.product.as_str()
    }

    /// The Cargo package of the product.
    pub fn package(&self) -> (r: &str)
        ensures
            r@ == self@.package@,
    {
        self.options.package.as_str()
    }

    /// The version of the product.
    pub fn version(&self) -> (r: &Version)
        ensures
            *r == self@.version,
    {
        &self.options.version
    }

    /// The binaries that the product installs.
    pub fn system_binaries(&self) -> (r: &Vec<SystemBinary>)
        ensures
            *r == self@.system_binaries,
    {
        &self.options.system_binaries
    }

    /// The binary that users install for themselves.
    pub fn user_binary(&self) -> (r: &UserBinary)
        ensures
            *r == self@.user_binary,
    {
        &self.options.user_binary
    }

    /// How long one build may take.
    pub fn build_timeout(&self) -> (r: Duration)
        ensures
            r == self@.redeploy.build_timeout,
    {
        self.options.redeploy.build_timeout
    }

    /// How many tasks a redeploy may have.
    pub fn maximum_tasks(&self) -> (r: u64)
        ensures
            r == self@.redeploy.maximum_tasks,
    {
        self.options.redeploy.maximum_tasks
    }

    /// How long a redeploy may run.
    pub fn redeploy_runtime_max(&self) -> (r: Duration)
        ensures
            r@ == runtime_max(self@.redeploy.build_timeout@),
    {
        proof {
            use_type_invariant(self);
        }
        self.redeploy_runtime_max
    }

    /// The path of the application socket.
    pub fn application_socket_path(&self) -> (r: &str)
        ensures
            r@ == self@.application_socket.socket().path@,
    {
        self.options.application_socket.options().path.as_str()
    }

    /// Whether systemd binds the application socket.
    pub fn application_socket_is_systemd_activated(&self) -> (r: bool)
        ensures
            r == (self@.application_socket is SystemdActivated),
    {
        self.options.application_socket.is_systemd_activated()
    }

    /// The path of the management socket.
    pub fn management_socket_path(&self) -> (r: &str)
        ensures
            r@ == self@.management_socket.path@,
    {
        self.options.management_socket.path.as_str()
    }

    /// The group whose members operate the product, where there is one: that of
    /// the management socket.
    pub fn operator_group(&self) -> (r: Option<&String>)
        ensures
            match self@.management_socket.group {
                Some(name) => r == Some(&name),
                None => r is None,
            },
    {
        self.options.management_socket.group.as_ref()
    }

    /// The path of the agent's executable.
    pub fn agent_executable(&self) -> (r: &str)
        ensures
            r@ == self@.agent_binary@,
    {
        self.options.agent_binary.as_str()
    }

    /// The name of the service unit.
    pub fn service_name(&self) -> (r: String)
        ensures
            r@ == service_name(self@.product@),
    {
        self.options.product.clone().concat("-agent.service")
    }

    /// The name of the application socket's unit.
    pub fn application_socket_name(&self) -> (r: String)
        ensures
            r@ == application_socket_name(self@.product@),
    {
        self.options.product.clone().concat("-agent.socket")
    }

    /// The name of the management socket's unit.
    pub fn management_socket_name(&self) -> (r: String)
        ensures
            r@ == management_socket_name(self@.product@),
    {
        self.options.product.clone().concat("-capulus.socket")
    }
}

/// The name of a product's service unit.
pub open spec fn service_name(product: Seq<char>) -> Seq<char> {
    product + "-agent.service"@
}

/// The name of the unit of a product's application socket.
pub open spec fn application_socket_name(product: Seq<char>) -> Seq<char> {
    product + "-agent.socket"@
}

/// The name of the unit of a product's management socket.
pub open spec fn management_socket_name(product: Seq<char>) -> Seq<char> {
    product + "-capulus.socket"@
}

// ---------------------------------------------------------------------------
// Unit files
// ---------------------------------------------------------------------------

/// A character as it stands in a quoted word of a unit file.
pub open spec fn escaped_char(c: char) -> Seq<char> {
    if c == '\\' {
        seq!['\\', '\\']
    } else if c == '"' {
        seq!['\\', '"']
    } else {
        seq![c]
    }
}

/// A text as it stands in a quoted word of a unit file.
pub open spec fn escaped(s: Seq<char>) -> Seq<char>
    decreases s.len(),
{
    if s.len() == 0 {
        Seq::empty()
    } else {
        escaped(s.drop_last()) + escaped_char(s.last())
    }
}

/// A text as a quoted word of a unit file.
pub open spec fn quoted(s: Seq<char>) -> Seq<char> {
    seq!['"'] + escaped(s) + seq!['"']
}

/// The quoted words of a list.
pub open spec fn quoted_list(list: Seq<String>) -> Seq<Seq<char>> {
    list.map_values(|s: String| quoted(s@))
}

fn quote_systemd_word(value: &str) -> (out: String)
    ensures
        out@ == quoted(value@),
{
    let v = text::to_chars(value);
    let mut out = String::new();
    out.push('"');
    let mut i: usize = 0;
    assert(out@ =~= seq!['"'] + escaped(v@.take(0)));
    while i < v.len()
        invariant
            i <= v@.len(),
            out@ == seq!['"'] + escaped(v@.take(i as int)),
        decreases v@.len() - i,
    {
        let c = v[i];
        if c == '\\' || c == '"' {
            out.push('\\');
        }
        out.push(c);
        assert(v@.take(i + 1).drop_last() == v@.take(i as int));
        assert(out@ =~= seq!['"'] + escaped(v@.take(i + 1)));
        i = i + 1;
    }
    assert(v@.take(i as int) == v@);
    out.push('"');
    assert(out@ =~= quoted(v@));
    out
}

/// A setting whose value is a list of quoted paths; nothing for an empty list.
pub open spec fn path_list(name: Seq<char>, paths: Seq<Seq<char>>) -> Seq<char> {
    if paths.len() == 0 {
        Seq::empty()
    } else {
        name + "="@ + text::joined(paths, " "@) + "\n"@
    }
}

fn render_path_list(name: &str, paths: &Vec<String>) -> (out: String)
    ensures
        out@ == path_list(name@, quoted_list(paths@)),
{
    if paths.len() == 0 {
        return String::new();
    }
    let mut words: Vec<String> = Vec::new();
    let mut i: usize = 0;
    while i < paths.len()
        invariant
            i <= paths@.len(),
            texts(words@) == quoted_list(paths@).take(i as int),
        decreases paths@.len() - i,
    {
        let ghost before = texts(words@);
        words.push(quote_systemd_word(paths[i].as_str()));
        assert(texts(words@) =~= before.push(quoted(paths@[i as int]@)));
        i = i + 1;
        assert(quoted_list(paths@).take(i as int) =~= before.push(quoted_list(paths@)[i - 1]));
    }
    assert(quoted_list(paths@).take(i as int) == quoted_list(paths@));
    let list = text::join(&words, " ");
    name.to_owned().concat("=").concat(list.as_str()).concat("\n")
}

/// One `DeviceAllow` line for each path.
pub open spec fn device_lines(paths: Seq<String>) -> Seq<char>
    decreases paths.len(),
{
    if paths.len() == 0 {
        Seq::empty()
    } else {
        device_lines(paths.drop_last()) + "DeviceAllow="@ + quoted(paths.last()@) + " rw\n"@
    }
}

fn render_device_lines(paths: &Vec<String>) -> (out: String)
    ensures
        out@ == device_lines(paths@),
{
    let mut out = String::new();
    let mut i: usize = 0;
    while i < paths.len()
        invariant
            i <= paths@.len(),
            out@ == device_lines(paths@.take(i as int)),
        decreases paths@.len() - i,
    {
        let word = quote_systemd_word(paths[i].as_str());
        out.append("DeviceAllow=");
        out.append(word.as_str());
        out.append(" rw\n");
        assert(paths@.take(i + 1).drop_last() == paths@.take(i as int));
        i = i + 1;
    }
    assert(paths@.take(i as int) == paths@);
    out
}

/// Each argument as a quoted word behind a space.
pub open spec fn argument_words(arguments: Seq<String>) -> Seq<char>
    decreases arguments.len(),
{
    if arguments.len() == 0 {
        Seq::empty()
    } else {
        argument_words(arguments.drop_last()) + " "@ + quoted(arguments.last()@)
    }
}

fn render_arguments(arguments: &Vec<String>) -> (out: String)
    ensures
        out@ == argument_words(arguments@),
{
    let mut out = String::new();
    let mut i: usize = 0;
    while i < arguments.len()
        invariant
            i <= arguments@.len(),
            out@ == argument_words(arguments@.take(i as int)),
        decreases arguments@.len() - i,
    {
        let word = quote_systemd_word(arguments[i].as_str());
        out.append(" ");
        out.append(word.as_str());
        assert(arguments@.take(i + 1).drop_last() == arguments@.take(i as int));
        i = i + 1;
    }
    assert(arguments@.take(i as int) == arguments@);
    out
}

/// Whether a list of paths holds the path of a text.
pub open spec fn lists_path(paths: Seq<String>, p: Seq<char>) -> bool {
    exists|i: int| 0 <= i < paths.len() && path((#[trigger] paths[i])@) == path(p)
}

/// The paths that a strictly confined service may write: those declared, and
/// the state directory of the management library.
pub open spec fn writable_words(paths: Seq<String>) -> Seq<Seq<char>> {
    if lists_path(paths, "/var/lib/capulus"@) {
        quoted_list(paths)
    } else {
        quoted_list(paths).push(quoted("/var/lib/capulus"@))
    }
}

/// The settings that confine a service.
pub open spec fn hardening_text(hardening: ServiceHardening) -> Seq<char> {
    match hardening {
        ServiceHardening::Strict { read_write_paths, device_allow } => {
            "NoNewPrivileges=yes\n\
             PrivateTmp=yes\n\
             ProtectClock=yes\n\
             ProtectControlGroups=yes\n\
             ProtectHome=read-only\n\
             ProtectKernelLogs=yes\n\
             ProtectKernelModules=yes\n\
             ProtectKernelTunables=yes\n\
             ProtectSystem=strict\n\
             DevicePolicy=closed\n\
             RestrictRealtime=yes\n\
             RestrictSUIDSGID=yes\n\
             LockPersonality=yes\n\
             MemoryDenyWriteExecute=yes\n\
             LimitCORE=0\n\
             LimitMEMLOCK=65536\n"@
                + path_list("ReadWritePaths"@, writable_words(read_write_paths@)) + device_lines(
                device_allow@,
            )
        },
        ServiceHardening::SystemNetworkController => "PrivateTmp=yes\n\
             ProtectClock=yes\n\
             ProtectHome=read-only\n\
             ProtectKernelLogs=yes\n\
             ProtectKernelModules=yes\n\
             RestrictRealtime=yes\n\
             LockPersonality=yes\n"@,
    }
}

fn has_path(paths: &Vec<String>, p: &str) -> (r: bool)
    ensures
        r == lists_path(paths@, p@),
{
    let mut i: usize = 0;
    while i < paths.len()
        invariant
            i <= paths@.len(),
            forall|k: int| 0 <= k < i ==> path((#[trigger] paths@[k])@) != path(p@),
        decreases paths@.len() - i,
    {
        if unix_path::same_path(paths[i].as_str(), p) {
            return true;
        }
        i = i + 1;
    }
    false
}

fn render_hardening(hardening: &ServiceHardening) -> (out: String)
    ensures
        out@ == hardening_text(*hardening),
{
    match hardening {
        ServiceHardening::Strict { read_write_paths, device_allow } => {
            let mut writable = text::copy_texts(read_write_paths);
            if !has_path(read_write_paths, "/var/lib/capulus") {
                let state = "/var/lib/capulus".to_owned();
                writable.push(state);
                assert(quoted_list(writable@) =~= quoted_list(read_write_paths@).push(
                    quoted(state@),
                ));
            }
            let paths = render_path_list("ReadWritePaths", &writable);
            let devices = render_device_lines(device_allow);
            "NoNewPrivileges=yes\n\
             PrivateTmp=yes\n\
             ProtectClock=yes\n\
             ProtectControlGroups=yes\n\
             ProtectHome=read-only\n\
             ProtectKernelLogs=yes\n\
             ProtectKernelModules=yes\n\
             ProtectKernelTunables=yes\n\
             ProtectSystem=strict\n\
             DevicePolicy=closed\n\
             RestrictRealtime=yes\n\
             RestrictSUIDSGID=yes\n\
             LockPersonality=yes\n\
             MemoryDenyWriteExecute=yes\n\
             LimitCORE=0\n\
             LimitMEMLOCK=65536\n".to_owned().concat(
                paths.as_str(),
            ).concat(devices.as_str())
        },
        ServiceHardening::SystemNetworkController => "PrivateTmp=yes\n\
             ProtectClock=yes\n\
             ProtectHome=read-only\n\
             ProtectKernelLogs=yes\n\
             ProtectKernelModules=yes\n\
             RestrictRealtime=yes\n\
             LockPersonality=yes\n".to_owned(),
    }
}

/// The sockets that the service requires and comes after.
pub open spec fn socket_dependencies(o: ManagedProductOptions) -> Seq<char> {
    let management = management_socket_name(o.product@);
    if o.application_socket is SystemdActivated {
        let application = application_socket_name(o.product@);
        "Requires="@ + application + " "@ + management + "\nAfter="@ + application + " "@
            + management + "\n"@
    } else {
        "Requires="@ + management + "\nAfter="@ + management + "\n"@
    }
}

/// The settings that make the service wait for the network, where it needs it.
pub open spec fn network_text(required: bool) -> Seq<char> {
    if required {
        "After=network-online.target\nWants=network-online.target\n"@
    } else {
        ""@
    }
}

/// A permission mode in base eight with at least four digits.
pub open spec fn mode_text(mode: u32) -> Seq<char> {
    text::zero_padded(text::octal(mode as nat), 4)
}

/// The unit file of the service.
pub open spec fn service_unit(o: ManagedProductOptions) -> Seq<char> {
    "[Unit]\nDescription="@ + o.service.description@ + "\n"@ + socket_dependencies(o)
        + network_text(o.service.network_required)
        + "StartLimitIntervalSec=0\n\
           \n\
           [Service]\n\
           Type=exec\n\
           User=root\n\
           Group=root\n\
           UMask=0077\n\
           ExecStart="@
        + quoted(o.service.executable@) + argument_words(o.service.arguments@)
        + "\nRestart=always\nRestartSec="@ + text::decimal(
        o.service.restart_delay@ / (NANOS_PER_SECOND as nat),
    ) + "s\nRuntimeDirectory="@ + o.product@
        + " capulus\n\
           RuntimeDirectoryMode=0755\n\
           RuntimeDirectoryPreserve=yes\n\
           StateDirectory="@
        + o.product@ + "\nStateDirectoryMode="@ + mode_text(o.service.state_directory_mode) + "\n"@
        + hardening_text(o.service.hardening) + "\n[Install]\nWantedBy=multi-user.target\n"@
}

/// The setting for the group of a socket, where it has one.
pub open spec fn group_text(group: Option<String>) -> Seq<char> {
    match group {
        Some(g) => "SocketGroup="@ + g@ + "\n"@,
        None => Seq::empty(),
    }
}

/// The unit file of a socket.
pub open spec fn socket_unit(
    product: Seq<char>,
    descriptor: Seq<char>,
    socket: SocketOptions,
) -> Seq<char> {
    "[Unit]\nDescription="@ + product + " "@ + descriptor + " socket\n\n[Socket]\nListenStream="@
        + socket.path@ + "\nFileDescriptorName="@ + descriptor + "\nService="@ + service_name(
        product,
    ) + "\nAccept=no\nSocketMode="@ + mode_text(socket.mode) + "\n"@ + group_text(socket.group)
        + "DirectoryMode=0755\n\
           RemoveOnStop=yes\n\
           \n\
           [Install]\n\
           WantedBy=sockets.target\n"@
}

/// The path of a unit file of the system.
pub open spec fn unit_path(unit: Seq<char>) -> Seq<char> {
    unix_path::joined("/etc/systemd/system"@, unit)
}

pub(crate) fn system_unit_path(unit: &str) -> (out: String)
    ensures
        out@ == unit_path(unit@),
{
    unix_path::join("/etc/systemd/system", unit)
}

fn render_mode(mode: u32) -> (out: String)
    ensures
        out@ == mode_text(mode),
{
    let digits = text::octal_u32(mode);
    text::zero_pad(digits.as_str(), 4)
}

impl ManagedProduct {
    /// The unit file of the service.
    pub fn service_unit_contents(&self) -> (out: String)
        ensures
            out@ == service_unit(self@),
    {
        let o = &self.options;
        let management = self.management_socket_name();
        let dependencies = if o.application_socket.is_systemd_activated() {
            let application = self.application_socket_name();
            "Requires=".to_owned().concat(application.as_str()).concat(" ").concat(
                management.as_str(),
            ).concat("\nAfter=").concat(application.as_str()).concat(" ").concat(
                management.as_str(),
            ).concat("\n")
        } else {
            "Requires=".to_owned().concat(management.as_str()).concat("\nAfter=").concat(
                management.as_str(),
            ).concat("\n")
        };
        let network = if o.service.network_required {
            "After=network-online.target\nWants=network-online.target\n"
        } else {
            ""
        };
        let hardening = render_hardening(&o.service.hardening);
        let executable = quote_systemd_word(o.service.executable.as_str());
        let arguments = render_arguments(&o.service.arguments);
        let delay = text::decimal_u64(o.service.restart_delay.as_secs());
        let mode = render_mode(o.service.state_directory_mode);
        "[Unit]\nDescription=".to_owned().concat(o.service.description.as_str()).concat(
            "\n",
        ).concat(dependencies.as_str()).concat(network).concat(
            "StartLimitIntervalSec=0\n\
           \n\
           [Service]\n\
           Type=exec\n\
           User=root\n\
           Group=root\n\
           UMask=0077\n\
           ExecStart=",
        ).concat(executable.as_str()).concat(arguments.as_str()).concat(
            "\nRestart=always\nRestartSec=",
        ).concat(delay.as_str()).concat("s\nRuntimeDirectory=").concat(o.product.as_str()).concat(
            " capulus\n\
           RuntimeDirectoryMode=0755\n\
           RuntimeDirectoryPreserve=yes\n\
           StateDirectory=",
        ).concat(o.product.as_str()).concat("\nStateDirectoryMode=").concat(mode.as_str()).concat(
            "\n",
        ).concat(hardening.as_str()).concat("\n[Install]\nWantedBy=multi-user.target\n")
    }

    /// The unit file of a socket.
    pub fn socket_unit_contents(&self, descriptor_name: &str, options: &SocketOptions) -> (out:
        String)
        ensures
            out@ == socket_unit(self@.product@, descriptor_name@, *options),
    {
        let group = match &options.group {
            Some(g) => "SocketGroup=".to_owned().concat(g.as_str()).concat("\n"),
            None => String::new(),
        };
        let service = self.service_name();
        let mode = render_mode(options.mode);
        "[Unit]\nDescription=".to_owned().concat(self.options.product.as_str()).concat(" ").concat(
            descriptor_name,
        ).concat(" socket\n\n[Socket]\nListenStream=").concat(options.path.as_str()).concat(
            "\nFileDescriptorName=",
        ).concat(descriptor_name).concat("\nService=").concat(service.as_str()).concat(
            "\nAccept=no\nSocketMode=",
        ).concat(mode.as_str()).concat("\n").concat(group.as_str()).concat(
            "DirectoryMode=0755\n\
           RemoveOnStop=yes\n\
           \n\
           [Install]\n\
           WantedBy=sockets.target\n",
        )
    }
}

} // verus!
