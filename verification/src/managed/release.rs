//! Releases of a product: the Cargo registry that one comes from, and when it
//! can be installed.

use vstd::prelude::*;

use crate::config_text::{
    config_of, entries_of, integer_value, keys_differ, list_value, table_of, table_text,
    table_value, text_value, toml_text, values_of, ConfigView,
};
use crate::debug_text::{debug_quote, debug_quoted};
use crate::text;
use crate::version::Version;

verus! {

/// The most bytes that a registry token may have.
pub const MAXIMUM_TOKEN_BYTES: usize = 16_384;

/// The most bytes that a registry's certificate bundle may have.
pub const MAXIMUM_CA_BYTES: usize = 1_048_576;

/// Where Cargo has a release from.
#[derive(Clone, PartialEq, Eq)]
pub enum CargoRegistry {
    CratesIo,
    Private { name: String, index: String, token: String, ca_pem: String },
}

/// Why a registry or a release was refused.
#[derive(Clone, Copy, Debug, PartialEq, Eq, Structural)]
pub enum ReleaseValidationError {
    RegistryName,
    RegistryIndex,
    RegistryToken,
    RegistryCa,
    StableVersion,
}

impl ReleaseValidationError {
    /// The words for the error.
    pub open spec fn words(self) -> Seq<char> {
        match self {
            ReleaseValidationError::RegistryName => "private Cargo registry name is invalid"@,
            ReleaseValidationError::RegistryIndex =>
                "private Cargo registry index must use HTTPS"@,
            ReleaseValidationError::RegistryToken =>
                "private Cargo registry token is missing or invalid"@,
            ReleaseValidationError::RegistryCa =>
                "private Cargo registry CA bundle is missing or invalid"@,
            ReleaseValidationError::StableVersion =>
                "managed releases must use a stable version without build metadata"@,
        }
    }

    /// The words for the error.
    pub fn message(&self) -> (r: &'static str)
        ensures
            r@ == self.words(),
    {
        match self {
            ReleaseValidationError::RegistryName => "private Cargo registry name is invalid",
            ReleaseValidationError::RegistryIndex => "private Cargo registry index must use HTTPS",
            ReleaseValidationError::RegistryToken =>
                "private Cargo registry token is missing or invalid",
            ReleaseValidationError::RegistryCa =>
                "private Cargo registry CA bundle is missing or invalid",
            ReleaseValidationError::StableVersion =>
                "managed releases must use a stable version without build metadata",
        }
    }
}

/// A character of a registry name.
pub open spec fn registry_name_char(c: char) -> bool {
    text::is_lower(c) || text::is_digit(c) || c == '-' || c == '_'
}

/// A registry name: lower-case ASCII letters, digits, hyphens and underscores,
/// at least one.
pub open spec fn registry_name_ok(name: Seq<char>) -> bool {
    name.len() > 0 && forall|i: int|
        0 <= i < name.len() ==> registry_name_char(#[trigger] name[i])
}

/// An ASCII control character.
pub open spec fn is_control(c: char) -> bool {
    (c as u32) < 32 || c as u32 == 127
}

/// Whether a text holds an ASCII control character.
pub open spec fn has_control(s: Seq<char>) -> bool {
    exists|i: int| 0 <= i < s.len() && is_control(#[trigger] s[i])
}

/// The URL of an index: without the mark of the sparse protocol.
pub open spec fn index_url(index: Seq<char>) -> Seq<char> {
    if "sparse+"@.is_prefix_of(index) {
        index.skip("sparse+"@.len() as int)
    } else {
        index
    }
}

/// A registry index: an HTTPS URL without control characters.
pub open spec fn registry_index_ok(index: Seq<char>) -> bool {
    "https://"@.is_prefix_of(index_url(index)) && !has_control(index_url(index))
}

/// A registry token: not blank, of at most 16 KiB, without NUL.
pub open spec fn registry_token_ok(token: Seq<char>) -> bool {
    &&& text::trimmed(token).len() > 0
    &&& text::utf8_len(token) <= MAXIMUM_TOKEN_BYTES
    &&& !token.contains('\0')
}

/// A certificate bundle: of at most one MiB, with the marks of a certificate.
pub open spec fn registry_ca_ok(ca_pem: Seq<char>) -> bool {
    &&& text::utf8_len(ca_pem) <= MAXIMUM_CA_BYTES
    &&& text::occurs(ca_pem, "-----BEGIN CERTIFICATE-----"@)
    &&& text::occurs(ca_pem, "-----END CERTIFICATE-----"@)
}

fn valid_registry_name(name: &str) -> (r: bool)
    ensures
        r == registry_name_ok(name@),
{
    let v = text::to_chars(name);
    if v.len() == 0 {
        return false;
    }
    let mut i: usize = 0;
    while i < v.len()
        invariant
            i <= v@.len(),
            forall|k: int| 0 <= k < i ==> registry_name_char(#[trigger] v@[k]),
        decreases v@.len() - i,
    {
        let c = v[i];
        if !(('a' <= c && c <= 'z') || ('0' <= c && c <= '9') || c == '-' || c == '_') {
            assert(!registry_name_char(v@[i as int]));
            return false;
        }
        i = i + 1;
    }
    true
}

fn holds_control(s: &str) -> (r: bool)
    ensures
        r == has_control(s@),
{
    let v = text::to_chars(s);
    let mut i: usize = 0;
    while i < v.len()
        invariant
            i <= v@.len(),
            forall|k: int| 0 <= k < i ==> !is_control(#[trigger] v@[k]),
        decreases v@.len() - i,
    {
        let n: u32 = v[i] as u32;
        if n < 32 || n == 127 {
            assert(is_control(v@[i as int]));
            return true;
        }
        i = i + 1;
    }
    false
}

fn url_of(index: &str) -> (out: String)
    ensures
        out@ == index_url(index@),
{
    if text::starts_with(index, "sparse+") {
        let v = text::to_chars(index);
        let n: usize = "sparse+".unicode_len();
        assert(v@.subrange(n as int, v@.len() as int) =~= index@.skip(n as int));
        text::from_chars_range(&v, n, v.len())
    } else {
        index.to_owned()
    }
}

impl CargoRegistry {
    /// Why the registry cannot be used: the first part that is not in order
    /// decides.
    pub open spec fn fault(self) -> Option<ReleaseValidationError> {
        match self {
            CargoRegistry::CratesIo => None,
            CargoRegistry::Private { name, index, token, ca_pem } => if !registry_name_ok(name@) {
                Some(ReleaseValidationError::RegistryName)
            } else if !registry_index_ok(index@) {
                Some(ReleaseValidationError::RegistryIndex)
            } else if !registry_token_ok(token@) {
                Some(ReleaseValidationError::RegistryToken)
            } else if !registry_ca_ok(ca_pem@) {
                Some(ReleaseValidationError::RegistryCa)
            } else {
                None
            },
        }
    }

    /// A private registry, where its parts are in order.
    pub fn private(name: String, index: String, token: String, ca_pem: String) -> (r: Result<
        CargoRegistry,
        ReleaseValidationError,
    >)
        ensures
            match (CargoRegistry::Private { name, index, token, ca_pem }).fault() {
                None => r == Ok::<CargoRegistry, ReleaseValidationError>(
                    CargoRegistry::Private { name, index, token, ca_pem },
                ),
                Some(e) => r == Err::<CargoRegistry, ReleaseValidationError>(e),
            },
    {
        let registry = CargoRegistry::Private { name, index, token, ca_pem };
        registry.validate()?;
        Ok(registry)
    }

    /// Checks that the registry can be used.
    pub fn validate(&self) -> (r: Result<(), ReleaseValidationError>)
        ensures
            r == match self.fault() {
                None => Ok::<(), ReleaseValidationError>(()),
                Some(e) => Err::<(), ReleaseValidationError>(e),
            },
    {
        match self {
            CargoRegistry::CratesIo => Ok(()),
            CargoRegistry::Private { name, index, token, ca_pem } => {
                if !valid_registry_name(name.as_str()) {
                    return Err(ReleaseValidationError::RegistryName);
                }
                let url = url_of(index.as_str());
                if !text::starts_with(url.as_str(), "https://") || holds_control(url.as_str()) {
                    return Err(ReleaseValidationError::RegistryIndex);
                }
                let trimmed = text::trim(token.as_str());
                if trimmed.as_str().is_empty() || text::byte_len(token.as_str())
                    > MAXIMUM_TOKEN_BYTES || text::contains_char(token.as_str(), '\0') {
                    return Err(ReleaseValidationError::RegistryToken);
                }
                if text::byte_len(ca_pem.as_str()) > MAXIMUM_CA_BYTES || !text::contains(
                    ca_pem.as_str(),
                    "-----BEGIN CERTIFICATE-----",
                ) || !text::contains(ca_pem.as_str(), "-----END CERTIFICATE-----") {
                    return Err(ReleaseValidationError::RegistryCa);
                }
                Ok(())
            },
        }
    }

    /// The name under which Cargo knows the registry, where it has one.
    pub fn cargo_registry_name(&self) -> (r: Option<&str>)
        ensures
            match self {
                CargoRegistry::CratesIo => r is None,
                CargoRegistry::Private { name, .. } => r matches Some(n) && n@ == name@,
            },
    {
        match self {
            CargoRegistry::CratesIo => None,
            CargoRegistry::Private { name, .. } => Some(name.as_str()),
        }
    }

    /// A text for diagnostics, in which the token and the certificates do not
    /// appear.
    pub open spec fn diagnostic(self) -> Seq<char> {
        match self {
            CargoRegistry::CratesIo => "CratesIo"@,
            CargoRegistry::Private { name, index, .. } => "Private { name: "@ + debug_quoted(name@)
                + ", index: "@ + debug_quoted(index@)
                + ", token: \"[REDACTED]\", ca_pem: \"[REDACTED]\" }"@,
        }
    }

    /// A text for diagnostics, in which the token and the certificates do not
    /// appear.
    pub fn debug_text(&self) -> (out: String)
        ensures
            out@ == self.diagnostic(),
    {
        match self {
            CargoRegistry::CratesIo => "CratesIo".to_owned(),
            CargoRegistry::Private { name, index, .. } => {
                let name = debug_quote(name.as_str());
                let index = debug_quote(index.as_str());
                "Private { name: ".to_owned().concat(name.as_str()).concat(", index: ").concat(
                    index.as_str(),
                ).concat(", token: \"[REDACTED]\", ca_pem: \"[REDACTED]\" }")
            },
        }
    }
}

/// Why a registry's Cargo configuration cannot be written.
#[derive(Clone, Copy, Debug, PartialEq, Eq, Structural)]
pub enum ConfigurationError {
    Unrepresentable,
}

/// The texts that make Cargo use a registry: its configuration, its
/// credentials and its certificates.
pub struct CargoConfiguration<'a> {
    pub config: String,
    pub credentials: Option<String>,
    pub ca_pem: Option<&'a str>,
}

/// A table with one entry.
pub open spec fn single(key: Seq<char>, value: ConfigView) -> ConfigView {
    ConfigView::Table(table_of(seq![(key, value)]))
}

/// The entry of the configuration that every registry has.
pub open spec fn net_entry() -> (Seq<char>, ConfigView) {
    ("net"@, single("retry"@, ConfigView::Integer(2)))
}

/// The entry that names a private registry.
pub open spec fn registries_entry(name: Seq<char>, index: Seq<char>) -> (Seq<char>, ConfigView) {
    (
        "registries"@,
        single(
            name,
            ConfigView::Table(
                table_of(
                    seq![
                        ("index"@, ConfigView::Text(index)),
                        ("credential-provider"@, ConfigView::Text("cargo:token"@)),
                    ],
                ),
            ),
        ),
    )
}

/// The entry that says how credentials are found.
pub open spec fn registry_entry() -> (Seq<char>, ConfigView) {
    (
        "registry"@,
        single(
            "global-credential-providers"@,
            ConfigView::List(seq![ConfigView::Text("cargo:token"@)]),
        ),
    )
}

/// The entry that says where the certificates are.
pub open spec fn http_entry(ca_path: Seq<char>) -> (Seq<char>, ConfigView) {
    ("http"@, single("cainfo"@, ConfigView::Text(ca_path)))
}

/// The entry that holds the credentials.
pub open spec fn credentials_entry(name: Seq<char>, token: Seq<char>) -> (Seq<char>, ConfigView) {
    ("registries"@, single(name, single("token"@, ConfigView::Text(token))))
}

fn push_entry(
    entries: &mut Vec<(String, toml::Value)>,
    key: &str,
    value: toml::Value,
)
    ensures
        entries_of(final(entries)@) == entries_of(old(entries)@).push((key@, config_of(value))),
{
    let ghost before = entries_of(entries@);
    entries.push((key.to_owned(), value));
    assert(entries_of(entries@) =~= before.push((key@, config_of(value))));
}

fn single_table(key: &str, value: toml::Value) -> (r: toml::Value)
    ensures
        config_of(r) == single(key@, config_of(value)),
{
    let mut entries: Vec<(String, toml::Value)> = Vec::new();
    push_entry(&mut entries, key, value);
    assert(entries_of(entries@) =~= seq![(key@, config_of(value))]);
    table_value(entries)
}

fn render(entries: Vec<(String, toml::Value)>) -> (r: Result<String, ConfigurationError>)
    requires
        keys_differ(entries_of(entries@)),
    ensures
        match toml_text(table_of(entries_of(entries@))) {
            Some(text) => r matches Ok(s) && s@ == text,
            None => r is Err,
        },
{
    match table_text(entries) {
        Ok(s) => Ok(s),
        Err(_) => Err(ConfigurationError::Unrepresentable),
    }
}

impl CargoRegistry {
    /// The entries of the registry's configuration.
    pub open spec fn config_entries(self, ca_path: Seq<char>) -> Seq<(Seq<char>, ConfigView)> {
        match self {
            CargoRegistry::CratesIo => seq![net_entry()],
            CargoRegistry::Private { name, index, .. } => seq![
                net_entry(),
                registries_entry(name@, index@),
                registry_entry(),
                http_entry(ca_path),
            ],
        }
    }

    /// The texts that make Cargo use the registry, with its certificates at the
    /// given path. The public registry needs no credentials and no certificates.
    pub fn configuration(&self, ca_path: &str) -> (r: Result<
        CargoConfiguration<'_>,
        ConfigurationError,
    >)
        ensures
            match (self, toml_text(table_of(self.config_entries(ca_path@)))) {
                (_, None) => r is Err,
                (CargoRegistry::CratesIo, Some(config)) => r matches Ok(c) && c.config@ == config
                    && c.credentials is None && c.ca_pem is None,
                (CargoRegistry::Private { name, token, ca_pem, .. }, Some(config)) => {
                    match toml_text(table_of(seq![credentials_entry(name@, token@)])) {
                        None => r is Err,
                        Some(credentials) => r matches Ok(c) && c.config@ == config
                            && text::opt(c.credentials) == Some(credentials) && (c.ca_pem matches
                            Some(pem) && pem@ == ca_pem@),
                    }
                },
            },
    {
        let mut entries: Vec<(String, toml::Value)> = Vec::new();
        push_entry(&mut entries, "net", single_table("retry", integer_value(2)));
        match self {
            CargoRegistry::CratesIo => {
                assert(entries_of(entries@) =~= self.config_entries(ca_path@));
                let config = render(entries)?;
                Ok(CargoConfiguration { config, credentials: None, ca_pem: None })
            },
            CargoRegistry::Private { name, index, token, ca_pem } => {
                let mut registry: Vec<(String, toml::Value)> = Vec::new();
                push_entry(&mut registry, "index", text_value(index.as_str()));
                push_entry(&mut registry, "credential-provider", text_value("cargo:token"));
                assert(entries_of(registry@) =~= seq![
                    ("index"@, ConfigView::Text(index@)),
                    ("credential-provider"@, ConfigView::Text("cargo:token"@)),
                ]);
                proof {
                    reveal_strlit("index");
                    reveal_strlit("credential-provider");
                    assert("index"@.len() != "credential-provider"@.len());
                }
                let registries = single_table(name.as_str(), table_value(registry));
                push_entry(&mut entries, "registries", registries);
                let mut providers: Vec<toml::Value> = Vec::new();
                providers.push(text_value("cargo:token"));
                assert(values_of(providers@) =~= seq![ConfigView::Text("cargo:token"@)]);
                push_entry(
                    &mut entries,
                    "registry",
                    single_table("global-credential-providers", list_value(providers)),
                );
                push_entry(&mut entries, "http", single_table("cainfo", text_value(ca_path)));
                assert(entries_of(entries@) =~= self.config_entries(ca_path@));
                proof {
                    reveal_strlit("net");
                    reveal_strlit("registries");
                    reveal_strlit("registry");
                    reveal_strlit("http");
                    assert("net"@.len() == 3 && "registries"@.len() == 10 && "registry"@.len() == 8
                        && "http"@.len() == 4);
                }
                let config = render(entries)?;
                let mut secrets: Vec<(String, toml::Value)> = Vec::new();
                let secret = single_table(
                    name.as_str(),
                    single_table("token", text_value(token.as_str())),
                );
                push_entry(&mut secrets, "registries", secret);
                assert(entries_of(secrets@) =~= seq![credentials_entry(name@, token@)]);
                let credentials = render(secrets)?;
                Ok(
                    CargoConfiguration {
                        config,
                        credentials: Some(credentials),
                        ca_pem: Some(ca_pem.as_str()),
                    },
                )
            },
        }
    }
}

/// The configuration and the diagnostic text of a private registry do not
/// depend on its token and its certificates.
pub proof fn law_secrets_stay_out(a: CargoRegistry, b: CargoRegistry, ca_path: Seq<char>)
    requires
        a matches CargoRegistry::Private { name, index, .. } && (b matches CargoRegistry::Private {
            name: other_name,
            index: other_index,
            ..
        } && name@ == other_name@ && index@ == other_index@),
    ensures
        a.config_entries(ca_path) == b.config_entries(ca_path),
        a.diagnostic() == b.diagnostic(),
{
}

/// A release that was resolved: a version, and where it comes from.
#[derive(Clone, PartialEq, Eq)]
pub struct ResolvedRelease {
    pub version: Version,
    pub registry: CargoRegistry,
}

impl ResolvedRelease {
    /// Why the release cannot be installed.
    pub open spec fn fault(self) -> Option<ReleaseValidationError> {
        if !self.version@.is_stable() {
            Some(ReleaseValidationError::StableVersion)
        } else {
            self.registry.fault()
        }
    }

    /// Checks that the release can be installed: its version has no pre-release
    /// and no build text, and its registry can be used.
    pub fn validate(&self) -> (r: Result<(), ReleaseValidationError>)
        ensures
            r == match self.fault() {
                None => Ok::<(), ReleaseValidationError>(()),
                Some(e) => Err::<(), ReleaseValidationError>(e),
            },
    {
        if !self.version.is_stable() {
            return Err(ReleaseValidationError::StableVersion);
        }
        self.registry.validate()
    }
}

} // verus!
