//! Installation manifests: what an installation of one version writes and
//! enables.

use vstd::prelude::*;

use super::product::{
    application_socket_name, binary_ok, destinations, identifier, identifier_char, identifier_fault,
    management_socket_name, path_fault, service_name, service_unit, socket_unit, system_unit_path,
    unit_path, validate_absolute_path, validate_identifier, ApplicationSocketOptions,
    ManagedProduct, ManagedProductOptions, ProductValidationError, SystemBinary,
};
use super::unit_text::{law_unit_files_are_safe, unit_char, unit_safe};
use crate::search::{first_failing, lemma_first_failing, lemma_none_failing};
use crate::text;
use crate::text::texts;
use crate::unix_path;
use crate::unix_path::{path, PathView};
use crate::version::{Version, VersionView};

verus! {

/// The schema of installation manifests that this library writes and reads.
pub const INSTALLATION_SCHEMA_MAJOR: u16 = 1;

/// The most bytes that the contents of a unit file may have.
pub const MAXIMUM_UNIT_BYTES: usize = 131_072;

/// A file that an installation writes.
#[derive(Clone, Debug, PartialEq, Eq)]
pub enum ManagedFile {
    Binary { source_name: String, destination: String, mode: u32 },
    Text { destination: String, contents: String, mode: u32 },
}

/// What a managed file says.
#[verifier::ext_equal]
pub ghost enum ManagedFileView {
    Binary { source_name: Seq<char>, destination: Seq<char>, mode: u32 },
    Text { destination: Seq<char>, contents: Seq<char>, mode: u32 },
}

/// Everything that an installation of one version writes and enables.
#[derive(Clone, Debug, PartialEq, Eq)]
pub struct InstallationManifest {
    pub schema_major: u16,
    pub product: String,
    pub package: String,
    pub version: Version,
    pub files: Vec<ManagedFile>,
    pub enable_units: Vec<String>,
}

/// What an installation manifest says.
#[verifier::ext_equal]
pub ghost struct InstallationManifestView {
    pub schema_major: u16,
    pub product: Seq<char>,
    pub package: Seq<char>,
    pub version: VersionView,
    pub files: Seq<ManagedFileView>,
    pub enable_units: Seq<Seq<char>>,
}

impl ManagedFile {
    pub open spec fn view(self) -> ManagedFileView {
        match self {
            ManagedFile::Binary { source_name, destination, mode } => ManagedFileView::Binary {
                source_name: source_name@,
                destination: destination@,
                mode,
            },
            ManagedFile::Text { destination, contents, mode } => ManagedFileView::Text {
                destination: destination@,
                contents: contents@,
                mode,
            },
        }
    }
}

impl ManagedFileView {
    pub open spec fn destination(self) -> Seq<char> {
        match self {
            ManagedFileView::Binary { source_name, destination, mode } => destination,
            ManagedFileView::Text { destination, contents, mode } => destination,
        }
    }

    pub open spec fn mode(self) -> u32 {
        match self {
            ManagedFileView::Binary { source_name, destination, mode } => mode,
            ManagedFileView::Text { destination, contents, mode } => mode,
        }
    }
}

impl InstallationManifest {
    pub open spec fn view(self) -> InstallationManifestView {
        InstallationManifestView {
            schema_major: self.schema_major,
            product: self.product@,
            package: self.package@,
            version: self.version@,
            files: self.files@.map_values(|f: ManagedFile| f@),
            enable_units: texts(self.enable_units@),
        }
    }
}


/// The directory of the managed binaries.
pub open spec fn binary_directory() -> PathView {
    path("/usr/local/bin"@)
}

/// The directory of the managed unit files.
pub open spec fn unit_directory() -> PathView {
    path("/etc/systemd/system"@)
}

/// What the names of a product's units begin with.
pub open spec fn unit_prefix(product: Seq<char>) -> Seq<char> {
    product + "-"@
}

/// Whether a name is one of a service or socket unit of a product.
pub open spec fn unit_name_ok(product: Seq<char>, name: Seq<char>) -> bool {
    &&& unit_prefix(product).is_prefix_of(name)
    &&& ".service"@.is_suffix_of(name) || ".socket"@.is_suffix_of(name)
}

/// Whether the contents of a unit file are short enough and hold no NUL.
pub open spec fn unit_contents_ok(contents: Seq<char>) -> bool {
    text::utf8_len(contents) <= MAXIMUM_UNIT_BYTES && !contents.contains('\0')
}

/// Whether a binary's name and place are in order.
pub open spec fn binary_place_ok(source_name: Seq<char>, destination: Seq<char>) -> bool {
    &&& unix_path::parent(path(destination)) == Some(binary_directory())
    &&& unix_path::file_name(path(destination)) == Some(source_name)
}

/// Whether a unit file's place is in order.
pub open spec fn unit_place_ok(product: Seq<char>, destination: Seq<char>) -> bool {
    &&& unix_path::file_name(path(destination)) matches Some(name) && unit_name_ok(product, name)
    &&& unix_path::parent(path(destination)) == Some(unit_directory())
}

/// Whether a file is in order, but for the other files.
pub open spec fn file_ok(product: Seq<char>, file: ManagedFileView) -> bool {
    &&& match file {
        ManagedFileView::Binary { source_name, destination, mode } => {
            identifier(source_name) && binary_place_ok(source_name, destination)
        },
        ManagedFileView::Text { destination, contents, mode } => {
            unit_place_ok(product, destination) && unit_contents_ok(contents)
        },
    }
    &&& unix_path::is_plain(path(file.destination()))
    &&& file.mode() == 0o644 || file.mode() == 0o755
}

/// The paths of files.
pub open spec fn file_paths(files: Seq<ManagedFileView>) -> Seq<PathView> {
    files.map_values(|f: ManagedFileView| path(f.destination()))
}

/// The error for a file that is not in order.
pub open spec fn file_fault(
    e: ProductValidationError,
    product: Seq<char>,
    file: ManagedFileView,
) -> bool {
    let destination = file.destination();
    match file {
        ManagedFileView::Binary { source_name, .. } if !identifier(source_name) => {
            identifier_fault(e, "manifest binary"@, source_name)
        },
        ManagedFileView::Binary { source_name, .. } if !binary_place_ok(
            source_name,
            destination,
        ) => {
            e matches ProductValidationError::BinaryDestination(actual) && actual@ == destination
        },
        ManagedFileView::Text { .. } if !unit_place_ok(product, destination) => {
            e matches ProductValidationError::UnitDestination(actual) && actual@ == destination
        },
        ManagedFileView::Text { contents, .. } if !unit_contents_ok(contents) => {
            e matches ProductValidationError::UnitContents(name) && Some(name@)
                == unix_path::file_name(path(destination))
        },
        _ => if !unix_path::is_plain(path(destination)) {
            path_fault(e, destination)
        } else if file.mode() != 0o644 && file.mode() != 0o755 {
            e == ProductValidationError::FileMode(file.mode())
        } else {
            e matches ProductValidationError::DuplicateDestination(actual) && actual@
                == destination
        },
    }
}

impl InstallationManifestView {
    /// Whether the file at position `i` is in order, and its path is not that
    /// of an earlier one.
    pub open spec fn file_accepted(self, i: int) -> bool {
        &&& file_ok(self.product, self.files[i])
        &&& !file_paths(self.files).take(i).contains(path(self.files[i].destination()))
    }

    /// The position of the first file that is not in order, or their number.
    pub open spec fn first_bad_file(self) -> int {
        first_failing(|i: int| self.file_accepted(i), self.files.len(), 0)
    }

    /// Whether some file is a binary.
    pub open spec fn has_binary(self) -> bool {
        exists|i: int| 0 <= i < self.files.len() && (#[trigger] self.files[i]) is Binary
    }

    /// Whether the enabled unit at position `i` is one of the product and has
    /// its file.
    pub open spec fn unit_accepted(self, i: int) -> bool {
        &&& unit_name_ok(self.product, self.enable_units[i])
        &&& file_paths(self.files).contains(path(unit_path(self.enable_units[i])))
    }

    /// The position of the first enabled unit that is not in order, or their
    /// number.
    pub open spec fn first_bad_unit(self) -> int {
        first_failing(|i: int| self.unit_accepted(i), self.enable_units.len(), 0)
    }

    /// Whether the manifest is a valid one of the product.
    pub open spec fn accepted(self, expected_product: Seq<char>) -> bool {
        &&& self.schema_major == INSTALLATION_SCHEMA_MAJOR
        &&& self.product == expected_product
        &&& identifier(self.product)
        &&& identifier(self.package)
        &&& self.first_bad_file() == self.files.len()
        &&& self.has_binary()
        &&& self.first_bad_unit() == self.enable_units.len()
    }

    /// The error for a manifest that is not valid: the first condition that
    /// does not hold decides.
    pub open spec fn fault(
        self,
        expected_product: Seq<char>,
        e: ProductValidationError,
    ) -> bool {
        if self.schema_major != INSTALLATION_SCHEMA_MAJOR {
            e == ProductValidationError::InstallationSchema(self.schema_major)
        } else if self.product != expected_product {
            e matches ProductValidationError::ManifestProduct { actual, expected } && actual@
                == self.product && expected@ == expected_product
        } else if !identifier(self.product) {
            identifier_fault(e, "manifest product"@, self.product)
        } else if !identifier(self.package) {
            identifier_fault(e, "manifest package"@, self.package)
        } else if self.first_bad_file() != self.files.len() {
            file_fault(e, self.product, self.files[self.first_bad_file()])
        } else if !self.has_binary() {
            e is MissingSystemBinary
        } else {
            let unit = self.enable_units[self.first_bad_unit()];
            if !unit_name_ok(self.product, unit) {
                e matches ProductValidationError::UnitName(name) && name@ == unit
            } else {
                e matches ProductValidationError::MissingUnitFile(name) && name@ == unit
            }
        }
    }
}

pub(crate) fn has_unit_name(product: &str, name: &str) -> (r: bool)
    ensures
        r == unit_name_ok(product@, name@),
{
    let prefix = product.to_owned().concat("-");
    text::starts_with(name, prefix.as_str()) && (text::ends_with(name, ".service")
        || text::ends_with(name, ".socket"))
}

fn has_unit_contents(contents: &str) -> (r: bool)
    ensures
        r == unit_contents_ok(contents@),
{
    text::byte_len(contents) <= MAXIMUM_UNIT_BYTES && !text::contains_char(contents, '\0')
}

impl ManagedFile {
    /// The path at which the file is written.
    pub fn destination(&self) -> (r: &String)
        ensures
            r@ == self@.destination(),
    {
        match self {
            ManagedFile::Binary { destination, .. } => destination,
            ManagedFile::Text { destination, .. } => destination,
        }
    }

    /// The permission mode of the file.
    pub fn mode(&self) -> (r: u32)
        ensures
            r == self@.mode(),
    {
        match self {
            ManagedFile::Binary { mode, .. } => *mode,
            ManagedFile::Text { mode, .. } => *mode,
        }
    }
}

/// What files say.
pub open spec fn file_views(files: Seq<ManagedFile>) -> Seq<ManagedFileView> {
    files.map_values(|f: ManagedFile| f@)
}

pub(crate) fn files_have_path(files: &Vec<ManagedFile>, count: usize, p: &str) -> (r: bool)
    requires
        count <= files@.len(),
    ensures
        r == file_paths(file_views(files@)).take(count as int).contains(path(p@)),
{
    let ghost paths = file_paths(file_views(files@)).take(count as int);
    let mut i: usize = 0;
    while i < count
        invariant
            i <= count <= files@.len(),
            paths == file_paths(file_views(files@)).take(count as int),
            forall|k: int| 0 <= k < i ==> #[trigger] paths[k] != path(p@),
        decreases count - i,
    {
        if unix_path::same_path(files[i].destination().as_str(), p) {
            assert(paths[i as int] == path(p@));
            return true;
        }
        i = i + 1;
    }
    false
}

fn validate_file(product: &str, file: &ManagedFile) -> (r: Result<(), ProductValidationError>)
    ensures
        r is Ok <==> file_ok(product@, file@),
        r matches Err(e) ==> file_fault(e, product@, file@),
{
    match file {
        ManagedFile::Binary { source_name, destination, .. } => {
            validate_identifier("manifest binary", source_name.as_str())?;
            let named = match unix_path::file_name_of(destination.as_str()) {
                Some(name) => name == *source_name,
                None => false,
            };
            if !unix_path::parent_is(destination.as_str(), "/usr/local/bin") || !named {
                return Err(ProductValidationError::BinaryDestination(destination.clone()));
            }
        },
        ManagedFile::Text { destination, contents, .. } => {
            let name = match unix_path::file_name_of(destination.as_str()) {
                Some(name) => name,
                None => return Err(ProductValidationError::UnitDestination(destination.clone())),
            };
            if !unix_path::parent_is(destination.as_str(), "/etc/systemd/system") || !has_unit_name(
                product,
                name.as_str(),
            ) {
                return Err(ProductValidationError::UnitDestination(destination.clone()));
            }
            if !has_unit_contents(contents.as_str()) {
                return Err(ProductValidationError::UnitContents(name));
            }
        },
    }
    validate_absolute_path(file.destination().as_str())?;
    let mode: u32 = file.mode();
    if mode != 0o644 && mode != 0o755 {
        return Err(ProductValidationError::FileMode(mode));
    }
    Ok(())
}

impl InstallationManifest {
    /// Checks that the manifest is a valid one of the product.
    pub fn validate(&self, expected_product: &str) -> (r: Result<(), ProductValidationError>)
        ensures
            r is Ok <==> self@.accepted(expected_product@),
            r matches Err(e) ==> self@.fault(expected_product@, e),
    {
        if self.schema_major != INSTALLATION_SCHEMA_MAJOR {
            return Err(ProductValidationError::InstallationSchema(self.schema_major));
        }
        if !text::same(self.product.as_str(), expected_product) {
            return Err(
                ProductValidationError::ManifestProduct {
                    actual: self.product.clone(),
                    expected: expected_product.to_owned(),
                },
            );
        }
        validate_identifier("manifest product", self.product.as_str())?;
        validate_identifier("manifest package", self.package.as_str())?;
        let ghost m = self@;
        let ghost fp = |k: int| m.file_accepted(k);
        let ghost up = |k: int| m.unit_accepted(k);
        assert(m.files =~= file_views(self.files@));
        let mut binary = false;
        let mut i: usize = 0;
        while i < self.files.len()
            invariant
                i <= self.files@.len(),
                m == self@,
                m.files == file_views(self.files@),
                forall|k: int| 0 <= k < i ==> #[trigger] fp(k),
                binary == exists|k: int| 0 <= k < i && (#[trigger] m.files[k]) is Binary,
            decreases self.files@.len() - i,
        {
            let file = &self.files[i];
            assert(m.files[i as int] == file@);
            proof {
                lemma_first_failing(fp, m.files.len(), 0, i as int);
            }
            match validate_file(self.product.as_str(), file) {
                Ok(_) => {},
                Err(e) => {
                    assert(!fp(i as int));
                    return Err(e);
                },
            }
            if files_have_path(&self.files, i, file.destination().as_str()) {
                assert(!fp(i as int));
                return Err(
                    ProductValidationError::DuplicateDestination(file.destination().clone()),
                );
            }
            assert(fp(i as int));
            if let ManagedFile::Binary { .. } = file {
                assert(m.files[i as int] is Binary);
                binary = true;
            }
            i = i + 1;
        }
        proof {
            lemma_first_failing(fp, m.files.len(), 0, i as int);
        }
        if !binary {
            return Err(ProductValidationError::MissingSystemBinary);
        }
        let count: usize = self.files.len();
        assert(file_paths(m.files).take(count as int) == file_paths(m.files));
        let mut j: usize = 0;
        while j < self.enable_units.len()
            invariant
                j <= self.enable_units@.len(),
                m == self@,
                m.files == file_views(self.files@),
                forall|k: int| 0 <= k < j ==> #[trigger] up(k),
            decreases self.enable_units@.len() - j,
        {
            let unit = &self.enable_units[j];
            assert(m.enable_units[j as int] == unit@);
            proof {
                lemma_first_failing(up, m.enable_units.len(), 0, j as int);
            }
            if !has_unit_name(self.product.as_str(), unit.as_str()) {
                assert(!up(j as int));
                return Err(ProductValidationError::UnitName(unit.clone()));
            }
            let file = system_unit_path(unit.as_str());
            if !files_have_path(&self.files, count, file.as_str()) {
                assert(!up(j as int));
                return Err(ProductValidationError::MissingUnitFile(unit.clone()));
            }
            assert(up(j as int));
            j = j + 1;
        }
        proof {
            lemma_first_failing(up, m.enable_units.len(), 0, j as int);
        }
        Ok(())
    }
}

// ---------------------------------------------------------------------------
// The manifest of a product
// ---------------------------------------------------------------------------

/// The file that installs a binary.
pub open spec fn binary_file(b: SystemBinary) -> ManagedFileView {
    ManagedFileView::Binary {
        source_name: b.cargo_name@,
        destination: b.destination@,
        mode: 0o755,
    }
}

/// The file of a unit.
pub open spec fn unit_file(unit: Seq<char>, contents: Seq<char>) -> ManagedFileView {
    ManagedFileView::Text { destination: unit_path(unit), contents, mode: 0o644 }
}

/// The files that a product installs: its binaries, its service and the unit of
/// its management socket; where systemd binds the application socket, the unit
/// of that too.
pub open spec fn product_files(o: ManagedProductOptions) -> Seq<ManagedFileView> {
    let always = o.system_binaries@.map_values(|b: SystemBinary| binary_file(b)).push(
        unit_file(service_name(o.product@), service_unit(o)),
    ).push(
        unit_file(
            management_socket_name(o.product@),
            socket_unit(o.product@, "capulus"@, o.management_socket),
        ),
    );
    match o.application_socket {
        ApplicationSocketOptions::AgentBound(_) => always,
        ApplicationSocketOptions::SystemdActivated(socket) => always.push(
            unit_file(
                application_socket_name(o.product@),
                socket_unit(o.product@, "application"@, socket),
            ),
        ),
    }
}

/// The units that a product enables.
pub open spec fn product_units(o: ManagedProductOptions) -> Seq<Seq<char>> {
    if o.application_socket is SystemdActivated {
        seq![
            application_socket_name(o.product@),
            management_socket_name(o.product@),
            service_name(o.product@),
        ]
    } else {
        seq![management_socket_name(o.product@), service_name(o.product@)]
    }
}

/// The installation manifest of a product.
pub open spec fn product_manifest(o: ManagedProductOptions) -> InstallationManifestView {
    InstallationManifestView {
        schema_major: INSTALLATION_SCHEMA_MAJOR,
        product: o.product@,
        package: o.package@,
        version: o.version@,
        files: product_files(o),
        enable_units: product_units(o),
    }
}

impl ManagedProduct {
    /// The installation manifest of the product.
    pub fn installation_manifest(&self) -> (m: InstallationManifest)
        ensures
            m@ == product_manifest(self@),
    {
        let o = self.declaration();
        let service_name = self.service_name();
        let application_socket_name = self.application_socket_name();
        let management_socket_name = self.management_socket_name();
        let ghost binaries = o.system_binaries@.map_values(|b: SystemBinary| binary_file(b));
        let mut files: Vec<ManagedFile> = Vec::new();
        let mut i: usize = 0;
        while i < o.system_binaries.len()
            invariant
                i <= o.system_binaries@.len(),
                binaries == o.system_binaries@.map_values(|b: SystemBinary| binary_file(b)),
                file_views(files@) == binaries.take(i as int),
            decreases o.system_binaries@.len() - i,
        {
            let binary = &o.system_binaries[i];
            let ghost before = file_views(files@);
            let file = ManagedFile::Binary {
                source_name: binary.cargo_name.clone(),
                destination: binary.destination.clone(),
                mode: 0o755,
            };
            let ghost view = file@;
            files.push(file);
            assert(file_views(files@) =~= before.push(view));
            i = i + 1;
            assert(binaries.take(i as int) =~= before.push(binaries[i - 1]));
        }
        assert(binaries.take(i as int) == binaries);
        let service = ManagedFile::Text {
            destination: system_unit_path(service_name.as_str()),
            contents: self.service_unit_contents(),
            mode: 0o644,
        };
        let management = ManagedFile::Text {
            destination: system_unit_path(management_socket_name.as_str()),
            contents: self.socket_unit_contents("capulus", &o.management_socket),
            mode: 0o644,
        };
        let ghost always = binaries.push(service@).push(management@);
        files.push(service);
        files.push(management);
        assert(file_views(files@) =~= always);
        let mut enable_units: Vec<String> = Vec::new();
        if let ApplicationSocketOptions::SystemdActivated(socket) = &o.application_socket {
            let application = ManagedFile::Text {
                destination: system_unit_path(application_socket_name.as_str()),
                contents: self.socket_unit_contents("application", socket),
                mode: 0o644,
            };
            let ghost view = application@;
            files.push(application);
            assert(file_views(files@) =~= always.push(view));
            enable_units.push(application_socket_name);
        }
        enable_units.push(management_socket_name);
        enable_units.push(service_name);
        assert(texts(enable_units@) =~= product_units(*o));
        let m = InstallationManifest {
            schema_major: INSTALLATION_SCHEMA_MAJOR,
            product: o.product.clone(),
            package: o.package.clone(),
            version: o.version.copy(),
            files,
            enable_units,
        };
        assert(m@.files =~= file_views(m.files@));
        m
    }
}

// ---------------------------------------------------------------------------
// Manifests of other releases of a product
// ---------------------------------------------------------------------------

/// What identifies a binary in a manifest: its name, its path and its mode.
pub type BinaryKey = (Seq<char>, PathView, u32);

/// The key of a file, where it is a binary.
pub open spec fn binary_key(f: ManagedFileView) -> Option<BinaryKey> {
    match f {
        ManagedFileView::Binary { source_name, destination, mode } => Some(
            (source_name, path(destination), mode),
        ),
        ManagedFileView::Text { .. } => None,
    }
}

/// The keys of the binaries in a manifest.
pub open spec fn manifest_binaries(files: Seq<ManagedFileView>) -> Set<BinaryKey> {
    Set::new(
        |k: BinaryKey|
            exists|i: int| 0 <= i < files.len() && binary_key(#[trigger] files[i]) == Some(k),
    )
}

/// The key of a declared binary.
pub open spec fn declared_key(b: SystemBinary) -> BinaryKey {
    (b.cargo_name@, path(b.destination@), 0o755)
}

/// The keys of the binaries that a product declares.
pub open spec fn declared_binaries(binaries: Seq<SystemBinary>) -> Set<BinaryKey> {
    Set::new(
        |k: BinaryKey|
            exists|i: int| 0 <= i < binaries.len() && declared_key(#[trigger] binaries[i]) == k,
    )
}

/// The name of the unit in a file, where it is one.
pub open spec fn unit_in(f: ManagedFileView) -> Option<Seq<char>> {
    match f {
        ManagedFileView::Binary { .. } => None,
        ManagedFileView::Text { destination, .. } => unix_path::file_name(path(destination)),
    }
}

/// The names of the units whose files are in a manifest.
pub open spec fn present_units(files: Seq<ManagedFileView>) -> Set<Seq<char>> {
    Set::new(
        |n: Seq<char>|
            exists|i: int| 0 <= i < files.len() && unit_in(#[trigger] files[i]) == Some(n),
    )
}

/// The names of the units that a product may have.
pub open spec fn allowed_units(product: Seq<char>) -> Set<Seq<char>> {
    set![
        service_name(product),
        management_socket_name(product),
        application_socket_name(product),
    ]
}

/// Whether the units that a manifest enables are those whose files are in it,
/// each once.
pub open spec fn enablement_ok(m: InstallationManifestView) -> bool {
    &&& m.enable_units.to_set() == present_units(m.files)
    &&& m.enable_units.len() == present_units(m.files).len()
}

/// Whether a manifest is one of a release of the product with the version.
pub open spec fn release_accepted(
    o: ManagedProductOptions,
    m: InstallationManifestView,
    version: VersionView,
) -> bool {
    &&& m.accepted(o.product@)
    &&& m.package == o.package@
    &&& m.version == version
    &&& manifest_binaries(m.files) == declared_binaries(o.system_binaries@)
    &&& present_units(m.files).subset_of(allowed_units(o.product@))
    &&& present_units(m.files).contains(service_name(o.product@))
    &&& present_units(m.files).contains(management_socket_name(o.product@))
    &&& enablement_ok(m)
}

/// The error for a manifest that is not one of a release of the product with
/// the version: the first condition that does not hold decides.
pub open spec fn release_fault(
    o: ManagedProductOptions,
    m: InstallationManifestView,
    version: VersionView,
    e: ProductValidationError,
) -> bool {
    if !m.accepted(o.product@) {
        m.fault(o.product@, e)
    } else if m.package != o.package@ {
        e matches ProductValidationError::ManifestPackage { actual, expected } && actual@
            == m.package && expected@ == o.package@
    } else if m.version != version {
        e matches ProductValidationError::ManifestVersion { actual, expected } && actual@
            == m.version && expected@ == version
    } else if manifest_binaries(m.files) != declared_binaries(o.system_binaries@) {
        e is ManifestBinarySet
    } else if !present_units(m.files).subset_of(allowed_units(o.product@)) {
        e is UnexpectedManagedUnit
    } else if !present_units(m.files).contains(service_name(o.product@)) || !present_units(
        m.files,
    ).contains(management_socket_name(o.product@)) {
        e is MissingRequiredUnit
    } else {
        e is UnitEnablement
    }
}

fn file_has_key(file: &ManagedFile, binary: &SystemBinary) -> (r: bool)
    ensures
        r == (binary_key(file@) == Some(declared_key(*binary))),
{
    match file {
        ManagedFile::Binary { source_name, destination, mode } => {
            *source_name == binary.cargo_name && unix_path::same_path(
                destination.as_str(),
                binary.destination.as_str(),
            ) && *mode == 0o755
        },
        ManagedFile::Text { .. } => false,
    }
}

fn same_binaries(files: &Vec<ManagedFile>, binaries: &Vec<SystemBinary>) -> (r: bool)
    ensures
        r == (manifest_binaries(file_views(files@)) == declared_binaries(binaries@)),
{
    let ghost views = file_views(files@);
    let ghost actual = manifest_binaries(views);
    let ghost expected = declared_binaries(binaries@);
    let mut i: usize = 0;
    while i < binaries.len()
        invariant
            i <= binaries@.len(),
            views == file_views(files@),
            actual == manifest_binaries(views),
            expected == declared_binaries(binaries@),
            forall|k: int|
                0 <= k < i ==> actual.contains(declared_key(#[trigger] binaries@[k])),
        decreases binaries@.len() - i,
    {
        let ghost key = declared_key(binaries@[i as int]);
        let mut found = false;
        let mut j: usize = 0;
        while j < files.len() && !found
            invariant
                i < binaries@.len(),
                j <= files@.len(),
                views == file_views(files@),
                key == declared_key(binaries@[i as int]),
                found ==> actual.contains(key),
                !found ==> forall|k: int| 0 <= k < j ==> binary_key(#[trigger] views[k]) != Some(key),
            decreases files@.len() - j,
        {
            assert(views[j as int] == files@[j as int]@);
            if file_has_key(&files[j], &binaries[i]) {
                found = true;
            }
            j = j + 1;
        }
        if !found {
            assert(expected.contains(key));
            assert(!actual.contains(key));
            return false;
        }
        i = i + 1;
    }
    let mut j: usize = 0;
    while j < files.len()
        invariant
            j <= files@.len(),
            views == file_views(files@),
            actual == manifest_binaries(views),
            expected == declared_binaries(binaries@),
            forall|k: int|
                #![trigger views[k]]
                0 <= k < j ==> (binary_key(views[k]) matches Some(key) ==> expected.contains(key)),
        decreases files@.len() - j,
    {
        assert(views[j as int] == files@[j as int]@);
        if let ManagedFile::Binary { .. } = &files[j] {
            let ghost key = binary_key(views[j as int])->0;
            let mut found = false;
            let mut i: usize = 0;
            while i < binaries.len() && !found
                invariant
                    j < files@.len(),
                    i <= binaries@.len(),
                    views[j as int] == files@[j as int]@,
                    binary_key(views[j as int]) == Some(key),
                    found ==> expected.contains(key),
                    !found ==> forall|k: int|
                        0 <= k < i ==> declared_key(#[trigger] binaries@[k]) != key,
                decreases binaries@.len() - i,
            {
                if file_has_key(&files[j], &binaries[i]) {
                    found = true;
                }
                i = i + 1;
            }
            if !found {
                assert(actual.contains(key));
                assert(!expected.contains(key));
                return false;
            }
        }
        j = j + 1;
    }
    assert(actual =~= expected);
    true
}

fn list_present_units(files: &Vec<ManagedFile>) -> (out: Vec<String>)
    ensures
        texts(out@).no_duplicates(),
        texts(out@).to_set() == present_units(file_views(files@)),
{
    let ghost views = file_views(files@);
    let mut out: Vec<String> = Vec::new();
    let mut i: usize = 0;
    assert(texts(out@).to_set() =~= present_units(views.take(0)));
    while i < files.len()
        invariant
            i <= files@.len(),
            views == file_views(files@),
            texts(out@).no_duplicates(),
            texts(out@).to_set() == present_units(views.take(i as int)),
        decreases files@.len() - i,
    {
        let ghost before = texts(out@);
        let ghost prefix = views.take(i as int);
        let ghost grown = views.take(i + 1);
        assert(views[i as int] == files@[i as int]@);
        assert(grown =~= prefix.push(views[i as int]));
        assert forall|n: Seq<char>| present_units(grown).contains(n) <==> (present_units(
            prefix,
        ).contains(n) || unit_in(views[i as int]) == Some(n)) by {
            if present_units(prefix).contains(n) {
                let k = choose|k: int|
                    0 <= k < prefix.len() && unit_in(#[trigger] prefix[k]) == Some(n);
                assert(grown[k] == prefix[k]);
            }
            if unit_in(views[i as int]) == Some(n) {
                assert(grown[i as int] == views[i as int]);
            }
            if present_units(grown).contains(n) {
                let k = choose|k: int|
                    0 <= k < grown.len() && unit_in(#[trigger] grown[k]) == Some(n);
                if k < i {
                    assert(prefix[k] == grown[k]);
                }
            }
        }
        if let ManagedFile::Text { destination, .. } = &files[i] {
            if let Some(name) = unix_path::file_name_of(destination.as_str()) {
                let ghost n = name@;
                if !text::contains_text(&out, name.as_str()) {
                    out.push(name);
                    assert(texts(out@) =~= before.push(n));
                    assert(texts(out@).contains(n)) by {
                        assert(texts(out@)[before.len() as int] == n);
                    }
                    assert forall|x: Seq<char>| texts(out@).contains(x) <==> (before.contains(x)
                        || x == n) by {
                        if before.contains(x) {
                            let k = choose|k: int| 0 <= k < before.len() && before[k] == x;
                            assert(texts(out@)[k] == x);
                        }
                    }
                }
            }
        }
        assert(texts(out@).to_set() =~= present_units(grown));
        i = i + 1;
    }
    assert(views.take(i as int) == views);
    out
}

/// Whether every text of the first list is in the second.
fn all_in(a: &Vec<String>, b: &Vec<String>) -> (r: bool)
    ensures
        r == texts(a@).to_set().subset_of(texts(b@).to_set()),
{
    let mut i: usize = 0;
    while i < a.len()
        invariant
            i <= a@.len(),
            forall|k: int| 0 <= k < i ==> texts(b@).contains(#[trigger] texts(a@)[k]),
        decreases a@.len() - i,
    {
        assert(texts(a@)[i as int] == a@[i as int]@);
        if !text::contains_text(b, a[i].as_str()) {
            assert(texts(a@).to_set().contains(texts(a@)[i as int]));
            return false;
        }
        i = i + 1;
    }
    true
}

impl ManagedProduct {
    /// Checks that a manifest is one of a release of this product with the
    /// expected version.
    pub fn validate_release_manifest(
        &self,
        manifest: &InstallationManifest,
        expected_version: &Version,
    ) -> (r: Result<(), ProductValidationError>)
        ensures
            r is Ok <==> release_accepted(self@, manifest@, expected_version@),
            r matches Err(e) ==> release_fault(self@, manifest@, expected_version@, e),
    {
        manifest.validate(self.name())?;
        if !text::same(manifest.package.as_str(), self.package()) {
            return Err(
                ProductValidationError::ManifestPackage {
                    actual: manifest.package.clone(),
                    expected: self.package().to_owned(),
                },
            );
        }
        if !manifest.version.same(expected_version) {
            return Err(
                ProductValidationError::ManifestVersion {
                    actual: manifest.version.copy(),
                    expected: expected_version.copy(),
                },
            );
        }
        assert(manifest@.files =~= file_views(manifest.files@));
        if !same_binaries(&manifest.files, self.system_binaries()) {
            return Err(ProductValidationError::ManifestBinarySet);
        }
        let service = self.service_name();
        let management = self.management_socket_name();
        let mut allowed: Vec<String> = Vec::new();
        allowed.push(self.service_name());
        allowed.push(self.management_socket_name());
        allowed.push(self.application_socket_name());
        proof {
            let t = texts(allowed@);
            assert(t[0] == service_name(self@.product@));
            assert(t[1] == management_socket_name(self@.product@));
            assert(t[2] == application_socket_name(self@.product@));
            assert(t.to_set() =~= allowed_units(self@.product@));
        }
        let present = list_present_units(&manifest.files);
        if !all_in(&present, &allowed) {
            return Err(ProductValidationError::UnexpectedManagedUnit);
        }
        if !text::contains_text(&present, service.as_str()) || !text::contains_text(
            &present,
            management.as_str(),
        ) {
            return Err(ProductValidationError::MissingRequiredUnit);
        }
        proof {
            texts(present@).unique_seq_to_set();
            let a = texts(manifest.enable_units@).to_set();
            let b = texts(present@).to_set();
            assert(a.subset_of(b) && b.subset_of(a) ==> a =~= b);
        }
        if !all_in(&manifest.enable_units, &present) || !all_in(&present, &manifest.enable_units)
            || manifest.enable_units.len() != present.len() {
            return Err(ProductValidationError::UnitEnablement);
        }
        Ok(())
    }
}

// ---------------------------------------------------------------------------
// Laws
// ---------------------------------------------------------------------------

/// The unit directory: where it starts, and its last part.
proof fn lemma_unit_directory()
    ensures
        unix_path::is_plain(unit_directory()),
        unit_directory().parts.len() > 0,
        unit_directory().parts.last() == "system"@,
{
    reveal_strlit("/etc/systemd/system");
    reveal_strlit("/etc/systemd");
    reveal_strlit("system");
    assert(unix_path::joined("/etc/systemd"@, "system"@) =~= "/etc/systemd/system"@);
    unix_path::lemma_join_name("/etc/systemd"@, "system"@);
    unix_path::lemma_plain_without_dots("/etc/systemd/system"@);
}

/// The binary directory is not the unit directory.
pub proof fn lemma_directories_differ()
    ensures
        binary_directory() != unit_directory(),
{
    lemma_unit_directory();
    reveal_strlit("/usr/local/bin");
    reveal_strlit("/usr/local");
    reveal_strlit("bin");
    reveal_strlit("system");
    assert(unix_path::joined("/usr/local"@, "bin"@) =~= "/usr/local/bin"@);
    unix_path::lemma_join_name("/usr/local"@, "bin"@);
    assert(binary_directory().parts.last().len() == 3);
    assert(unit_directory().parts.last().len() == 6);
}

/// A name without slashes, longer than two characters, put into the unit
/// directory.
pub proof fn lemma_unit_path(name: Seq<char>)
    requires
        name.len() > 2,
        !name.contains('/'),
    ensures
        unix_path::is_plain(path(unit_path(name))),
        unix_path::parent(path(unit_path(name))) == Some(unit_directory()),
        unix_path::file_name(path(unit_path(name))) == Some(name),
{
    lemma_unit_directory();
    reveal_strlit("/etc/systemd/system");
    unix_path::lemma_join_name("/etc/systemd/system"@, name);
    let p = path(unit_path(name));
    assert(p.parts.drop_last() =~= unit_directory().parts);
    assert(p.parts.last() == name);
    if p.parts.contains(unix_path::dot_dot()) {
        let i = choose|i: int| 0 <= i < p.parts.len() && p.parts[i] == unix_path::dot_dot();
        if i < unit_directory().parts.len() {
            assert(unit_directory().parts[i] == unix_path::dot_dot());
        }
    }
}

/// The names of a product's units: they have the product's prefix and a unit
/// suffix, hold no slash, and differ from one another.
pub proof fn lemma_unit_names(product: Seq<char>)
    requires
        identifier(product),
    ensures
        unit_name_ok(product, service_name(product)),
        unit_name_ok(product, management_socket_name(product)),
        unit_name_ok(product, application_socket_name(product)),
        !service_name(product).contains('/') && service_name(product).len() > 2,
        !management_socket_name(product).contains('/') && management_socket_name(product).len()
            > 2,
        !application_socket_name(product).contains('/') && application_socket_name(product).len()
            > 2,
        service_name(product) != management_socket_name(product),
        service_name(product) != application_socket_name(product),
        management_socket_name(product) != application_socket_name(product),
{
    reveal_strlit("-");
    reveal_strlit(".service");
    reveal_strlit(".socket");
    reveal_strlit("-agent.service");
    reveal_strlit("-agent.socket");
    reveal_strlit("-capulus.socket");
    let n = product.len() as int;
    let s = service_name(product);
    let a = application_socket_name(product);
    let m = management_socket_name(product);
    assert(s.subrange(0, n + 1) =~= unit_prefix(product));
    assert(a.subrange(0, n + 1) =~= unit_prefix(product));
    assert(m.subrange(0, n + 1) =~= unit_prefix(product));
    assert(s.subrange(s.len() - 8, s.len() as int) =~= ".service"@);
    assert(a.subrange(a.len() - 7, a.len() as int) =~= ".socket"@);
    assert(m.subrange(m.len() - 7, m.len() as int) =~= ".socket"@);
    assert(s.len() == n + 14 && a.len() == n + 13 && m.len() == n + 15);
    assert forall|i: int| 0 <= i < s.len() implies s[i] != '/' by {
        assert(i < n ==> identifier_char(product[i]));
    }
    assert forall|i: int| 0 <= i < a.len() implies a[i] != '/' by {
        assert(i < n ==> identifier_char(product[i]));
    }
    assert forall|i: int| 0 <= i < m.len() implies m[i] != '/' by {
        assert(i < n ==> identifier_char(product[i]));
    }
}

/// Whether the unit files of a product are short enough.
pub open spec fn unit_files_fit(o: ManagedProductOptions) -> bool {
    forall|i: int|
        0 <= i < product_files(o).len() ==> (#[trigger] product_files(o)[i] matches
            ManagedFileView::Text { contents, .. } ==> text::utf8_len(contents)
            <= MAXIMUM_UNIT_BYTES)
}

/// The unit files of a product that are short enough are in order.
proof fn lemma_unit_contents(o: ManagedProductOptions, i: int)
    requires
        o.accepted(),
        unit_files_fit(o),
        o.system_binaries@.len() <= i < product_files(o).len(),
    ensures
        product_files(o)[i] matches ManagedFileView::Text { contents, .. } && unit_contents_ok(
            contents,
        ),
{
    law_unit_files_are_safe(o);
    assert(product_files(o)[i] is Text);
    if let ManagedFileView::Text { contents, .. } = product_files(o)[i] {
        assert(unit_safe(contents));
        if contents.contains('\0') {
            let j = choose|j: int| 0 <= j < contents.len() && contents[j] == '\0';
            assert(unit_char(contents[j]));
        }
    }
}

/// The unit at each position behind the binaries of a product.
pub open spec fn unit_at(o: ManagedProductOptions, i: int) -> Seq<char> {
    let n = o.system_binaries@.len();
    if i == n {
        service_name(o.product@)
    } else if i == n + 1 {
        management_socket_name(o.product@)
    } else {
        application_socket_name(o.product@)
    }
}

/// Whether a file's name, place and mode are in order, whatever it holds.
pub open spec fn place_ok(product: Seq<char>, file: ManagedFileView) -> bool {
    &&& match file {
        ManagedFileView::Binary { source_name, destination, mode } => {
            identifier(source_name) && binary_place_ok(source_name, destination)
        },
        ManagedFileView::Text { destination, contents, mode } => {
            unit_place_ok(product, destination)
        },
    }
    &&& unix_path::is_plain(path(file.destination()))
    &&& file.mode() == 0o644 || file.mode() == 0o755
}

/// The files of a product have their names, places and modes in order, and
/// their paths differ.
pub proof fn lemma_product_places(o: ManagedProductOptions)
    requires
        o.accepted(),
    ensures
        forall|i: int|
            0 <= i < product_files(o).len() ==> place_ok(o.product@, #[trigger] product_files(o)[i]),
        file_paths(product_files(o)).no_duplicates(),
        forall|i: int|
            o.system_binaries@.len() <= i < product_files(o).len() ==> unit_in(
                #[trigger] product_files(o)[i],
            ) == Some(unit_at(o, i)),
{
    let files = product_files(o);
    let n = o.system_binaries@.len() as int;
    let binaries = o.system_binaries@;
    let bp = |i: int| binary_ok(binaries, i);
    lemma_none_failing(bp, binaries.len(), 0);
    lemma_unit_names(o.product@);
    lemma_unit_path(service_name(o.product@));
    lemma_unit_path(management_socket_name(o.product@));
    lemma_unit_path(application_socket_name(o.product@));
    lemma_directories_differ();
    let paths = file_paths(files);
    assert forall|i: int| 0 <= i < files.len() implies place_ok(o.product@, #[trigger] files[i]) by {
        if i < n {
            assert(bp(i));
            assert(files[i] == binary_file(binaries[i]));
        } else {
            assert(files[i].destination() == unit_path(unit_at(o, i)));
            assert(files[i] is Text);
        }
    }
    assert forall|k: int, i: int| 0 <= k < i < files.len() implies paths[k] != paths[i] by {
        assert(place_ok(o.product@, files[k]));
        assert(place_ok(o.product@, files[i]));
        if i < n {
            assert(bp(i));
            assert(files[i] == binary_file(binaries[i]));
            assert(files[k] == binary_file(binaries[k]));
            assert(destinations(binaries).take(i)[k] == path(binaries[k].destination@));
        } else {
            assert(files[i].destination() == unit_path(unit_at(o, i)));
            if k < n {
                assert(files[k] == binary_file(binaries[k]));
            } else {
                assert(files[k].destination() == unit_path(unit_at(o, k)));
            }
        }
    }
}

proof fn lemma_product_files_accepted(o: ManagedProductOptions)
    requires
        o.accepted(),
        unit_files_fit(o),
    ensures
        product_manifest(o).first_bad_file() == product_files(o).len(),
        forall|i: int|
            o.system_binaries@.len() <= i < product_files(o).len() ==> unit_in(
                #[trigger] product_files(o)[i],
            ) == Some(unit_at(o, i)),
{
    let m = product_manifest(o);
    let files = m.files;
    lemma_product_places(o);
    let fp = |i: int| m.file_accepted(i);
    let paths = file_paths(files);
    assert forall|i: int| 0 <= i < files.len() implies #[trigger] fp(i) by {
        assert(place_ok(o.product@, files[i]));
        if i >= o.system_binaries@.len() {
            lemma_unit_contents(o, i);
        } else {
            assert(files[i] == binary_file(o.system_binaries@[i]));
        }
        if paths.take(i).contains(path(files[i].destination())) {
            let k = choose|k: int|
                0 <= k < paths.take(i).len() && paths.take(i)[k] == path(files[i].destination());
            assert(paths[k] == paths[i]);
        }
    }
    lemma_first_failing(fp, files.len(), 0, files.len() as int);
}

/// The units that a product enables are those whose files it installs, each
/// once.
proof fn lemma_product_units(o: ManagedProductOptions)
    requires
        o.accepted(),
        unit_files_fit(o),
    ensures
        product_manifest(o).first_bad_unit() == product_units(o).len(),
        product_units(o).to_set() == present_units(product_files(o)),
        product_units(o).len() == present_units(product_files(o)).len(),
{
    let m = product_manifest(o);
    let files = product_files(o);
    let units = product_units(o);
    let n = o.system_binaries@.len() as int;
    lemma_product_files_accepted(o);
    lemma_unit_names(o.product@);
    let s = service_name(o.product@);
    let g = management_socket_name(o.product@);
    let present = present_units(files);
    let up = |i: int| m.unit_accepted(i);
    assert forall|i: int| 0 <= i < units.len() implies #[trigger] up(i) && present.contains(
        units[i],
    ) by {
        let at = if units[i] == s {
            n
        } else if units[i] == g {
            n + 1
        } else {
            n + 2
        };
        assert(files[at].destination() == unit_path(units[i]));
        assert(file_paths(files)[at] == path(unit_path(units[i])));
        assert(unit_in(files[at]) == Some(unit_at(o, at)));
    }
    lemma_first_failing(up, units.len(), 0, units.len() as int);
    assert forall|u: Seq<char>| present.contains(u) implies units.contains(u) by {
        let i = choose|i: int| 0 <= i < files.len() && unit_in(#[trigger] files[i]) == Some(u);
        if i < n {
            assert(files[i] == binary_file(o.system_binaries@[i]));
        }
        assert(u == unit_at(o, i));
        let last = units.len() - 1;
        let j = if u == s {
            last
        } else if u == g {
            last - 1
        } else {
            last - 2
        };
        assert(units[j] == u);
    }
    assert forall|u: Seq<char>| units.contains(u) implies present.contains(u) by {
        let i = choose|i: int| 0 <= i < units.len() && units[i] == u;
        assert(up(i));
    }
    assert(units.to_set() =~= present);
    assert(units.no_duplicates());
    units.unique_seq_to_set();
}

/// The binaries in a product's manifest are those that it declares.
proof fn lemma_product_binaries(o: ManagedProductOptions)
    ensures
        manifest_binaries(product_files(o)) == declared_binaries(o.system_binaries@),
{
    let files = product_files(o);
    let binaries = o.system_binaries@;
    assert forall|k: BinaryKey| manifest_binaries(files).contains(k) implies declared_binaries(
        binaries,
    ).contains(k) by {
        let i = choose|i: int| 0 <= i < files.len() && binary_key(#[trigger] files[i]) == Some(k);
        assert(i < binaries.len());
        assert(files[i] == binary_file(binaries[i]));
        assert(declared_key(binaries[i]) == k);
    }
    assert forall|k: BinaryKey| declared_binaries(binaries).contains(k) implies manifest_binaries(
        files,
    ).contains(k) by {
        let i = choose|i: int| 0 <= i < binaries.len() && declared_key(#[trigger] binaries[i]) == k;
        assert(files[i] == binary_file(binaries[i]));
        assert(binary_key(files[i]) == Some(k));
    }
    assert(manifest_binaries(files) =~= declared_binaries(binaries));
}

/// A product accepts the manifest of every release of the same product: two
/// accepted declarations with the same name, package and binaries, whichever
/// way each binds its application socket.
pub proof fn law_releases_are_accepted(
    installed: ManagedProductOptions,
    release: ManagedProductOptions,
)
    requires
        installed.accepted(),
        release.accepted(),
        installed.product@ == release.product@,
        installed.package@ == release.package@,
        declared_binaries(installed.system_binaries@) == declared_binaries(
            release.system_binaries@,
        ),
        unit_files_fit(release),
    ensures
        release_accepted(installed, product_manifest(release), release.version@),
{
    let m = product_manifest(release);
    lemma_product_files_accepted(release);
    lemma_product_units(release);
    lemma_product_binaries(release);
    assert(m.files[0] == binary_file(release.system_binaries@[0]));
    let units = product_units(release);
    let present = present_units(m.files);
    assert(units.contains(service_name(release.product@))) by {
        assert(units[units.len() - 1] == service_name(release.product@));
    }
    assert(units.contains(management_socket_name(release.product@))) by {
        assert(units[units.len() - 2] == management_socket_name(release.product@));
    }
    assert forall|u: Seq<char>| present.contains(u) implies allowed_units(
        release.product@,
    ).contains(u) by {
        assert(units.to_set().contains(u));
    }
}

/// A product's own manifest is a valid one of the product, and the product
/// accepts it as one of its own version.
pub proof fn law_own_manifest_is_accepted(o: ManagedProductOptions)
    requires
        o.accepted(),
        unit_files_fit(o),
    ensures
        product_manifest(o).accepted(o.product@),
        release_accepted(o, product_manifest(o), o.version@),
{
    law_releases_are_accepted(o, o);
}

} // verus!
