//! What the checks of declarations and manifests let through.

use vstd::prelude::*;

use super::journal::{
    InstallationJournal, InstallationRecord, JournalError, UninstallationJournal,
};
use super::manifest::{
    file_ok, file_paths, present_units, unit_directory, unit_in, InstallationManifest, ManagedFile,
};
use super::product::{
    application_socket_name, binary_ok, cargo_names, destinations, hardening_path_ok,
    management_socket_name, service_name, unit_path, unsafe_text, unsafe_unit_char, ManagedProduct,
    ManagedProductOptions, ProductValidationError, ServiceHardening, SocketOptions, SystemBinary,
};
use super::protocol::JobId;
use crate::search::{first_failing, lemma_first_failing, lemma_none_failing};
use crate::text;
use crate::text::texts;
use crate::unix_path;
use crate::unix_path::{path, PathView};
use crate::version::Version;

verus! {

/// Whether a text is a name: a lower-case ASCII letter, and up to sixty-three
/// such letters, digits, hyphens and underscores behind it.
pub open spec fn is_name(s: Seq<char>) -> bool {
    &&& 0 < s.len() <= 64
    &&& 'a' <= s[0] <= 'z'
    &&& forall|i: int|
        0 <= i < s.len() ==> ('a' <= #[trigger] s[i] <= 'z') || ('0' <= s[i] <= '9') || s[i] == '-'
            || s[i] == '_'
}

/// Whether a text can be written to a unit file: it has no control character and
/// no percent sign.
pub open spec fn is_unit_text(s: Seq<char>) -> bool {
    forall|i: int|
        0 <= i < s.len() ==> (#[trigger] s[i]) as u32 >= 32 && s[i] as u32 != 127 && s[i] != '%'
}

/// Whether a path starts at the root and never goes up.
pub open spec fn is_straight(p: PathView) -> bool {
    &&& p.absolute
    &&& forall|i: int| 0 <= i < p.parts.len() ==> #[trigger] p.parts[i] != seq!['.', '.']
}

/// Whether a path has the parts of a directory and the name behind them.
pub open spec fn is_entry(p: PathView, directory: Seq<char>, name: Seq<char>) -> bool {
    p.parts == path(directory).parts.push(name)
}

/// Whether a path is a directory or stands beneath it.
pub open spec fn is_within(p: Seq<char>, directory: Seq<char>) -> bool {
    path(directory).parts.is_prefix_of(path(p).parts)
}

/// Whether binaries are declared in order: each has a name of its own and stands
/// under it in `/usr/local/bin`.
pub open spec fn binaries_in_order(binaries: Seq<SystemBinary>) -> bool {
    &&& binaries.len() > 0
    &&& forall|i: int|
        0 <= i < binaries.len() ==> {
            let p = path((#[trigger] binaries[i]).destination@);
            &&& is_name(binaries[i].cargo_name@)
            &&& is_straight(p)
            &&& is_entry(p, "/usr/local/bin"@, binaries[i].cargo_name@)
        }
    &&& forall|i: int, j: int|
        0 <= i < j < binaries.len() ==> (#[trigger] binaries[i]).cargo_name@ != (
        #[trigger] binaries[j]).cargo_name@
}

/// Whether a confined service may be given paths.
pub open spec fn paths_in_order(product: Seq<char>, paths: Seq<String>) -> bool {
    forall|i: int|
        0 <= i < paths.len() ==> {
            let p = (#[trigger] paths[i])@;
            &&& is_straight(path(p))
            &&& is_unit_text(p)
            &&& is_within(p, "/var/lib/"@ + product) || is_within(p, "/run/"@ + product)
                || is_within(p, "/dev/"@)
        }
}

/// Whether a socket stands at its place with a group that can be named.
pub open spec fn socket_in_order(socket: SocketOptions, place: Seq<char>) -> bool {
    &&& is_straight(path(socket.path@))
    &&& path(socket.path@) == path(place)
    &&& socket.group matches Some(group) ==> is_name(group@)
}

proof fn lemma_name(s: Seq<char>)
    ensures
        super::product::identifier(s) == is_name(s),
{
    if super::product::identifier(s) {
        assert forall|i: int| 0 <= i < s.len() implies ('a' <= #[trigger] s[i] <= 'z') || ('0'
            <= s[i] <= '9') || s[i] == '-' || s[i] == '_' by {
            assert(super::product::identifier_char(s[i]));
        }
    }
    if is_name(s) {
        assert forall|i: int| 0 <= i < s.len() implies super::product::identifier_char(
            #[trigger] s[i],
        ) by {}
    }
}

proof fn lemma_unit_text(s: Seq<char>)
    ensures
        unsafe_text(s) == !is_unit_text(s),
{
    if !is_unit_text(s) {
        let i = choose|i: int|
            0 <= i < s.len() && !((#[trigger] s[i]) as u32 >= 32 && s[i] as u32 != 127 && s[i]
                != '%');
        assert(unsafe_unit_char(s[i]));
    }
}

proof fn lemma_straight(p: PathView)
    ensures
        unix_path::is_plain(p) == is_straight(p),
{
    if p.absolute && p.parts.contains(unix_path::dot_dot()) {
        let i = choose|i: int| 0 <= i < p.parts.len() && p.parts[i] == unix_path::dot_dot();
        assert(p.parts[i] == seq!['.', '.']);
    }
    if p.absolute && !is_straight(p) {
        let i = choose|i: int| 0 <= i < p.parts.len() && #[trigger] p.parts[i] == seq!['.', '.'];
        assert(p.parts.contains(unix_path::dot_dot()));
    }
}

/// A path in a directory under a name has the directory's parts and the name.
proof fn lemma_entry(p: Seq<char>, directory: Seq<char>, name: Seq<char>)
    requires
        is_name(name),
        unix_path::absolute(directory),
        unix_path::absolute(p),
    ensures
        (unix_path::parent(path(p)) == Some(path(directory)) && unix_path::file_name(path(p))
            == Some(name)) == is_entry(path(p), directory, name),
{
    let parts = path(p).parts;
    assert(name != unix_path::dot()) by {
        assert(unix_path::dot()[0] == '.');
    }
    assert(name != unix_path::dot_dot()) by {
        assert(unix_path::dot_dot()[0] == '.');
    }
    if is_entry(path(p), directory, name) {
        assert(parts.drop_last() =~= path(directory).parts);
        assert(unix_path::parent(path(p)) =~= Some(path(directory)));
    }
    if unix_path::parent(path(p)) == Some(path(directory)) && unix_path::file_name(path(p)) == Some(
        name,
    ) {
        assert(parts =~= parts.drop_last().push(parts.last()));
    }
}

proof fn lemma_binaries(binaries: Seq<SystemBinary>)
    ensures
        (binaries.len() > 0 && super::product::first_bad_binary(binaries) == binaries.len())
            == binaries_in_order(binaries),
{
    reveal_strlit("/usr/local/bin");
    let ok = |i: int| binary_ok(binaries, i);
    lemma_none_failing(ok, binaries.len(), 0);
    let n = first_failing(ok, binaries.len(), 0);
    assert forall|i: int| 0 <= i < binaries.len() implies {
        let b = #[trigger] binaries[i];
        let p = path(b.destination@);
        (is_name(b.cargo_name@) && is_straight(p) && is_entry(p, "/usr/local/bin"@, b.cargo_name@))
            == (super::product::identifier(b.cargo_name@) && unix_path::is_plain(p)
            && unix_path::parent(p) == Some(path("/usr/local/bin"@)) && unix_path::file_name(p)
            == Some(b.cargo_name@))
    } by {
        let b = binaries[i];
        lemma_name(b.cargo_name@);
        lemma_straight(path(b.destination@));
        if is_name(b.cargo_name@) && unix_path::absolute(b.destination@) {
            lemma_entry(b.destination@, "/usr/local/bin"@, b.cargo_name@);
        }
    }
    if n == binaries.len() {
        assert forall|i: int, j: int| 0 <= i < j < binaries.len() implies (
        #[trigger] binaries[i]).cargo_name@ != (#[trigger] binaries[j]).cargo_name@ by {
            assert(ok(j));
            assert(cargo_names(binaries).take(j)[i] == binaries[i].cargo_name@);
        }
        assert forall|i: int| 0 <= i < binaries.len() implies {
            let p = path((#[trigger] binaries[i]).destination@);
            &&& is_name(binaries[i].cargo_name@)
            &&& is_straight(p)
            &&& is_entry(p, "/usr/local/bin"@, binaries[i].cargo_name@)
        } by {
            assert(ok(i));
        }
    }
    if binaries_in_order(binaries) {
        assert forall|i: int| 0 <= i < binaries.len() implies #[trigger] ok(i) by {
            let b = binaries[i];
            if cargo_names(binaries).take(i).contains(b.cargo_name@) {
                let k = choose|k: int|
                    0 <= k < cargo_names(binaries).take(i).len() && cargo_names(binaries).take(i)[k]
                        == b.cargo_name@;
                assert(binaries[k].cargo_name@ == b.cargo_name@);
            }
            if destinations(binaries).take(i).contains(path(b.destination@)) {
                let k = choose|k: int|
                    0 <= k < destinations(binaries).take(i).len() && destinations(binaries).take(
                        i,
                    )[k] == path(b.destination@);
                assert(path(binaries[k].destination@) == path(b.destination@));
                assert(path(binaries[k].destination@).parts.last() == binaries[k].cargo_name@);
                assert(path(b.destination@).parts.last() == b.cargo_name@);
            }
        }
        lemma_first_failing(ok, binaries.len(), 0, binaries.len() as int);
    }
}

proof fn lemma_paths(product: Seq<char>, paths: Seq<String>)
    requires
        super::product::identifier(product),
    ensures
        (super::product::first_bad_path(product, paths) == paths.len()) == paths_in_order(
            product,
            paths,
        ),
{
    reveal_strlit("/var/lib/");
    reveal_strlit("/run/");
    reveal_strlit("/dev/");
    let ok = |i: int| hardening_path_ok(product, paths[i]@);
    lemma_none_failing(ok, paths.len(), 0);
    assert(unix_path::absolute("/var/lib/"@ + product));
    assert(unix_path::absolute("/run/"@ + product));
    assert(unix_path::absolute("/dev/"@));
    assert forall|i: int| 0 <= i < paths.len() implies (#[trigger] ok(i) == {
        let p = paths[i]@;
        &&& is_straight(path(p))
        &&& is_unit_text(p)
        &&& is_within(p, "/var/lib/"@ + product) || is_within(p, "/run/"@ + product) || is_within(
            p,
            "/dev/"@,
        )
    }) by {
        lemma_straight(path(paths[i]@));
        lemma_unit_text(paths[i]@);
    }
    if first_failing(ok, paths.len(), 0) == paths.len() {
        assert forall|i: int| 0 <= i < paths.len() implies {
            let p = (#[trigger] paths[i])@;
            &&& is_straight(path(p))
            &&& is_unit_text(p)
            &&& is_within(p, "/var/lib/"@ + product) || is_within(p, "/run/"@ + product)
                || is_within(p, "/dev/"@)
        } by {
            assert(ok(i));
        }
    }
    if paths_in_order(product, paths) {
        assert forall|i: int| 0 <= i < paths.len() implies #[trigger] ok(i) by {
            assert(is_straight(path(paths[i]@)));
        }
        lemma_first_failing(ok, paths.len(), 0, paths.len() as int);
    }
}

/// Whether a declaration can be managed: its names, binaries, texts, times,
/// modes, paths and sockets are in order.
pub open spec fn manageable(o: ManagedProductOptions) -> bool {
    let second = 1_000_000_000int;
    let application = o.application_socket.socket();
    let management = o.management_socket;
    &&& is_name(o.product@)
    &&& is_name(o.package@)
    &&& binaries_in_order(o.system_binaries@)
    &&& exists|i: int|
        0 <= i < o.system_binaries@.len() && (#[trigger] o.system_binaries@[i]).cargo_name@
            == o.user_binary.cargo_name@
    &&& exists|i: int|
        0 <= i < o.system_binaries@.len() && path((#[trigger] o.system_binaries@[i]).destination@)
            == path(o.agent_binary@)
    &&& exists|i: int|
        0 <= i < o.system_binaries@.len() && path((#[trigger] o.system_binaries@[i]).destination@)
            == path(o.service.executable@)
    &&& 60 * second <= o.redeploy.build_timeout@ <= 86_400 * second
    &&& 16 <= o.redeploy.maximum_tasks <= 32_768
    &&& o.service.description@.len() > 0 && is_unit_text(o.service.description@)
    &&& forall|i: int|
        0 <= i < o.service.arguments@.len() ==> is_unit_text((#[trigger] o.service.arguments@[i])@)
    &&& second <= o.service.restart_delay@ <= 3_600 * second
    &&& o.service.restart_delay@ as int % second == 0
    &&& o.service.state_directory_mode <= 0o777 && o.service.state_directory_mode & 0o700 == 0o700
    &&& o.service.hardening matches ServiceHardening::Strict { read_write_paths, device_allow }
        ==> paths_in_order(o.product@, read_write_paths@) && paths_in_order(
        o.product@,
        device_allow@,
    )
    &&& socket_in_order(application, "/run/"@ + o.product@ + "/agent.sock"@)
    &&& socket_in_order(management, "/run/"@ + o.product@ + "/capulus.sock"@)
    &&& application.mode <= 0o777
    &&& management.mode == 0o600 || (management.mode == 0o660 && management.group is Some)
}

proof fn lemma_socket_places(product: Seq<char>)
    requires
        is_name(product),
    ensures
        super::product::socket_path(product, "application"@) == "/run/"@ + product
            + "/agent.sock"@,
        super::product::socket_path(product, "capulus"@) == "/run/"@ + product + "/capulus.sock"@,
        path("/run/"@ + product + "/agent.sock"@) != path("/run/"@ + product + "/capulus.sock"@),
{
    reveal_strlit("/run");
    reveal_strlit("/run/");
    reveal_strlit("agent.sock");
    reveal_strlit("/agent.sock");
    reveal_strlit("capulus.sock");
    reveal_strlit("/capulus.sock");
    reveal_strlit("application");
    reveal_strlit("capulus");
    assert("application"@.len() != "capulus"@.len());
    let d = "/run"@.push('/') + product;
    assert(unix_path::joined("/run"@, product) == d);
    assert(d.last() == product.last());
    assert(('a' <= product[product.len() - 1] <= 'z') || ('0' <= product[product.len() - 1] <= '9')
        || product[product.len() - 1] == '-' || product[product.len() - 1] == '_');
    assert(d.push('/') + "agent.sock"@ =~= "/run/"@ + product + "/agent.sock"@);
    assert(d.push('/') + "capulus.sock"@ =~= "/run/"@ + product + "/capulus.sock"@);
    assert(!"agent.sock"@.contains('/'));
    assert(!"capulus.sock"@.contains('/'));
    unix_path::lemma_join_name(d, "agent.sock"@);
    unix_path::lemma_join_name(d, "capulus.sock"@);
    assert(path(unix_path::joined(d, "agent.sock"@)).parts.last() == "agent.sock"@);
    assert(path(unix_path::joined(d, "capulus.sock"@)).parts.last() == "capulus.sock"@);
    assert("agent.sock"@.len() != "capulus.sock"@.len());
}

/// A declaration is accepted exactly where it can be managed, and the product is
/// then what was declared.
pub proof fn law_a_product_is_accepted_where_it_can_be_managed(
    options: ManagedProductOptions,
    r: Result<ManagedProduct, ProductValidationError>,
)
    requires
        call_ensures(ManagedProductOptions::validate, (options,), r),
    ensures
        r is Ok <==> manageable(options),
        r matches Ok(product) ==> product@ == options,
{
    let o = options;
    lemma_name(o.product@);
    lemma_name(o.package@);
    lemma_binaries(o.system_binaries@);
    lemma_name(o.user_binary.cargo_name@);
    lemma_straight(path(o.agent_binary@));
    lemma_unit_text(o.service.description@);
    assert forall|i: int| 0 <= i < o.service.arguments@.len() implies unsafe_text(
        (#[trigger] o.service.arguments@[i])@,
    ) == !is_unit_text(o.service.arguments@[i]@) by {
        lemma_unit_text(o.service.arguments@[i]@);
    }
    let names = cargo_names(o.system_binaries@);
    let places = destinations(o.system_binaries@);
    assert(names.contains(o.user_binary.cargo_name@) <==> exists|i: int|
        0 <= i < o.system_binaries@.len() && (#[trigger] o.system_binaries@[i]).cargo_name@
            == o.user_binary.cargo_name@) by {
        if names.contains(o.user_binary.cargo_name@) {
            let i = choose|i: int| 0 <= i < names.len() && names[i] == o.user_binary.cargo_name@;
            assert(o.system_binaries@[i].cargo_name@ == o.user_binary.cargo_name@);
        }
        if exists|i: int|
            0 <= i < o.system_binaries@.len() && (#[trigger] o.system_binaries@[i]).cargo_name@
                == o.user_binary.cargo_name@ {
            let i = choose|i: int|
                0 <= i < o.system_binaries@.len() && (#[trigger] o.system_binaries@[i]).cargo_name@
                    == o.user_binary.cargo_name@;
            assert(names[i] == o.user_binary.cargo_name@);
        }
    }
    lemma_destination(o.system_binaries@, o.agent_binary@);
    lemma_destination(o.system_binaries@, o.service.executable@);
    if is_name(o.product@) {
        lemma_socket_places(o.product@);
        if let ServiceHardening::Strict { read_write_paths, device_allow } = o.service.hardening {
            lemma_paths(o.product@, read_write_paths@);
            lemma_paths(o.product@, device_allow@);
        }
        reveal_strlit("application");
        reveal_strlit("capulus");
        assert("application"@.len() != "capulus"@.len());
    }
    lemma_straight(path(o.application_socket.socket().path@));
    lemma_straight(path(o.management_socket.path@));
    if let Some(group) = o.application_socket.socket().group {
        lemma_name(group@);
    }
    if let Some(group) = o.management_socket.group {
        lemma_name(group@);
    }
    if manageable(o) {
        let i = choose|i: int|
            0 <= i < o.system_binaries@.len() && (#[trigger] o.system_binaries@[i]).cargo_name@
                == o.user_binary.cargo_name@;
        assert(is_name(o.system_binaries@[i].cargo_name@));
        let k = choose|k: int|
            0 <= k < o.system_binaries@.len() && path(
                (#[trigger] o.system_binaries@[k]).destination@,
            ) == path(o.agent_binary@);
        assert(is_straight(path(o.system_binaries@[k].destination@)));
    }
}

proof fn lemma_destination(binaries: Seq<SystemBinary>, p: Seq<char>)
    ensures
        destinations(binaries).contains(path(p)) == exists|i: int|
            0 <= i < binaries.len() && path((#[trigger] binaries[i]).destination@) == path(p),
{
    let places = destinations(binaries);
    if places.contains(path(p)) {
        let i = choose|i: int| 0 <= i < places.len() && places[i] == path(p);
        assert(path(binaries[i].destination@) == path(p));
    }
    if exists|i: int| 0 <= i < binaries.len() && path((#[trigger] binaries[i]).destination@) == path(
        p,
    ) {
        let i = choose|i: int|
            0 <= i < binaries.len() && path((#[trigger] binaries[i]).destination@) == path(p);
        assert(places[i] == path(p));
    }
}

// ---------------------------------------------------------------------------
// Manifests
// ---------------------------------------------------------------------------

/// Whether the file of a manifest stands where a product's files may: a binary
/// under its own name in `/usr/local/bin`, a unit of the product, of bounded
/// size and without NUL, in `/etc/systemd/system`; nobody but root may write it.
pub open spec fn file_in_order(product: Seq<char>, file: ManagedFile) -> bool {
    match file {
        ManagedFile::Binary { source_name, destination, mode } => {
            &&& is_name(source_name@)
            &&& is_straight(path(destination@))
            &&& is_entry(path(destination@), "/usr/local/bin"@, source_name@)
            &&& mode == 0o644 || mode == 0o755
        },
        ManagedFile::Text { destination, contents, mode } => {
            let p = path(destination@);
            &&& is_straight(p)
            &&& p.parts.len() == path("/etc/systemd/system"@).parts.len() + 1
            &&& path("/etc/systemd/system"@).parts.is_prefix_of(p.parts)
            &&& is_unit_of(product, p.parts.last())
            &&& text::utf8_len(contents@) <= 131_072
            &&& forall|i: int| 0 <= i < contents@.len() ==> #[trigger] contents@[i] != '\0'
            &&& mode == 0o644 || mode == 0o755
        },
    }
}

/// Whether a name is one of a service or socket unit of a product.
pub open spec fn is_unit_of(product: Seq<char>, unit: Seq<char>) -> bool {
    &&& (product + "-"@).is_prefix_of(unit)
    &&& ".service"@.is_suffix_of(unit) || ".socket"@.is_suffix_of(unit)
}

/// The path of a managed file.
pub open spec fn place_of(file: ManagedFile) -> PathView {
    match file {
        ManagedFile::Binary { destination, .. } => path(destination@),
        ManagedFile::Text { destination, .. } => path(destination@),
    }
}

/// Whether a manifest can be installed for a product: its names and files are in
/// order, no two files share a path, there is a binary, and each unit that it
/// enables is one of the product whose file it has.
pub open spec fn installable(m: InstallationManifest, product: Seq<char>) -> bool {
    &&& m.schema_major == 1
    &&& m.product@ == product
    &&& is_name(product)
    &&& is_name(m.package@)
    &&& forall|i: int| 0 <= i < m.files@.len() ==> file_in_order(product, #[trigger] m.files@[i])
    &&& forall|i: int, j: int|
        0 <= i < j < m.files@.len() ==> place_of(#[trigger] m.files@[i]) != place_of(
            #[trigger] m.files@[j],
        )
    &&& exists|i: int| 0 <= i < m.files@.len() && (#[trigger] m.files@[i]) is Binary
    &&& forall|k: int|
        0 <= k < m.enable_units@.len() ==> {
            let unit = (#[trigger] m.enable_units@[k])@;
            &&& is_unit_of(product, unit)
            &&& exists|i: int|
                0 <= i < m.files@.len() && place_of(#[trigger] m.files@[i]) == path(unit_path(unit))
        }
}

proof fn lemma_file(product: Seq<char>, file: ManagedFile)
    ensures
        file_ok(product, file@) == file_in_order(product, file),
        place_of(file) == path(file@.destination()),
{
    reveal_strlit("/usr/local/bin");
    reveal_strlit("/etc/systemd/system");
    match file {
        ManagedFile::Binary { source_name, destination, mode } => {
            lemma_name(source_name@);
            lemma_straight(path(destination@));
            if is_name(source_name@) && unix_path::absolute(destination@) {
                lemma_entry(destination@, "/usr/local/bin"@, source_name@);
            }
        },
        ManagedFile::Text { destination, contents, mode } => {
            let p = path(destination@);
            let d = path("/etc/systemd/system"@);
            lemma_straight(p);
            if is_straight(p) {
                if unix_path::parent(p) == Some(unit_directory()) {
                    assert(p.parts.drop_last() == d.parts);
                    assert(d.parts =~= p.parts.take(d.parts.len() as int));
                }
                if p.parts.len() == d.parts.len() + 1 && d.parts.is_prefix_of(p.parts) {
                    assert(p.parts.drop_last() =~= d.parts);
                    assert(unix_path::parent(p) =~= Some(unit_directory()));
                }
                if p.parts.len() > 0 && is_unit_of(product, p.parts.last()) {
                    let name = p.parts.last();
                    reveal_strlit("-");
                    reveal_strlit(".service");
                    reveal_strlit(".socket");
                    assert(name.len() >= 7);
                    assert(name != unix_path::dot() && name != unix_path::dot_dot());
                }
            }
            assert(contents@.contains('\0') <==> exists|i: int|
                0 <= i < contents@.len() && #[trigger] contents@[i] == '\0');
        },
    }
}

/// A manifest is accepted exactly where it can be installed for the product.
pub proof fn law_a_manifest_is_accepted_where_it_can_be_installed(
    m: InstallationManifest,
    product: &str,
    r: Result<(), ProductValidationError>,
)
    requires
        call_ensures(InstallationManifest::validate, (&m, product), r),
    ensures
        r is Ok <==> installable(m, product@),
{
    let v = m@;
    let files = m.files@;
    lemma_name(m.product@);
    lemma_name(m.package@);
    let fp = |i: int| v.file_accepted(i);
    let up = |i: int| v.unit_accepted(i);
    lemma_none_failing(fp, v.files.len(), 0);
    lemma_none_failing(up, v.enable_units.len(), 0);
    let paths = file_paths(v.files);
    assert forall|i: int| 0 <= i < files.len() implies v.files[i] == files[i]@ && paths[i]
        == place_of(#[trigger] files[i]) && file_ok(m.product@, v.files[i]) == file_in_order(
        m.product@,
        files[i],
    ) && (v.files[i] is Binary <==> files[i] is Binary) by {
        lemma_file(m.product@, files[i]);
    }
    if r is Ok {
        assert forall|i: int| 0 <= i < files.len() implies file_in_order(
            product@,
            #[trigger] files[i],
        ) by {
            assert(fp(i));
        }
        assert forall|i: int, j: int| 0 <= i < j < files.len() implies place_of(#[trigger] files[i])
            != place_of(#[trigger] files[j]) by {
            assert(fp(j));
            assert(paths.take(j)[i] == paths[i]);
        }
        let b = choose|b: int| 0 <= b < v.files.len() && (#[trigger] v.files[b]) is Binary;
        assert(files[b] is Binary);
        assert forall|k: int| 0 <= k < m.enable_units@.len() implies {
            let unit = (#[trigger] m.enable_units@[k])@;
            &&& is_unit_of(product@, unit)
            &&& exists|i: int|
                0 <= i < files.len() && place_of(#[trigger] files[i]) == path(unit_path(unit))
        } by {
            assert(up(k));
            let unit = m.enable_units@[k]@;
            assert(v.enable_units[k] == unit);
            let i = choose|i: int| 0 <= i < paths.len() && paths[i] == path(unit_path(unit));
            assert(place_of(files[i]) == path(unit_path(unit)));
        }
    }
    if installable(m, product@) {
        assert forall|i: int| 0 <= i < v.files.len() implies #[trigger] fp(i) by {
            assert(file_in_order(product@, files[i]));
            if paths.take(i).contains(path(v.files[i].destination())) {
                let k = choose|k: int|
                    0 <= k < paths.take(i).len() && paths.take(i)[k] == path(
                        v.files[i].destination(),
                    );
                assert(place_of(files[k]) == place_of(files[i]));
            }
        }
        lemma_first_failing(fp, v.files.len(), 0, v.files.len() as int);
        let b = choose|b: int| 0 <= b < files.len() && (#[trigger] files[b]) is Binary;
        assert(v.files[b] is Binary);
        assert forall|k: int| 0 <= k < v.enable_units.len() implies #[trigger] up(k) by {
            let unit = m.enable_units@[k]@;
            assert(v.enable_units[k] == unit);
            let i = choose|i: int|
                0 <= i < files.len() && place_of(#[trigger] files[i]) == path(unit_path(unit));
            assert(paths[i] == path(unit_path(unit)));
        }
        lemma_first_failing(up, v.enable_units.len(), 0, v.enable_units.len() as int);
    }
}

/// Whether a manifest has the file of a unit.
pub open spec fn has_unit(m: InstallationManifest, unit: Seq<char>) -> bool {
    exists|i: int|
        0 <= i < m.files@.len() && (#[trigger] m.files@[i]) is Text && place_of(
            m.files@[i],
        ).parts.last() == unit
}

/// Whether a file is no binary, or an executable one of the declared binaries at
/// its place.
pub open spec fn replaces_declared(file: ManagedFile, binaries: Seq<SystemBinary>) -> bool {
    file matches ManagedFile::Binary { source_name, mode, .. } ==> mode == 0o755 && exists|k: int|
        0 <= k < binaries.len() && (#[trigger] binaries[k]).cargo_name@ == source_name@ && path(
            binaries[k].destination@,
        ) == place_of(file)
}

/// Whether a declared binary is among files.
pub open spec fn is_replaced(binary: SystemBinary, files: Seq<ManagedFile>) -> bool {
    exists|i: int|
        0 <= i < files.len() && (#[trigger] files[i]) is Binary && place_of(files[i]) == path(
            binary.destination@,
        )
}

proof fn lemma_release_binaries(m: InstallationManifest, binaries: Seq<SystemBinary>)
    requires
        super::manifest::manifest_binaries(m@.files) == super::manifest::declared_binaries(
            binaries,
        ),
    ensures
        forall|i: int|
            0 <= i < m.files@.len() ==> replaces_declared(#[trigger] m.files@[i], binaries),
        forall|k: int| 0 <= k < binaries.len() ==> is_replaced(#[trigger] binaries[k], m.files@),
{
    let v = m@;
    let files = m.files@;
    assert forall|i: int| 0 <= i < files.len() implies replaces_declared(
        #[trigger] files[i],
        binaries,
    ) by {
        if let ManagedFile::Binary { source_name, destination, mode } = files[i] {
            let key = (source_name@, path(destination@), mode);
            assert(v.files[i] == files[i]@);
            assert(super::manifest::binary_key(v.files[i]) == Some(key));
            assert(super::manifest::manifest_binaries(v.files).contains(key));
            assert(super::manifest::declared_binaries(binaries).contains(key));
            let k = choose|k: int|
                0 <= k < binaries.len() && super::manifest::declared_key(#[trigger] binaries[k])
                    == key;
            assert(binaries[k].cargo_name@ == source_name@);
        }
    }
    assert forall|k: int| 0 <= k < binaries.len() implies is_replaced(
        #[trigger] binaries[k],
        files,
    ) by {
        let key = super::manifest::declared_key(binaries[k]);
        assert(super::manifest::declared_binaries(binaries).contains(key));
        assert(super::manifest::manifest_binaries(v.files).contains(key));
        let i = choose|i: int|
            0 <= i < v.files.len() && super::manifest::binary_key(#[trigger] v.files[i]) == Some(
                key,
            );
        assert(v.files[i] == files[i]@);
        assert(files[i] is Binary);
    }
}

proof fn lemma_has_unit(m: InstallationManifest, name: Seq<char>, u: Seq<char>)
    requires
        installable(m, name),
    ensures
        has_unit(m, u) <==> present_units(m@.files).contains(u),
{
    let v = m@;
    let files = m.files@;
    if has_unit(m, u) {
        let i = choose|i: int|
            0 <= i < files.len() && (#[trigger] files[i]) is Text && place_of(files[i]).parts.last()
                == u;
        assert(file_in_order(name, files[i]));
        lemma_unit_in(name, files[i]);
        assert(v.files[i] == files[i]@);
        assert(unit_in(v.files[i]) == Some(u));
    }
    if present_units(v.files).contains(u) {
        let i = choose|i: int| 0 <= i < v.files.len() && unit_in(#[trigger] v.files[i]) == Some(u);
        assert(v.files[i] == files[i]@);
        assert(files[i] is Text);
    }
}

/// The manifest of a release that a product accepts can be installed for it, is of
/// the same package and of the expected version, replaces exactly the product's
/// binaries at their places, and brings and enables the service, the management
/// socket, perhaps the application socket and nothing else.
pub proof fn law_a_release_stays_within_its_product(
    product: ManagedProduct,
    m: InstallationManifest,
    version: Version,
    r: Result<(), ProductValidationError>,
)
    requires
        call_ensures(ManagedProduct::validate_release_manifest, (&product, &m, &version), r),
        r is Ok,
    ensures
        installable(m, product@.product@),
        m.package@ == product@.package@,
        m.version@ == version@,
        forall|i: int|
            0 <= i < m.files@.len() ==> replaces_declared(
                #[trigger] m.files@[i],
                product@.system_binaries@,
            ),
        forall|k: int|
            0 <= k < product@.system_binaries@.len() ==> is_replaced(
                #[trigger] product@.system_binaries@[k],
                m.files@,
            ),
        has_unit(m, service_name(product@.product@)),
        has_unit(m, management_socket_name(product@.product@)),
        forall|u: Seq<char>|
            #[trigger] has_unit(m, u) ==> u == service_name(product@.product@) || u
                == management_socket_name(product@.product@) || u == application_socket_name(
                product@.product@,
            ),
        forall|u: Seq<char>|
            #[trigger] has_unit(m, u) <==> texts(m.enable_units@).contains(u),
{
    let o = product@;
    let files = m.files@;
    let v = m@;
    let name = o.product@;
    lemma_accepted_installable(m, name);
    lemma_release_binaries(m, o.system_binaries@);
    assert forall|u: Seq<char>| #[trigger] has_unit(m, u) <==> present_units(v.files).contains(u) by {
        lemma_has_unit(m, name, u);
    }
    assert forall|u: Seq<char>| #[trigger] has_unit(m, u) <==> texts(m.enable_units@).contains(
        u,
    ) by {
        assert(v.enable_units.to_set().contains(u) <==> v.enable_units.contains(u));
    }
}

proof fn lemma_unit_in(product: Seq<char>, file: ManagedFile)
    requires
        file_in_order(product, file),
        file is Text,
    ensures
        unit_in(file@) == Some(place_of(file).parts.last()),
{
    lemma_file(product, file);
}

proof fn lemma_accepted_installable(m: InstallationManifest, product: Seq<char>)
    requires
        m@.accepted(product),
    ensures
        installable(m, product),
{
    let v = m@;
    let files = m.files@;
    lemma_name(m.product@);
    lemma_name(m.package@);
    let fp = |i: int| v.file_accepted(i);
    let up = |i: int| v.unit_accepted(i);
    lemma_none_failing(fp, v.files.len(), 0);
    lemma_none_failing(up, v.enable_units.len(), 0);
    let paths = file_paths(v.files);
    assert forall|i: int| 0 <= i < files.len() implies file_in_order(product, #[trigger] files[i])
        && paths[i] == place_of(files[i]) by {
        lemma_file(m.product@, files[i]);
        assert(fp(i));
        assert(v.files[i] == files[i]@);
    }
    assert forall|i: int, j: int| 0 <= i < j < files.len() implies place_of(#[trigger] files[i])
        != place_of(#[trigger] files[j]) by {
        assert(fp(j));
        assert(v.files[j] == files[j]@);
        lemma_file(m.product@, files[j]);
        assert(paths.take(j)[i] == paths[i]);
    }
    let b = choose|b: int| 0 <= b < v.files.len() && (#[trigger] v.files[b]) is Binary;
    assert(v.files[b] == files[b]@);
    assert(files[b] is Binary);
    assert forall|k: int| 0 <= k < m.enable_units@.len() implies {
        let unit = (#[trigger] m.enable_units@[k])@;
        &&& is_unit_of(product, unit)
        &&& exists|i: int|
            0 <= i < files.len() && place_of(#[trigger] files[i]) == path(unit_path(unit))
    } by {
        assert(up(k));
        let unit = m.enable_units@[k]@;
        assert(v.enable_units[k] == unit);
        let i = choose|i: int| 0 <= i < paths.len() && paths[i] == path(unit_path(unit));
        assert(place_of(files[i]) == path(unit_path(unit)));
    }
}

/// Whether a manifest writes a unit file with the contents.
pub open spec fn writes_unit(m: InstallationManifest, unit: Seq<char>, contents: Seq<char>) -> bool {
    exists|i: int|
        0 <= i < m.files@.len() && (#[trigger] m.files@[i] matches ManagedFile::Text {
            destination,
            contents: written,
            mode,
        } && destination@ == "/etc/systemd/system/"@ + unit && written@ == contents && mode
            == 0o644)
}

/// The manifest of a product installs each declared binary, executable, at its
/// place, and the units of its service and its sockets with their contents; it
/// brings the application socket only where systemd listens on it, and enables
/// every unit that it brings.
pub proof fn law_a_product_installs_what_it_declares(
    product: ManagedProduct,
    m: InstallationManifest,
    service: String,
    management: String,
    application: String,
)
    requires
        call_ensures(ManagedProduct::installation_manifest, (&product,), m),
        call_ensures(ManagedProduct::service_unit_contents, (&product,), service),
        call_ensures(
            ManagedProduct::socket_unit_contents,
            (&product, "capulus", &product@.management_socket),
            management,
        ),
        call_ensures(
            ManagedProduct::socket_unit_contents,
            (&product, "application", &product@.application_socket.socket()),
            application,
        ),
        product@.accepted(),
    ensures
        m.schema_major == 1,
        m.product@ == product@.product@,
        m.package@ == product@.package@,
        m.version@ == product@.version@,
        forall|k: int|
            0 <= k < product@.system_binaries@.len() ==> (m.files@[k] matches ManagedFile::Binary {
                source_name,
                destination,
                mode,
            } && source_name@ == (#[trigger] product@.system_binaries@[k]).cargo_name@
                && destination@ == product@.system_binaries@[k].destination@ && mode == 0o755),
        writes_unit(m, product@.product@ + "-agent.service"@, service@),
        writes_unit(m, product@.product@ + "-capulus.socket"@, management@),
        ({
            let activated = product@.application_socket is SystemdActivated;
            let units = texts(m.enable_units@);
            &&& activated ==> writes_unit(m, product@.product@ + "-agent.socket"@, application@)
            &&& m.files@.len() == product@.system_binaries@.len() + if activated {
                3int
            } else {
                2int
            }
            &&& units.contains(product@.product@ + "-agent.service"@)
            &&& units.contains(product@.product@ + "-capulus.socket"@)
            &&& units.contains(product@.product@ + "-agent.socket"@) <==> activated
            &&& units.len() == if activated {
                3int
            } else {
                2int
            }
        }),
{
    let o = product@;
    let n = o.system_binaries@.len() as int;
    let v = m@;
    let files = m.files@;
    reveal_strlit("/etc/systemd/system");
    reveal_strlit("/etc/systemd/system/");
    reveal_strlit("-agent.service");
    reveal_strlit("-capulus.socket");
    reveal_strlit("-agent.socket");
    assert(v.files == super::manifest::product_files(o));
    assert forall|i: int| 0 <= i < files.len() implies v.files[i] == (#[trigger] files[i])@ by {}
    assert forall|k: int| 0 <= k < n implies (files[k] matches ManagedFile::Binary {
        source_name,
        destination,
        mode,
    } && source_name@ == (#[trigger] o.system_binaries@[k]).cargo_name@ && destination@
        == o.system_binaries@[k].destination@ && mode == 0o755) by {
        assert(v.files[k] == super::manifest::binary_file(o.system_binaries@[k]));
        assert(v.files[k] == files[k]@);
    }
    let p = o.product@;
    lemma_unit_place(p, "-agent.service"@);
    lemma_unit_place(p, "-capulus.socket"@);
    lemma_unit_place(p, "-agent.socket"@);
    assert(v.files[n] == files[n]@);
    assert(v.files[n + 1] == files[n + 1]@);
    let units = texts(m.enable_units@);
    assert(units == v.enable_units);
    let s = p + "-agent.service"@;
    let g = p + "-capulus.socket"@;
    let a = p + "-agent.socket"@;
    assert(s.len() == p.len() + 14 && g.len() == p.len() + 15 && a.len() == p.len() + 13);
    if o.application_socket is SystemdActivated {
        assert(v.files[n + 2] == files[n + 2]@);
        assert(units[0] == a && units[1] == g && units[2] == s);
    } else {
        assert(units[0] == g && units[1] == s);
    }
}

proof fn lemma_unit_place(product: Seq<char>, ending: Seq<char>)
    requires
        product.len() > 0 ==> product[0] != '/',
        ending.len() > 0 && ending[0] == '-',
    ensures
        unit_path(product + ending) == "/etc/systemd/system/"@ + (product + ending),
{
    reveal_strlit("/etc/systemd/system");
    reveal_strlit("/etc/systemd/system/");
    let name = product + ending;
    assert("/etc/systemd/system"@.push('/') =~= "/etc/systemd/system/"@);
    assert(name[0] != '/');
}

// ---------------------------------------------------------------------------
// Journals
// ---------------------------------------------------------------------------

/// Whether a text is a SHA-256 digest: sixty-four hexadecimal digits.
pub open spec fn is_sha256(s: Seq<char>) -> bool {
    &&& s.len() == 64
    &&& forall|i: int|
        0 <= i < s.len() ==> ('0' <= #[trigger] s[i] <= '9') || ('a' <= s[i] <= 'f') || ('A' <= s[i]
            <= 'F')
}

/// Whether a path is in a directory that stands beside another path: that of the
/// given name, and in it the directory of the given kind, under the same name.
pub open spec fn is_kept_beside(
    kept: PathView,
    destination: PathView,
    directory: Seq<char>,
    kind: Seq<char>,
) -> bool {
    &&& kept.absolute == destination.absolute
    &&& kept.parts == destination.parts.drop_last() + path(directory).parts.push(kind).push(
        destination.parts.last(),
    )
}

/// Whether a path is one that a product's installation may write or remove: one of
/// its binaries, or one of its units.
pub open spec fn is_managed_place(product: Seq<char>, p: PathView) -> bool {
    &&& p.parts.len() > 0
    &&& p.parts.last() != seq!['.'] && p.parts.last() != seq!['.', '.']
    &&& {
        let name = p.parts.last();
        let directory = p.parts.drop_last();
        ||| directory == path("/usr/local/bin"@).parts && (name == product || (product
            + "-"@).is_prefix_of(name))
        ||| directory == path("/etc/systemd/system"@).parts && is_unit_of(product, name)
    }
}

/// Whether a record of an installation keeps to the product and to its job.
pub open spec fn record_in_order(
    product: Seq<char>,
    job: JobId,
    record: InstallationRecord,
) -> bool {
    let p = path(record.destination@);
    let beside = ".capulus-"@ + product + "-"@ + text::hex(job@);
    &&& is_straight(p)
    &&& is_managed_place(product, p)
    &&& is_kept_beside(path(record.staged@), p, beside, "new"@)
    &&& is_kept_beside(path(record.backup@), p, beside, "old"@)
    &&& record.new_digest matches Some(d) ==> is_sha256(d@)
    &&& record.original_digest matches Some(d) ==> is_sha256(d@)
}

/// Whether a journal of an installation can be acted on: it is the product's, its
/// progress is possible, its records keep to the product and to its job, no two
/// share a path, each unit that it enables is the product's and is written by it,
/// and it knows whether there was a service before.
pub open spec fn can_be_acted_on(j: InstallationJournal, product: Seq<char>) -> bool {
    let records = j.records@;
    let service = path(unit_path(product + "-agent.service"@));
    &&& j.product@ == product
    &&& 0 < records.len()
    &&& j.committed_records <= records.len()
    &&& j.accepted ==> j.committed_records == records.len()
    &&& records_in_order(j, product)
    &&& 0 < j.target_enable_units@.len()
    &&& units_in_order(j, product)
    &&& j.previous_service_file <==> exists|k: int|
        0 <= k < records.len() && path((#[trigger] records[k]).destination@) == service
            && records[k].original_digest is Some
}

proof fn lemma_digest(s: Seq<char>)
    ensures
        super::journal::is_digest(s) == is_sha256(s),
{
    if super::journal::is_digest(s) {
        assert forall|i: int| 0 <= i < s.len() implies ('0' <= #[trigger] s[i] <= '9') || ('a' <= s[i]
            <= 'f') || ('A' <= s[i] <= 'F') by {
            assert(super::journal::is_hex(s[i]));
        }
    }
    if is_sha256(s) {
        assert forall|i: int| 0 <= i < s.len() implies super::journal::is_hex(#[trigger] s[i]) by {}
    }
}

proof fn lemma_managed_place(product: Seq<char>, p: PathView)
    requires
        p.absolute,
    ensures
        super::journal::destination_ok(product, p) == is_managed_place(product, p),
{
    reveal_strlit("/usr/local/bin");
    reveal_strlit("/etc/systemd/system");
    super::manifest::lemma_directories_differ();
    if p.parts.len() > 0 {
        let a = path("/usr/local/bin"@);
        let b = path("/etc/systemd/system"@);
        let up = unix_path::parent(p)->0;
        assert((up == a) == (up.parts == a.parts)) by {
            if up.parts == a.parts {
                assert(up =~= a);
            }
        }
        assert((up == b) == (up.parts == b.parts)) by {
            if up.parts == b.parts {
                assert(up =~= b);
            }
        }
        assert(a != b);
        assert(a.absolute && b.absolute);
        assert(a.parts != b.parts) by {
            if a.parts == b.parts {
                assert(a =~= b);
            }
        }
    }
}

proof fn lemma_kept(kept: PathView, destination: PathView, stage: Seq<char>, kind: Seq<char>)
    ensures
        (kept == super::journal::staged_path(destination, stage, kind)) == is_kept_beside(
            kept,
            destination,
            stage,
            kind,
        ),
{
    let there = super::journal::staged_path(destination, stage, kind);
    assert(there.parts =~= destination.parts.drop_last() + path(stage).parts.push(kind).push(
        destination.parts.last(),
    ));
    if is_kept_beside(kept, destination, stage, kind) {
        assert(kept =~= there);
    }
}

proof fn lemma_record(product: Seq<char>, j: InstallationJournal, i: int)
    requires
        0 <= i < j.records@.len(),
    ensures
        j.record_ok(product, i) == (record_in_order(product, j.job, j.records@[i])
            && !super::journal::record_paths(j.records@).take(i).contains(
            path(j.records@[i].destination@),
        )),
{
    let record = j.records@[i];
    let p = path(record.destination@);
    let stage = super::journal::stage_name(product, j.job);
    lemma_straight(p);
    if p.absolute {
        lemma_managed_place(product, p);
    }
    lemma_kept(path(record.staged@), p, stage, "new"@);
    lemma_kept(path(record.backup@), p, stage, "old"@);
    if let Some(d) = record.new_digest {
        lemma_digest(d@);
    }
    if let Some(d) = record.original_digest {
        lemma_digest(d@);
    }
}

/// Whether the records keep to the product and to the job, each at a path of its
/// own.
pub open spec fn records_in_order(j: InstallationJournal, product: Seq<char>) -> bool {
    let records = j.records@;
    &&& forall|i: int|
        0 <= i < records.len() ==> record_in_order(product, j.job, #[trigger] records[i])
    &&& forall|i: int, k: int|
        0 <= i < k < records.len() ==> path((#[trigger] records[i]).destination@) != path(
            (#[trigger] records[k]).destination@,
        )
}

/// Whether the units that are enabled are the product's, each once, and each is
/// written by a record.
pub open spec fn units_in_order(j: InstallationJournal, product: Seq<char>) -> bool {
    let units = j.target_enable_units@;
    &&& forall|i: int, k: int|
        0 <= i < k < units.len() ==> (#[trigger] units[i])@ != (#[trigger] units[k])@
    &&& forall|i: int|
        0 <= i < units.len() ==> is_unit_of(product, (#[trigger] units[i])@) && is_written(
            j.records@,
            path(unit_path(units[i]@)),
        )
}

/// Whether a record puts a new file at a path.
pub open spec fn is_written(records: Seq<InstallationRecord>, p: PathView) -> bool {
    exists|k: int|
        0 <= k < records.len() && path((#[trigger] records[k]).destination@) == p
            && records[k].new_digest is Some
}

proof fn lemma_units_in_order(j: InstallationJournal, product: Seq<char>)
    ensures
        j.target_units_ok(product) == units_in_order(j, product),
{
    let units = j.target_enable_units@;
    let t = texts(units);
    assert forall|i: int| 0 <= i < units.len() implies t[i] == (#[trigger] units[i])@ by {}
    if j.target_units_ok(product) {
        assert forall|i: int, k: int| 0 <= i < k < units.len() implies (#[trigger] units[i])@ != (
        #[trigger] units[k])@ by {
            assert(t[i] != t[k]);
        }
        assert forall|i: int| 0 <= i < units.len() implies is_unit_of(
            product,
            (#[trigger] units[i])@,
        ) && is_written(j.records@, path(unit_path(units[i]@))) by {
            assert(super::journal::writes_path(j.records@, path(unit_path(units[i]@))));
        }
    }
    if units_in_order(j, product) {
        assert forall|i: int, k: int| 0 <= i < t.len() && 0 <= k < t.len() && i != k implies t[i]
            != t[k] by {
            if i < k {
                assert(units[i]@ != units[k]@);
            } else {
                assert(units[k]@ != units[i]@);
            }
        }
        assert(t.no_duplicates());
        assert forall|i: int| 0 <= i < units.len() implies ({
            let unit = (#[trigger] units[i])@;
            super::manifest::unit_name_ok(product, unit) && super::journal::writes_path(
                j.records@,
                path(unit_path(unit)),
            )
        }) by {
            assert(is_written(j.records@, path(unit_path(units[i]@))));
        }
    }
}

proof fn lemma_records_in_order(j: InstallationJournal, name: Seq<char>)
    ensures
        (j.first_bad_record(name) == j.records@.len()) == records_in_order(j, name),
{
    let records = j.records@;
    let ok = |i: int| j.record_ok(name, i);
    lemma_none_failing(ok, records.len(), 0);
    let paths = super::journal::record_paths(records);
    assert forall|i: int| 0 <= i < records.len() implies (#[trigger] ok(i) == (record_in_order(
        name,
        j.job,
        records[i],
    ) && !paths.take(i).contains(path(records[i].destination@)))) by {
        lemma_record(name, j, i);
    }
    if j.first_bad_record(name) == records.len() {
        assert forall|i: int| 0 <= i < records.len() implies record_in_order(
            name,
            j.job,
            #[trigger] records[i],
        ) by {
            assert(ok(i));
        }
        assert forall|i: int, k: int| 0 <= i < k < records.len() implies path(
            (#[trigger] records[i]).destination@,
        ) != path((#[trigger] records[k]).destination@) by {
            assert(ok(k));
            assert(paths.take(k)[i] == path(records[i].destination@));
        }
    }
    if records_in_order(j, name) {
        assert forall|i: int| 0 <= i < records.len() implies #[trigger] ok(i) by {
            assert(record_in_order(name, j.job, records[i]));
            if paths.take(i).contains(path(records[i].destination@)) {
                let k = choose|k: int|
                    0 <= k < paths.take(i).len() && paths.take(i)[k] == path(
                        records[i].destination@,
                    );
                assert(path(records[k].destination@) == path(records[i].destination@));
            }
        }
        lemma_first_failing(ok, records.len(), 0, records.len() as int);
    }
}

/// A journal of an installation is trusted exactly where it can be acted on.
pub proof fn law_a_journal_is_trusted_where_it_can_be_acted_on(
    j: InstallationJournal,
    product: &str,
    r: Result<(), JournalError>,
)
    requires
        call_ensures(InstallationJournal::validate, (&j, product), r),
    ensures
        r is Ok <==> can_be_acted_on(j, product@),
{
    lemma_units_in_order(j, product@);
    lemma_records_in_order(j, product@);
}

/// A journal of an uninstallation is trusted only where it is the product's, its
/// progress is possible, it is about exactly the files that the product installs,
/// each once, and it keeps what it removes beside its place in the directory of
/// its job.
pub proof fn law_a_removal_is_trusted_only_for_the_products_files(
    j: UninstallationJournal,
    product: ManagedProduct,
    manifest: InstallationManifest,
    r: Result<(), JournalError>,
)
    requires
        call_ensures(UninstallationJournal::validate, (&j, &product), r),
        call_ensures(ManagedProduct::installation_manifest, (&product,), manifest),
        r is Ok,
    ensures
        j.product@ == product@.product@,
        0 < j.records@.len(),
        j.committed_records <= j.records@.len(),
        j.removal_committed ==> j.committed_records == j.records@.len(),
        forall|i: int|
            0 <= i < j.records@.len() ==> {
                let record = #[trigger] j.records@[i];
                let p = path(record.destination@);
                &&& is_straight(p)
                &&& is_sha256(record.digest@)
                &&& is_kept_beside(
                    path(record.backup@),
                    p,
                    ".capulus-"@ + product@.product@ + "-uninstall-"@ + text::hex(j.job@),
                    "old"@,
                )
                &&& is_place_of(manifest, p)
            },
        forall|i: int, k: int|
            0 <= i < k < j.records@.len() ==> path((#[trigger] j.records@[i]).destination@) != path(
                (#[trigger] j.records@[k]).destination@,
            ),
        forall|k: int|
            0 <= k < manifest.files@.len() ==> removes(j, place_of(#[trigger] manifest.files@[k])),
{
    let name = product@.product@;
    let records = j.records@;
    let ok = |i: int| j.record_ok(name, i);
    lemma_none_failing(ok, records.len(), 0);
    let paths = super::journal::removed_paths(records);
    let there = file_paths(manifest@.files);
    assert(manifest@.files == super::manifest::product_files(product@));
    assert forall|i: int| 0 <= i < records.len() implies {
        let record = #[trigger] records[i];
        let p = path(record.destination@);
        &&& is_straight(p)
        &&& is_sha256(record.digest@)
        &&& is_kept_beside(
            path(record.backup@),
            p,
            ".capulus-"@ + name + "-uninstall-"@ + text::hex(j.job@),
            "old"@,
        )
        &&& is_place_of(manifest, p)
    } by {
        assert(ok(i));
        let p = path(records[i].destination@);
        lemma_straight(p);
        lemma_digest(records[i].digest@);
        lemma_kept(
            path(records[i].backup@),
            p,
            super::journal::uninstall_stage_name(name, j.job),
            "old"@,
        );
        assert(paths[i] == p);
        assert(paths.to_set().contains(p));
        assert(there.to_set().contains(p));
        let k = choose|k: int| 0 <= k < there.len() && there[k] == p;
        lemma_place(manifest, k);
        assert(place_of(manifest.files@[k]) == p);
    }
    assert forall|i: int, k: int| 0 <= i < k < records.len() implies path(
        (#[trigger] records[i]).destination@,
    ) != path((#[trigger] records[k]).destination@) by {
        assert(ok(k));
        assert(paths.take(k)[i] == path(records[i].destination@));
    }
    assert forall|k: int| 0 <= k < manifest.files@.len() implies removes(
        j,
        place_of(#[trigger] manifest.files@[k]),
    ) by {
        lemma_place(manifest, k);
        let p = place_of(manifest.files@[k]);
        assert(there[k] == p);
        assert(there.to_set().contains(p));
        assert(paths.to_set().contains(p));
        let i = choose|i: int| 0 <= i < paths.len() && paths[i] == p;
        assert(path(records[i].destination@) == p);
    }
}

/// Whether a manifest has a file at a path.
pub open spec fn is_place_of(m: InstallationManifest, p: PathView) -> bool {
    exists|k: int| 0 <= k < m.files@.len() && place_of(#[trigger] m.files@[k]) == p
}

/// Whether a journal removes a path.
pub open spec fn removes(j: UninstallationJournal, p: PathView) -> bool {
    exists|i: int| 0 <= i < j.records@.len() && path((#[trigger] j.records@[i]).destination@) == p
}

proof fn lemma_place(m: InstallationManifest, k: int)
    requires
        0 <= k < m.files@.len(),
    ensures
        file_paths(m@.files)[k] == place_of(m.files@[k]),
{
    assert(m@.files[k] == m.files@[k]@);
}

} // verus!
