//! What releases, registries and redeploy jobs keep to.

use vstd::prelude::*;

use super::job::{
    admit_release, bounded_detail, reconcile, schedule_against, still_stopped,
    validate_private_root_file, validate_root_directory, validate_transition, within_start_grace,
    ActiveJob, JobError, JobPaths, OwnerFacts, Reconciliation, RedeployAuthorization,
    RedeployRequest, Scheduling,
};
use super::product::ManagedProduct;
use super::protocol::{lemma_hex_injective, JobId, JobPhase, RedeployJob};
use super::release::{
    has_control, is_control, registry_name_char, CargoConfiguration, CargoRegistry,
    ConfigurationError, ReleaseValidationError, ResolvedRelease,
};
use crate::config_text::{table_of, toml_text, ConfigView};
use crate::duration::Duration;
use crate::text;
use crate::unix_path;
use crate::unix_path::path;

verus! {

// ---------------------------------------------------------------------------
// Registries and releases
// ---------------------------------------------------------------------------

/// Whether an address is one of HTTPS, without control characters.
pub open spec fn is_https(url: Seq<char>) -> bool {
    &&& "https://"@.is_prefix_of(url)
    &&& forall|i: int| 0 <= i < url.len() ==> (#[trigger] url[i]) as u32 >= 32 && url[i] as u32 != 127
}

/// Whether a private registry can be used: it has a plain name, its index is
/// reached over HTTPS, its token is something that can be sent, and its
/// certificates look like certificates.
pub open spec fn is_usable(
    name: Seq<char>,
    index: Seq<char>,
    token: Seq<char>,
    ca_pem: Seq<char>,
) -> bool {
    let url = if "sparse+"@.is_prefix_of(index) {
        index.skip(7)
    } else {
        index
    };
    &&& name.len() > 0
    &&& forall|i: int|
        0 <= i < name.len() ==> ('a' <= #[trigger] name[i] <= 'z') || ('0' <= name[i] <= '9')
            || name[i] == '-' || name[i] == '_'
    &&& is_https(url)
    &&& exists|i: int| 0 <= i < token.len() && !text::is_white(#[trigger] token[i])
    &&& text::utf8_len(token) <= 16 * 1024
    &&& forall|i: int| 0 <= i < token.len() ==> #[trigger] token[i] != '\0'
    &&& text::utf8_len(ca_pem) <= 1024 * 1024
    &&& text::occurs(ca_pem, "-----BEGIN CERTIFICATE-----"@)
    &&& text::occurs(ca_pem, "-----END CERTIFICATE-----"@)
}

proof fn lemma_not_blank(s: Seq<char>)
    ensures
        text::trimmed(s).len() > 0 <==> exists|i: int|
            0 <= i < s.len() && !text::is_white(#[trigger] s[i]),
{
    let p = |c: char| text::is_white(c);
    if exists|i: int| 0 <= i < s.len() && !text::is_white(#[trigger] s[i]) {
        lemma_trim_front_keeps(s, p);
        let t = text::trim_front(s, p);
        lemma_trim_back_keeps(t, p);
    } else {
        lemma_trim_front_all(s, p);
    }
}

proof fn lemma_trim_front_keeps(s: Seq<char>, p: spec_fn(char) -> bool)
    requires
        exists|i: int| 0 <= i < s.len() && !p(#[trigger] s[i]),
    ensures
        text::trim_front(s, p).len() > 0,
        !p(text::trim_front(s, p)[0]),
    decreases s.len(),
{
    if s.len() > 0 && p(s[0]) {
        let i = choose|i: int| 0 <= i < s.len() && !p(#[trigger] s[i]);
        assert(s.skip(1)[i - 1] == s[i]);
        lemma_trim_front_keeps(s.skip(1), p);
    }
}

proof fn lemma_trim_back_keeps(s: Seq<char>, p: spec_fn(char) -> bool)
    requires
        s.len() > 0,
        !p(s[0]),
    ensures
        text::trim_back(s, p).len() > 0,
    decreases s.len(),
{
    if p(s.last()) {
        lemma_trim_back_keeps(s.drop_last(), p);
    }
}

proof fn lemma_trim_front_all(s: Seq<char>, p: spec_fn(char) -> bool)
    requires
        forall|i: int| 0 <= i < s.len() ==> p(#[trigger] s[i]),
    ensures
        text::trim_front(s, p).len() == 0,
    decreases s.len(),
{
    if s.len() > 0 {
        let tail = s.skip(1);
        assert forall|i: int| 0 <= i < tail.len() implies p(#[trigger] tail[i]) by {
            assert(p(s[i + 1]));
        }
        lemma_trim_front_all(tail, p);
        assert(p(s[0]));
    }
}

/// A registry is accepted exactly where it can be used: the public one always, a
/// private one where its parts are in order.
pub proof fn law_a_registry_is_accepted_where_it_can_be_used(
    registry: CargoRegistry,
    r: Result<(), ReleaseValidationError>,
)
    requires
        call_ensures(CargoRegistry::validate, (&registry,), r),
    ensures
        r is Ok <==> match registry {
            CargoRegistry::CratesIo => true,
            CargoRegistry::Private { name, index, token, ca_pem } => is_usable(
                name@,
                index@,
                token@,
                ca_pem@,
            ),
        },
{
    if let CargoRegistry::Private { name, index, token, ca_pem } = registry {
        reveal_strlit("sparse+");
        lemma_not_blank(token@);
        let url = super::release::index_url(index@);
        assert(super::release::registry_name_ok(name@) <==> name@.len() > 0 && (forall|i: int|
            0 <= i < name@.len() ==> ('a' <= #[trigger] name@[i] <= 'z') || ('0' <= name@[i] <= '9')
                || name@[i] == '-' || name@[i] == '_')) by {
            if super::release::registry_name_ok(name@) {
                assert forall|i: int| 0 <= i < name@.len() implies ('a' <= #[trigger] name@[i]
                    <= 'z') || ('0' <= name@[i] <= '9') || name@[i] == '-' || name@[i] == '_' by {
                    assert(registry_name_char(name@[i]));
                }
            }
        }
        assert(has_control(url) <==> !(forall|i: int|
            0 <= i < url.len() ==> (#[trigger] url[i]) as u32 >= 32 && url[i] as u32 != 127)) by {
            if has_control(url) {
                let i = choose|i: int| 0 <= i < url.len() && is_control(#[trigger] url[i]);
                assert(!(url[i] as u32 >= 32 && url[i] as u32 != 127));
            } else {
                assert forall|i: int| 0 <= i < url.len() implies (#[trigger] url[i]) as u32 >= 32
                    && url[i] as u32 != 127 by {
                    assert(!is_control(url[i]));
                }
            }
        }
        assert(super::release::registry_index_ok(index@) <==> is_https(url));
        assert(token@.contains('\0') <==> !(forall|i: int|
            0 <= i < token@.len() ==> #[trigger] token@[i] != '\0'));
    }
}

/// A release is accepted exactly where its version has no pre-release and no build
/// text and its registry can be used.
pub proof fn law_only_stable_releases_are_accepted(
    release: ResolvedRelease,
    r: Result<(), ReleaseValidationError>,
    registry: Result<(), ReleaseValidationError>,
)
    requires
        call_ensures(ResolvedRelease::validate, (&release,), r),
        call_ensures(CargoRegistry::validate, (&release.registry,), registry),
    ensures
        r is Ok <==> release.version.pre@.len() == 0 && release.version.build@.len() == 0
            && registry is Ok,
{
}

/// What a table has under a key.
pub open spec fn under(view: ConfigView, key: Seq<char>) -> Option<ConfigView> {
    match view {
        ConfigView::Table(entries) => if entries.dom().contains(key) {
            Some(entries[key])
        } else {
            None
        },
        _ => None,
    }
}

/// What a table has under three keys, one within the other.
pub open spec fn under_three(
    table: Map<Seq<char>, ConfigView>,
    a: Seq<char>,
    b: Seq<char>,
    c: Seq<char>,
) -> Option<ConfigView> {
    match under(ConfigView::Table(table), a) {
        Some(x) => match under(x, b) {
            Some(y) => under(y, c),
            None => None,
        },
        None => None,
    }
}

/// What a table has under two keys, one within the other.
pub open spec fn under_two(table: Map<Seq<char>, ConfigView>, a: Seq<char>, b: Seq<char>) -> Option<
    ConfigView,
> {
    match under(ConfigView::Table(table), a) {
        Some(x) => under(x, b),
        None => None,
    }
}

proof fn lemma_single(key: Seq<char>, value: ConfigView)
    ensures
        under(super::release::single(key, value), key) == Some(value),
        forall|other: Seq<char>|
            other != key ==> under(super::release::single(key, value), other) is None,
{
    let entries = seq![(key, value)];
    assert(entries.drop_last() =~= Seq::empty());
    reveal_with_fuel(table_of, 2);
}

/// Cargo's configuration of a private registry names the registry's index, has its
/// token taken from the credentials and its certificates from the given path; the
/// credentials hold the token, and the certificates are handed on as they are.
/// The public registry gets neither.
pub proof fn law_cargo_is_configured_for_the_registry(
    registry: CargoRegistry,
    ca_path: &str,
    r: Result<CargoConfiguration<'_>, ConfigurationError>,
)
    requires
        call_ensures(CargoRegistry::configuration, (&registry, ca_path), r),
    ensures
        r matches Ok(c) ==> exists|config: Map<Seq<char>, ConfigView>|
            {
                &&& #[trigger] toml_text(config) == Some(c.config@)
                &&& under_two(config, "net"@, "retry"@) == Some(ConfigView::Integer(2))
                &&& match registry {
                    CargoRegistry::CratesIo => c.credentials is None && c.ca_pem is None && under(
                        ConfigView::Table(config),
                        "registries"@,
                    ) is None,
                    CargoRegistry::Private { name, index, token, ca_pem } => {
                        &&& under_three(config, "registries"@, name@, "index"@) == Some(
                            ConfigView::Text(index@),
                        )
                        &&& under_three(config, "registries"@, name@, "credential-provider"@)
                            == Some(ConfigView::Text("cargo:token"@))
                        &&& under_two(config, "registry"@, "global-credential-providers"@) == Some(
                            ConfigView::List(seq![ConfigView::Text("cargo:token"@)]),
                        )
                        &&& under_two(config, "http"@, "cainfo"@) == Some(
                            ConfigView::Text(ca_path@),
                        )
                        &&& c.ca_pem matches Some(pem) && pem@ == ca_pem@
                        &&& exists|secret: Map<Seq<char>, ConfigView>|
                            {
                                &&& #[trigger] toml_text(secret) == text::opt(c.credentials)
                                &&& c.credentials is Some
                                &&& under_three(secret, "registries"@, name@, "token"@) == Some(
                                    ConfigView::Text(token@),
                                )
                            }
                    },
                }
            },
{
    if let Ok(c) = r {
        let entries = registry.config_entries(ca_path@);
        let config = table_of(entries);
        reveal_strlit("net");
        reveal_strlit("registries");
        reveal_strlit("registry");
        reveal_strlit("http");
        reveal_strlit("index");
        reveal_strlit("credential-provider");
        assert("net"@.len() == 3 && "registries"@.len() == 10 && "registry"@.len() == 8
            && "http"@.len() == 4 && "index"@.len() == 5 && "credential-provider"@.len() == 19);
        lemma_single("retry"@, ConfigView::Integer(2));
        assert(toml_text(config) == Some(c.config@));
        match registry {
            CargoRegistry::CratesIo => {
                assert(entries.drop_last() =~= Seq::empty());
                reveal_with_fuel(table_of, 2);
            },
            CargoRegistry::Private { name, index, token, ca_pem } => {
                let inner = seq![
                    ("index"@, ConfigView::Text(index@)),
                    ("credential-provider"@, ConfigView::Text("cargo:token"@)),
                ];
                let i1 = inner.drop_last();
                assert(i1.drop_last() =~= Seq::empty());
                reveal_with_fuel(table_of, 5);
                let e3 = entries.drop_last();
                let e2 = e3.drop_last();
                let e1 = e2.drop_last();
                assert(e1.drop_last() =~= Seq::empty());
                assert(e3.last() == entries[2] && e2.last() == entries[1] && e1.last()
                    == entries[0]);
                assert(i1.last() == inner[0]);
                let table = ConfigView::Table(table_of(inner));
                assert(under(table, "index"@) == Some(ConfigView::Text(index@)));
                assert(under(table, "credential-provider"@) == Some(
                    ConfigView::Text("cargo:token"@),
                ));
                lemma_single(name@, table);
                lemma_single(
                    "global-credential-providers"@,
                    ConfigView::List(seq![ConfigView::Text("cargo:token"@)]),
                );
                lemma_single("cainfo"@, ConfigView::Text(ca_path@));
                let held = super::release::credentials_entry(name@, token@);
                let secret = table_of(seq![held]);
                assert(seq![held].drop_last() =~= Seq::empty());
                lemma_single("token"@, ConfigView::Text(token@));
                lemma_single(
                    name@,
                    super::release::single("token"@, ConfigView::Text(token@)),
                );
                assert(toml_text(secret) == text::opt(c.credentials));
            },
        }
    }
}

/// Whoever is not root may install only a release that does not come before the
/// installed version; root may install any. Between two releases the numbers
/// decide.
pub proof fn law_only_root_goes_back(
    authorization: RedeployAuthorization,
    product: ManagedProduct,
    release: ResolvedRelease,
    r: Result<(), JobError>,
)
    requires
        call_ensures(
            RedeployAuthorization::validate_release,
            (&authorization, &product, &release),
            r,
        ),
        release.version@.is_stable(),
        product@.version@.is_stable(),
    ensures
        ({
            let new = release.version;
            let old = product@.version;
            r is Ok <==> authorization.root || new.major > old.major || (new.major == old.major && (
            new.minor > old.minor || (new.minor == old.minor && new.patch >= old.patch)))
        }),
{
}

/// A release is admitted exactly where it is acceptable in itself and the caller
/// may install it.
pub proof fn law_a_release_is_admitted_by_both_checks(
    authorization: RedeployAuthorization,
    product: ManagedProduct,
    release: ResolvedRelease,
    r: Result<(), JobError>,
    itself: Result<(), ReleaseValidationError>,
    caller: Result<(), JobError>,
)
    requires
        call_ensures(admit_release, (&authorization, &product, &release), r),
        call_ensures(ResolvedRelease::validate, (&release,), itself),
        call_ensures(
            RedeployAuthorization::validate_release,
            (&authorization, &product, &release),
            caller,
        ),
    ensures
        r is Ok <==> itself is Ok && caller is Ok,
{
}

/// A request is accepted exactly where it is for the product and its release can
/// be accepted.
pub proof fn law_a_request_is_for_its_product(
    request: RedeployRequest,
    product: ManagedProduct,
    r: Result<(), JobError>,
    release: Result<(), ReleaseValidationError>,
)
    requires
        call_ensures(RedeployRequest::validate, (&request, &product), r),
        call_ensures(ResolvedRelease::validate, (&request.release,), release),
    ensures
        r is Ok <==> request.product@ == product@.product@ && request.package@ == product@.package@
            && release is Ok,
{
}

// ---------------------------------------------------------------------------
// Jobs
// ---------------------------------------------------------------------------

/// The phases of a job that does not fail, in their order.
pub open spec fn course() -> Seq<JobPhase> {
    seq![
        JobPhase::Queued,
        JobPhase::Preparing,
        JobPhase::Toolchain,
        JobPhase::Resolving,
        JobPhase::Building,
        JobPhase::Validating,
        JobPhase::Staging,
        JobPhase::CommittingSystem,
        JobPhase::RestartingAgent,
        JobPhase::ReinstallingUser,
        JobPhase::Complete,
    ]
}

/// A job moves only forward on its course, or to failure from wherever it is, and
/// never away from its end.
pub proof fn law_a_job_moves_forward_or_fails(
    i: int,
    next: JobPhase,
    r: Result<(), JobError>,
    failed: JobPhase,
    from_failed: Result<(), JobError>,
)
    requires
        0 <= i < course().len(),
        call_ensures(validate_transition, (&course()[i], &next), r),
        failed is Failed,
        call_ensures(validate_transition, (&failed, &next), from_failed),
    ensures
        r is Ok <==> i < 10 && (next is Failed || exists|j: int|
            i < j < course().len() && #[trigger] course()[j] == next),
        from_failed is Err,
{
    let phases = course();
    assert(phases[0] is Queued && phases[1] is Preparing && phases[2] is Toolchain && phases[3]
        is Resolving && phases[4] is Building && phases[5] is Validating && phases[6] is Staging
        && phases[7] is CommittingSystem && phases[8] is RestartingAgent && phases[9]
        is ReinstallingUser && phases[10] is Complete);
    assert(super::job::rank(phases[i]) == i);
    if !(next is Failed) {
        let k = super::job::rank(next);
        assert(phases[k] == next);
        assert forall|j: int| 0 <= j < phases.len() && phases[j] == next implies j == k by {
            assert(super::job::rank(phases[j]) == j);
        }
    }
}

/// The public detail of a job is the detail itself where it has at most 2048
/// characters, and else its beginning with an ellipsis, 2048 characters in all.
pub proof fn law_a_detail_is_kept_or_cut(detail: String, out: String)
    requires
        call_ensures(bounded_detail, (detail,), out),
    ensures
        detail@.len() <= 2048 ==> out@ == detail@,
        detail@.len() > 2048 ==> out@.len() == 2048 && out@.last() == '\u{2026}'
            && out@.drop_last().is_prefix_of(detail@),
{
    if detail@.len() > 2048 {
        assert(out@.drop_last() =~= detail@.take(2047));
    }
}

/// A state file is trusted exactly where it is a regular file of root's that
/// neither its group nor anyone else may read, write or run; a directory exactly
/// where it is a real one of root's.
pub proof fn law_state_is_trusted_only_from_root(
    name: String,
    facts: OwnerFacts,
    file: Result<(), JobError>,
    directory: Result<(), JobError>,
)
    requires
        call_ensures(validate_private_root_file, (&name, &facts), file),
        call_ensures(validate_root_directory, (&name, &facts), directory),
    ensures
        file is Ok <==> facts.regular && facts.uid == 0 && facts.gid == 0 && facts.mode % 64 == 0,
        directory is Ok <==> facts.directory && facts.uid == 0 && facts.gid == 0,
{
    let mode: u32 = facts.mode;
    assert(mode & 0o077 == mode % 64) by (bit_vector);
}

/// The secret request of a job is kept where a restart loses it, and its public
/// state where a restart keeps it, each under the job's name in the directory of
/// the product; no two jobs share a file.
pub proof fn law_a_job_has_files_of_its_own(
    product: &str,
    paths: JobPaths,
    a: JobId,
    b: JobId,
    status_a: String,
    status_b: String,
    request_a: String,
    request_b: String,
    diagnostic_a: String,
)
    requires
        call_ensures(JobPaths::new, (product,), paths),
        super::acceptance::is_name(product@),
        call_ensures(JobPaths::status, (&paths, &a), status_a),
        call_ensures(JobPaths::status, (&paths, &b), status_b),
        call_ensures(JobPaths::request, (&paths, &a), request_a),
        call_ensures(JobPaths::request, (&paths, &b), request_b),
        call_ensures(JobPaths::diagnostic, (&paths, &a), diagnostic_a),
    ensures
        status_a@ == "/var/lib/capulus/jobs/"@ + product@ + "/"@ + text::hex(a@) + ".json"@,
        request_a@ == "/run/capulus/jobs/"@ + product@ + "/"@ + text::hex(a@) + ".cbor"@,
        diagnostic_a@ == "/var/lib/capulus/jobs/"@ + product@ + "/"@ + text::hex(a@)
            + ".diagnostic"@,
        status_a@ == status_b@ ==> a@ == b@,
        request_a@ == request_b@ ==> a@ == b@,
{
    reveal_strlit("/var/lib/capulus/jobs");
    reveal_strlit("/var/lib/capulus/jobs/");
    reveal_strlit("/run/capulus/jobs");
    reveal_strlit("/run/capulus/jobs/");
    reveal_strlit("/");
    reveal_strlit(".json");
    reveal_strlit(".cbor");
    reveal_strlit(".diagnostic");
    let p = product@;
    let last = p[p.len() - 1];
    assert(('a' <= last <= 'z') || ('0' <= last <= '9') || last == '-' || last == '_');
    lemma_job_file("/var/lib/capulus/jobs"@, p, a, ".json"@);
    lemma_job_file("/var/lib/capulus/jobs"@, p, b, ".json"@);
    lemma_job_file("/var/lib/capulus/jobs"@, p, a, ".diagnostic"@);
    lemma_job_file("/run/capulus/jobs"@, p, a, ".cbor"@);
    lemma_job_file("/run/capulus/jobs"@, p, b, ".cbor"@);
    let v = "/var/lib/capulus/jobs"@.push('/') + p;
    let w = "/run/capulus/jobs"@.push('/') + p;
    assert(v.push('/') + (text::hex(a@) + ".json"@) =~= "/var/lib/capulus/jobs/"@ + p + "/"@
        + text::hex(a@) + ".json"@);
    assert(v.push('/') + (text::hex(a@) + ".diagnostic"@) =~= "/var/lib/capulus/jobs/"@ + p + "/"@
        + text::hex(a@) + ".diagnostic"@);
    assert(w.push('/') + (text::hex(a@) + ".cbor"@) =~= "/run/capulus/jobs/"@ + p + "/"@
        + text::hex(a@) + ".cbor"@);
    if status_a@ == status_b@ {
        lemma_middle(v.push('/'), text::hex(a@), text::hex(b@), ".json"@);
        lemma_hex_injective(a@, b@);
    }
    if request_a@ == request_b@ {
        lemma_middle(w.push('/'), text::hex(a@), text::hex(b@), ".cbor"@);
        lemma_hex_injective(a@, b@);
    }
}

proof fn lemma_middle(a: Seq<char>, b: Seq<char>, c: Seq<char>, d: Seq<char>)
    requires
        a + (b + d) == a + (c + d),
    ensures
        b == c,
{
    let x = a + (b + d);
    let y = a + (c + d);
    assert(x.len() == y.len());
    assert(b =~= x.subrange(a.len() as int, a.len() as int + b.len()));
    assert(c =~= y.subrange(a.len() as int, a.len() as int + c.len()));
}

proof fn lemma_job_file(root: Seq<char>, product: Seq<char>, job: JobId, ending: Seq<char>)
    requires
        root.len() > 0,
        root.last() != '/',
        product.len() > 0,
        product[0] != '/',
        product.last() != '/',
        ending.len() > 0 && ending[0] == '.',
    ensures
        super::job::job_file(unix_path::joined(root, product), job, ending) == (root.push('/')
            + product).push('/') + (text::hex(job@) + ending),
{
    text::lemma_hex_len(job@);
    let name = text::hex(job@) + ending;
    if text::hex(job@).len() > 0 {
        assert(text::is_lower_hex(text::hex(job@)[0]));
        assert(name[0] == text::hex(job@)[0]);
    } else {
        assert(name[0] == '.');
    }
    assert((root.push('/') + product).last() == product.last());
}

/// A job that has ended is cleared. One that has not is kept while its unit runs,
/// or while it is still queued and so young that the unit may not have appeared;
/// else it has failed, and it is failed only where a second look finds the same
/// job still not ended.
pub proof fn law_only_a_job_without_a_unit_is_failed(
    phase: JobPhase,
    runs: bool,
    age: Option<Duration>,
    young: bool,
    r: Reconciliation,
    first: JobId,
    current: Option<JobId>,
    later: JobPhase,
    again: bool,
)
    requires
        call_ensures(within_start_grace, (&age,), young),
        call_ensures(reconcile, (phase, runs, young), r),
        call_ensures(still_stopped, (&first, &current, later), again),
    ensures
        r is Clear <==> phase is Complete || phase is Failed,
        r is Fail ==> !runs,
        phase is Queued && age is Some && age->0@ < 5_000_000_000 ==> r is Keep,
        r is Fail <==> !(phase is Complete) && !(phase is Failed) && !runs && !(phase is Queued
            && age is Some && age->0@ < 5_000_000_000),
        again <==> current is Some && current->0@ == first@ && !(later is Complete) && !(later
            is Failed),
{
}

/// A request joins the active job exactly where that has not ended and is for the
/// same version and the same user; it starts a job of its own exactly where none
/// is active or the active one has ended; else it is turned away.
pub proof fn law_a_request_joins_only_its_like(
    active: ActiveJob,
    status: RedeployJob,
    release: ResolvedRelease,
    authorization: RedeployAuthorization,
    r: Result<Scheduling, JobError>,
    alone: Result<Scheduling, JobError>,
)
    requires
        call_ensures(
            schedule_against,
            (Some((active, status)), &release, &authorization),
            r,
        ),
        call_ensures(schedule_against, (None, &release, &authorization), alone),
    ensures
        alone matches Ok(Scheduling::Start),
        ({
            let ended = status.phase is Complete || status.phase is Failed;
            let user = match authorization.required_user {
                Some(context) => Some(context.uid),
                None => None,
            };
            let alike = active.version@ == release.version@ && active.required_uid == user;
            &&& ended <==> (r matches Ok(Scheduling::Replace(job)) && job == active.job)
            &&& !ended && alike <==> (r matches Ok(Scheduling::Share(outcome)) && outcome.job
                == active.job && outcome.unit == status.unit && !outcome.started)
            &&& !ended && !alike <==> r is Err
        }),
{
}

} // verus!
