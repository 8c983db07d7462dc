//! What holds of stored artifacts and of the builds of native dependencies.

use vstd::prelude::*;

use crate::artifact_store;
use crate::artifact_store::{
    ArtifactMetadata, ArtifactSummary, DirectoryAttempt, DirectoryNext, ResolveError, Selection,
    StoredArtifact,
};
use crate::process::CommandLine;
use crate::search::{first_failing, lemma_none_failing};
use crate::syntheon;
use crate::syntheon::{
    CacheDirBuilder, CacheFingerprint, CacheFingerprintBuilder, CmakeCapabilities, CmakeRunner,
    CmakeVersion, MakeRunner, NamedDirectory,
};
use crate::text;
use crate::text::texts;
use crate::unix_path;
use crate::unix_path::path;

verus! {

/// Artifacts are listed from the newest on: those of the current schema, all of
/// them and no others.
pub proof fn law_artifacts_are_listed_from_the_newest(
    list: Vec<StoredArtifact>,
    sorted: Vec<StoredArtifact>,
    j: int,
    k: int,
    i: int,
)
    requires
        call_ensures(artifact_store::sort_artifacts, (list,), sorted),
        0 <= j < k < sorted@.len(),
        0 <= i < list@.len(),
    ensures
        sorted@[j].metadata.created_at_epoch_ms >= sorted@[k].metadata.created_at_epoch_ms,
        list@.contains(sorted@[k]),
        list@.contains(sorted@[j]),
        sorted@[j].metadata.schema_version == 3,
        sorted@[k].metadata.schema_version == 3,
        list@[i].metadata.schema_version == 3 ==> sorted@.contains(list@[i]),
{
    let order = choose|order: Seq<int>|
        artifact_store::newest_first(list@, order) && artifact_store::picks(
            sorted@,
            list@,
            order,
        );
    assert(sorted@[j] == list@[order[j]]);
    assert(sorted@[k] == list@[order[k]]);
    assert(artifact_store::is_current(list@[order[j]]));
    assert(artifact_store::is_current(list@[order[k]]));
    if list@[i].metadata.schema_version == 3 {
        assert(artifact_store::is_current(list@[i]));
        assert(order.contains(i));
        let at = choose|at: int| 0 <= at < order.len() && order[at] == i;
        assert(sorted@[at] == list@[i]);
    }
}

proof fn lemma_selected(selection: Selection, list: Seq<StoredArtifact>, selector: Seq<char>)
    ensures
        ({
            let found = artifact_store::selected(selection, list, selector);
            &&& forall|k: int|
                0 <= k < found.len() ==> 0 <= #[trigger] found[k] < list.len()
                    && artifact_store::selects(selection, list[found[k]], selector)
            &&& forall|i: int|
                0 <= i < list.len() && artifact_store::selects(
                    selection,
                    #[trigger] list[i],
                    selector,
                ) ==> found.contains(i)
            &&& forall|j: int, k: int|
                #![trigger found[j], found[k]]
                0 <= j < k < found.len() ==> found[j] < found[k]
        }),
    decreases list.len(),
{
    if list.len() > 0 {
        let before = artifact_store::selected(selection, list.drop_last(), selector);
        lemma_selected(selection, list.drop_last(), selector);
        let found = artifact_store::selected(selection, list, selector);
        assert forall|i: int|
            0 <= i < list.len() && artifact_store::selects(
                selection,
                #[trigger] list[i],
                selector,
            ) implies found.contains(i) by {
            if i < list.len() - 1 {
                assert(list.drop_last()[i] == list[i]);
                assert(before.contains(i));
                let at = choose|at: int| 0 <= at < before.len() && before[at] == i;
                assert(found[at] == i);
            } else {
                assert(found[found.len() - 1] == i);
            }
        }
        assert forall|k: int| 0 <= k < found.len() implies 0 <= #[trigger] found[k] < list.len()
            && artifact_store::selects(selection, list[found[k]], selector) by {
            if k < before.len() {
                assert(before[k] == found[k]);
                assert(list.drop_last()[before[k]] == list[before[k]]);
            }
        }
        assert forall|j: int, k: int|
            #![trigger found[j], found[k]]
            0 <= j < k < found.len() implies found[j] < found[k] by {
            assert(before[j] == found[j]);
            if k < before.len() {
                assert(before[k] == found[k]);
            }
        }
    }
}

/// Whether an artifact has the given id, or one that begins so.
pub open spec fn begins_with(a: StoredArtifact, selector: Seq<char>) -> bool {
    selector.len() <= a.metadata.artifact_id@.len() && a.metadata.artifact_id@.take(
        selector.len() as int,
    ) == selector
}

/// A selector names the artifact with that id, else the only one whose id begins
/// so, else the only one of the crate of that name. Where it is blank, the first
/// artifact is meant.
pub proof fn law_a_selector_names_one_artifact(
    artifacts: Vec<StoredArtifact>,
    root: &str,
    tool: &str,
    selector: &str,
    r: Result<&StoredArtifact, ResolveError>,
    i: int,
    j: int,
)
    requires
        call_ensures(
            artifact_store::resolve_artifact,
            (&artifacts, root, tool, Some(selector)),
            r,
        ),
        0 <= i < artifacts@.len(),
        0 <= j < artifacts@.len(),
    ensures
        ({
            let s = text::trimmed(selector@);
            let list = artifacts@;
            let exact = exists|n: int|
                0 <= n < list.len() && (#[trigger] list[n]).metadata.artifact_id@ == s;
            let begun = exists|n: int| 0 <= n < list.len() && begins_with(#[trigger] list[n], s);
            &&& s.len() == 0 ==> r == Ok::<&StoredArtifact, ResolveError>(&list[0])
            &&& s.len() > 0 && r is Ok ==> list.contains(*r->Ok_0) && (begins_with(*r->Ok_0, s)
                || r->Ok_0.metadata.crate_name@ == s)
            &&& s.len() > 0 && exact ==> r is Ok && r->Ok_0.metadata.artifact_id@ == s
            &&& s.len() > 0 && !exact && begins_with(list[i], s) && (forall|n: int|
                0 <= n < list.len() && begins_with(#[trigger] list[n], s) ==> n == i) ==> r == Ok::<
                &StoredArtifact,
                ResolveError,
            >(&list[i])
            &&& s.len() > 0 && !exact && i != j && begins_with(list[i], s) && begins_with(list[j], s)
                ==> r is Err && r->Err_0 is AmbiguousArtifact
            &&& s.len() > 0 && !begun && list[i].metadata.crate_name@ == s && (forall|n: int|
                0 <= n < list.len() && (#[trigger] list[n]).metadata.crate_name@ == s ==> n == i)
                ==> r == Ok::<&StoredArtifact, ResolveError>(&list[i])
            &&& s.len() > 0 && !begun && i != j && list[i].metadata.crate_name@ == s
                && list[j].metadata.crate_name@ == s ==> r is Err && r->Err_0 is AmbiguousCrate
            &&& r is Err && r->Err_0 is NoMatch ==> !begins_with(list[i], s)
                && list[i].metadata.crate_name@ != s
            &&& !(r is Err && r->Err_0 is NoArtifacts)
        }),
{
    let s = text::trimmed(selector@);
    let list = artifacts@;
    lemma_selected(Selection::Id, list, s);
    lemma_selected(Selection::IdPrefix, list, s);
    lemma_selected(Selection::Crate, list, s);
    let exact = artifact_store::selected(Selection::Id, list, s);
    let prefixed = artifact_store::selected(Selection::IdPrefix, list, s);
    let of_crate = artifact_store::selected(Selection::Crate, list, s);
    assert forall|n: int| 0 <= n < list.len() implies (artifact_store::selects(
        Selection::IdPrefix,
        #[trigger] list[n],
        s,
    ) <==> begins_with(list[n], s)) by {
        let id = list[n].metadata.artifact_id@;
        if s.is_prefix_of(id) {
            assert(id.take(s.len() as int) =~= s);
        }
        if begins_with(list[n], s) {
            assert(s.is_prefix_of(id));
        }
    }
    assert forall|n: int|
        0 <= n < list.len() && (#[trigger] list[n]).metadata.artifact_id@ == s implies exact.contains(
        n,
    ) by {
        assert(artifact_store::selects(Selection::Id, list[n], s));
    }
    assert forall|n: int| 0 <= n < list.len() && begins_with(#[trigger] list[n], s) implies
        prefixed.contains(n) by {
        assert(artifact_store::selects(Selection::IdPrefix, list[n], s));
    }
    assert forall|n: int|
        0 <= n < list.len() && (#[trigger] list[n]).metadata.crate_name@ == s implies of_crate.contains(
        n,
    ) by {
        assert(artifact_store::selects(Selection::Crate, list[n], s));
    }
    if exact.len() > 0 {
        assert(artifact_store::selects(Selection::Id, list[exact[0]], s));
        let id = list[exact[0]].metadata.artifact_id@;
        assert(id.take(s.len() as int) =~= s);
    }
    if prefixed.len() > 0 {
        assert(artifact_store::selects(Selection::IdPrefix, list[prefixed[0]], s));
        assert(begins_with(list[prefixed[0]], s));
    }
    if prefixed.len() > 1 {
        assert(prefixed[0] < prefixed[1]);
        assert(begins_with(list[prefixed[1]], s));
    }
    if of_crate.len() > 0 {
        assert(artifact_store::selects(Selection::Crate, list[of_crate[0]], s));
    }
    if of_crate.len() > 1 {
        assert(of_crate[0] < of_crate[1]);
        assert(artifact_store::selects(Selection::Crate, list[of_crate[1]], s));
    }
    lemma_two(exact, i, j);
    lemma_two(prefixed, i, j);
    lemma_two(of_crate, i, j);
}

proof fn lemma_two(found: Seq<int>, i: int, j: int)
    ensures
        found.contains(i) ==> found.len() > 0,
        found.contains(i) && found.contains(j) && i != j ==> found.len() > 1,
        found.contains(i) && found.len() == 1 ==> found[0] == i,
{
}

/// What the labels of an image say of an artifact is what the artifact is.
pub proof fn law_labels_say_what_the_artifact_is(
    tool: &str,
    m: ArtifactMetadata,
    labels: Vec<(String, String)>,
    read: Option<ArtifactSummary>,
)
    requires
        m.schema_version == 3,
        forall|i: int|
            0 <= i < m.cargo_features@.len() ==> artifact_store::plain_feature(
                (#[trigger] m.cargo_features@[i])@,
            ),
        call_ensures(artifact_store::image_labels, (tool, &m), labels),
        call_ensures(artifact_store::artifact_summary_from_labels, (tool, &labels), read),
    ensures
        read matches Some(s) && s.artifact_id@ == m.artifact_id@ && s.remote_tag@ == m.remote_tag@
            && s.build_fingerprint@ == m.build_fingerprint@ && s.created_at_epoch_ms
            == m.created_at_epoch_ms && s.crate_name@ == m.crate_name@ && s.binary_name@
            == m.binary_name@ && s.cargo_profile@ == m.cargo_profile@ && texts(s.cargo_features@)
            == texts(m.cargo_features@) && s.base_image@ == m.base_image@,
{
    artifact_store::law_labels_round_trip(tool@, m);
}

/// A tag tells the id of its artifact; what is not eight lower-case letters or
/// digits tells none.
pub proof fn law_a_tag_tells_its_artifact(id: &str, tag: &str, text: String, read: Option<&str>)
    requires
        call_ensures(artifact_store::tracking_tag, (id,), text),
        tag@ == text@,
        call_ensures(artifact_store::artifact_id_from_tracking_tag, (tag,), read),
    ensures
        read matches Some(found) ==> found@ == id@,
        read is Some <==> id@.len() == 8 && forall|i: int|
            0 <= i < id@.len() ==> text::is_lower(#[trigger] id@[i]) || text::is_digit(id@[i]),
{
    if forall|i: int|
        0 <= i < id@.len() ==> text::is_lower(#[trigger] id@[i]) || text::is_digit(id@[i]) {
        assert forall|i: int| 0 <= i < tag@.len() implies artifact_store::id_char(
            #[trigger] tag@[i],
        ) by {
            assert(text::is_lower(id@[i]) || text::is_digit(id@[i]));
        }
    }
    if artifact_store::is_artifact_id(tag@) {
        assert forall|i: int| 0 <= i < id@.len() implies text::is_lower(#[trigger] id@[i])
            || text::is_digit(id@[i]) by {
            assert(artifact_store::id_char(tag@[i]));
        }
    }
}

/// A remote tag ends in the id of its artifact, so artifacts of one crate with
/// different ids have different tags.
pub proof fn law_remote_tags_end_in_the_id(
    crate_name: &str,
    first: &str,
    second: &str,
    one: String,
    other: String,
)
    requires
        call_ensures(artifact_store::remote_tag, (crate_name, first), one),
        call_ensures(artifact_store::remote_tag, (crate_name, second), other),
    ensures
        one@.len() > first@.len(),
        one@.skip(one@.len() - first@.len()) == first@,
        one@[one@.len() - first@.len() - 1] == '-',
        one@ == other@ ==> first@ == second@,
{
    reveal_strlit("-");
    assert(one@.skip(one@.len() - first@.len()) =~= first@);
    assert(other@.skip(other@.len() - second@.len()) =~= second@);
}

/// An id whose directory is taken is passed over until a hundred and twenty-eight
/// were tried; a directory that was made is used, and a failure is told.
pub proof fn law_another_id_is_tried(
    attempt: DirectoryAttempt,
    attempts_made: usize,
    next: DirectoryNext,
)
    requires
        call_ensures(artifact_store::after_directory_attempt, (attempt, attempts_made), next),
    ensures
        next is Use <==> attempt is Created,
        next is Fail <==> attempt is Failed,
        next is TryAnother <==> attempt is Exists && attempts_made < 128,
        next is GiveUp <==> attempt is Exists && attempts_made >= 128,
{
}

proof fn lemma_split_append(s: Seq<char>, sep: char, t: Seq<char>)
    requires
        !t.contains(sep),
    ensures
        text::split(s.push(sep) + t, sep) == text::split(s, sep).push(t),
    decreases t.len(),
{
    let whole = s.push(sep) + t;
    if t.len() == 0 {
        assert(whole =~= s.push(sep));
        assert(whole.drop_last() =~= s);
        assert(t =~= Seq::empty());
    } else {
        let shorter = t.drop_last();
        assert forall|i: int| 0 <= i < shorter.len() implies shorter[i] != sep by {
            assert(t[i] == shorter[i]);
            assert(t.contains(t[i]));
        }
        assert(!shorter.contains(sep));
        lemma_split_append(s, sep, shorter);
        assert(whole.drop_last() =~= s.push(sep) + shorter);
        assert(whole.last() == t.last());
        assert(t.contains(t.last()));
        let before = text::split(s, sep).push(shorter);
        assert(before.drop_last() =~= text::split(s, sep));
        assert(shorter.push(t.last()) =~= t);
    }
}

proof fn lemma_split_none(t: Seq<char>, sep: char)
    requires
        !t.contains(sep),
    ensures
        text::split(t, sep) == seq![t],
    decreases t.len(),
{
    if t.len() == 0 {
        assert(t =~= Seq::empty());
    } else {
        let shorter = t.drop_last();
        assert forall|i: int| 0 <= i < shorter.len() implies shorter[i] != sep by {
            assert(t[i] == shorter[i]);
            assert(t.contains(t[i]));
        }
        assert(!shorter.contains(sep));
        lemma_split_none(shorter, sep);
        assert(t.contains(t.last()));
        let before = seq![shorter];
        assert(before.drop_last().push(before.last().push(t.last())) =~= seq![t]) by {
            assert(shorter.push(t.last()) =~= t);
        }
    }
}

proof fn lemma_leading_digits(s: Seq<char>)
    requires
        text::all_digits(s),
    ensures
        syntheon::leading_digits(s) == s.len(),
    decreases s.len(),
{
    if s.len() > 0 {
        assert(text::is_digit(s[0]));
        let rest = s.skip(1);
        assert forall|i: int| 0 <= i < rest.len() implies text::is_digit(#[trigger] rest[i]) by {
            assert(rest[i] == s[i + 1]);
        }
        lemma_leading_digits(rest);
    }
}

proof fn lemma_number_is_read(n: u32)
    ensures
        syntheon::version_number(text::decimal(n as nat)) == Some(n as nat),
        !text::decimal(n as nat).contains('.'),
{
    let d = text::decimal(n as nat);
    text::lemma_decimal_value(n as nat);
    lemma_leading_digits(d);
    assert(d.take(d.len() as int) =~= d);
    if d.contains('.') {
        let i = choose|i: int| 0 <= i < d.len() && d[i] == '.';
        assert(text::is_digit(d[i]));
    }
}

/// A version is read back from its three numbers with dots between them, or from
/// the first two where the third is zero.
pub proof fn law_a_version_is_read_back(
    version: CmakeVersion,
    full: &str,
    short: &str,
    read: Option<CmakeVersion>,
    read_short: Option<CmakeVersion>,
)
    requires
        full@ == (text::decimal(version.major as nat).push('.') + text::decimal(
            version.minor as nat,
        )).push('.') + text::decimal(version.patch as nat),
        short@ == text::decimal(version.major as nat).push('.') + text::decimal(
            version.minor as nat,
        ),
        call_ensures(syntheon::read_cmake_version, (full,), read),
        call_ensures(syntheon::read_cmake_version, (short,), read_short),
    ensures
        read == Some(version),
        read_short is Some && read_short->Some_0.major == version.major && read_short->Some_0.minor
            == version.minor && read_short->Some_0.patch == 0,
{
    lemma_number_is_read(version.major);
    lemma_number_is_read(version.minor);
    lemma_number_is_read(version.patch);
    let a = text::decimal(version.major as nat);
    let b = text::decimal(version.minor as nat);
    let c = text::decimal(version.patch as nat);
    lemma_split_none(a, '.');
    lemma_split_append(a, '.', b);
    lemma_split_append(a.push('.') + b, '.', c);
    assert(text::split(short@, '.') =~= seq![a, b]);
    assert(text::split(full@, '.') =~= seq![a, b, c]);
}

/// Versions are in order: of two, one reaches the other, both reach each other
/// only where they are the same, and what reaches a version reaches all that it
/// reaches.
pub proof fn law_versions_are_in_order(
    a: CmakeVersion,
    b: CmakeVersion,
    c: CmakeVersion,
    a_b: bool,
    b_a: bool,
    b_c: bool,
    a_c: bool,
)
    requires
        call_ensures(CmakeVersion::at_least, (a, b), a_b),
        call_ensures(CmakeVersion::at_least, (b, a), b_a),
        call_ensures(CmakeVersion::at_least, (b, c), b_c),
        call_ensures(CmakeVersion::at_least, (a, c), a_c),
    ensures
        a_b || b_a,
        a_b && b_a <==> a == b,
        a_b && b_c ==> a_c,
        a.major > b.major ==> a_b,
        a.major == b.major && a.minor > b.minor ==> a_b,
{
}

/// Builds run in parallel from version 3.12 on and installations from 3.31 on.
pub proof fn law_parallel_work_needs_its_version(version: CmakeVersion, can: CmakeCapabilities)
    requires
        call_ensures(syntheon::cmake_capabilities, (version,), can),
    ensures
        can.build_parallel <==> version.major > 3 || version.major == 3 && version.minor >= 12,
        can.install_parallel <==> version.major > 3 || version.major == 3 && version.minor >= 31,
        can.install_parallel ==> can.build_parallel,
{
}

/// The first line that begins so tells the version, in its third word.
pub proof fn law_the_version_line_is_read(
    stdout: &str,
    line: int,
    word: &str,
    read: Option<CmakeVersion>,
    named: Option<CmakeVersion>,
)
    requires
        call_ensures(syntheon::cmake_version, (stdout,), read),
        call_ensures(syntheon::read_cmake_version, (word,), named),
        0 <= line < text::lines(stdout@).len(),
        syntheon::is_version_line(text::lines(stdout@)[line]),
        forall|k: int|
            0 <= k < line ==> !syntheon::is_version_line(#[trigger] text::lines(stdout@)[k]),
        text::words(text::lines(stdout@)[line]).len() >= 3,
        word@ == text::words(text::lines(stdout@)[line])[2],
    ensures
        read == named,
{
    let lines = text::lines(stdout@);
    let p = |k: int| !syntheon::is_version_line(lines[k]);
    lemma_none_failing(p, lines.len(), 0);
    let i = first_failing(p, lines.len(), 0);
    if i > line {
        assert(p(line));
    }
    assert(i == line);
}

/// Whether a word stands directly before a value.
pub open spec fn has_value(words: Seq<Seq<char>>, name: Seq<char>, value: Seq<char>) -> bool {
    exists|i: int| 0 <= i < words.len() - 1 && #[trigger] words[i] == name && words[i + 1] == value
}

/// A target is built in the directory of the runner, in the configuration that is
/// asked for, with as many jobs as the runner has, where CMake can.
pub proof fn law_a_target_is_built_as_asked(
    runner: CmakeRunner,
    target: &str,
    config: &str,
    jobs: usize,
    can: CmakeCapabilities,
    command: CommandLine,
    installed: CommandLine,
)
    requires
        call_ensures(CmakeRunner::jobs, (&runner,), jobs),
        call_ensures(CmakeRunner::capabilities, (&runner,), can),
        call_ensures(CmakeRunner::build_target, (&runner, target, Some(config)), command),
        call_ensures(CmakeRunner::install, (&runner, Some(config)), installed),
    ensures
        command@.program == "cmake"@ && installed@.program == "cmake"@,
        has_value(command@.arguments, "--build"@, runner.directory()),
        has_value(command@.arguments, "--target"@, target@),
        has_value(command@.arguments, "--config"@, config@),
        has_value(installed@.arguments, "--install"@, runner.directory()),
        has_value(installed@.arguments, "--config"@, config@),
        jobs > 1 && can.build_parallel ==> has_value(
            command@.arguments,
            "--parallel"@,
            text::decimal(jobs as nat),
        ),
        jobs > 1 && can.install_parallel ==> has_value(
            installed@.arguments,
            "--parallel"@,
            text::decimal(jobs as nat),
        ),
        command@.arguments.len() == if jobs > 1 && can.build_parallel {
            8int
        } else {
            6int
        },
        installed@.arguments.len() == if jobs > 1 && can.install_parallel {
            6int
        } else {
            4int
        },
        jobs <= 1 ==> command@.environment.len() == 0 && installed@.environment.len() == 0,
        jobs > 1 ==> command@.environment == seq![
            ("CMAKE_BUILD_PARALLEL_LEVEL"@, text::decimal(jobs as nat)),
        ] && installed@.environment == seq![
            ("CMAKE_INSTALL_PARALLEL_LEVEL"@, text::decimal(jobs as nat)),
        ],
{
    let a = command@.arguments;
    let b = installed@.arguments;
    assert(a[0] == "--build"@ && a[1] == runner.directory());
    assert(a[2] == "--target"@ && a[3] == target@);
    assert(a[4] == "--config"@ && a[5] == config@);
    assert(b[0] == "--install"@ && b[1] == runner.directory());
    assert(b[2] == "--config"@ && b[3] == config@);
    if jobs > 1 && can.build_parallel {
        assert(a[6] == "--parallel"@ && a[7] == text::decimal(jobs as nat));
    }
    if jobs > 1 && can.install_parallel {
        assert(b[4] == "--parallel"@ && b[5] == text::decimal(jobs as nat));
    }
}

/// The number of jobs is the one that is set, where it is a number above zero,
/// else that of the processors, else one.
pub proof fn law_jobs_are_those_that_are_set(
    setting: &str,
    n: nat,
    available: usize,
    set: usize,
    unset: usize,
    unknown: usize,
)
    requires
        setting@ == text::decimal(n),
        n <= usize::MAX,
        call_ensures(syntheon::parallel_jobs, (Some(setting), Some(available)), set),
        call_ensures(syntheon::parallel_jobs, (None::<&str>, Some(available)), unset),
        call_ensures(syntheon::parallel_jobs, (None::<&str>, None::<usize>), unknown),
    ensures
        n > 0 ==> set == n,
        n == 0 ==> set == available,
        unset == available,
        unknown == 1,
{
    text::lemma_parsed_decimal(n, usize::MAX as nat);
}

/// `make` is run with at least one job, and told their number where there are
/// more, before the target.
pub proof fn law_make_is_told_its_jobs(
    jobs: usize,
    dir: &str,
    target: &str,
    runner: MakeRunner,
    count: usize,
    command: syntheon::DirectoryCommand,
)
    requires
        call_ensures(MakeRunner::with_jobs, (jobs,), runner),
        call_ensures(MakeRunner::jobs, (&runner,), count),
        call_ensures(MakeRunner::command_for_target, (&runner, dir, target), command),
    ensures
        jobs > 0 ==> count == jobs,
        jobs == 0 ==> count == 1,
        command.directory@ == dir@,
        command.command@.program == "make"@,
        command.command@.arguments.last() == target@,
        jobs > 1 ==> command.command@.arguments.len() == 2 && command.command@.arguments[0] == "-j"@
            + text::decimal(jobs as nat),
        jobs <= 1 ==> command.command@.arguments.len() == 1,
{
}

/// The last flag that names a processor decides whether it is the native one; a
/// flag that names none changes nothing.
pub proof fn law_the_last_processor_counts(
    before: &str,
    cpu: &str,
    flags: &str,
    decided: bool,
    other: &str,
    more: &str,
    earlier: bool,
    after: bool,
    none: bool,
)
    requires
        !cpu@.contains('\u{1f}'),
        flags@ == before@.push('\u{1f}') + ("-Ctarget-cpu="@ + cpu@),
        call_ensures(syntheon::wants_native_cpu_flags, (Some(flags),), decided),
        !other@.contains('\u{1f}'),
        !"-Ctarget-cpu="@.is_prefix_of(other@),
        !"target-cpu="@.is_prefix_of(other@),
        more@ == before@.push('\u{1f}') + other@,
        call_ensures(syntheon::wants_native_cpu_flags, (Some(before),), earlier),
        call_ensures(syntheon::wants_native_cpu_flags, (Some(more),), after),
        call_ensures(syntheon::wants_native_cpu_flags, (None::<&str>,), none),
    ensures
        decided <==> cpu@ == "native"@,
        after == earlier,
        !none,
{
    reveal_strlit("-Ctarget-cpu=");
    let token = "-Ctarget-cpu="@ + cpu@;
    assert forall|i: int| 0 <= i < token.len() implies token[i] != '\u{1f}' by {
        if i >= 13 {
            assert(token[i] == cpu@[i - 13]);
            assert(cpu@.contains(cpu@[i - 13]));
        }
    }
    assert(!token.contains('\u{1f}'));
    lemma_split_append(before@, '\u{1f}', token);
    lemma_split_append(before@, '\u{1f}', other@);
    let tokens = text::split(before@, '\u{1f}');
    assert(tokens.push(token).last() == token);
    assert(token.skip(13) =~= cpu@);
    assert("-Ctarget-cpu="@.is_prefix_of(token)) by {
        assert(token.take(13) =~= "-Ctarget-cpu="@);
    }
    assert(tokens.push(other@).drop_last() =~= tokens);
    assert(tokens.push(other@).last() == other@);
}

/// Each directory stands behind an `-isystem` of its own, in their order.
pub proof fn law_each_directory_has_its_option(dirs: Vec<String>, arguments: Vec<String>, i: int)
    requires
        call_ensures(syntheon::clang_system_include_args, (&dirs,), arguments),
        0 <= i < dirs@.len(),
    ensures
        arguments@.len() == 2 * dirs@.len(),
        arguments@[2 * i]@ == "-isystem"@,
        arguments@[2 * i + 1]@ == dirs@[i]@,
{
    lemma_isystem(texts(dirs@), i);
    assert(texts(arguments@).len() == arguments@.len());
    assert(texts(arguments@)[2 * i] == arguments@[2 * i]@);
    assert(texts(arguments@)[2 * i + 1] == arguments@[2 * i + 1]@);
}

proof fn lemma_isystem(dirs: Seq<Seq<char>>, i: int)
    requires
        0 <= i < dirs.len(),
    ensures
        syntheon::isystem_arguments(dirs).len() == 2 * dirs.len(),
        syntheon::isystem_arguments(dirs)[2 * i] == "-isystem"@,
        syntheon::isystem_arguments(dirs)[2 * i + 1] == dirs[i],
    decreases dirs.len(),
{
    let before = dirs.drop_last();
    if before.len() == 0 {
        assert(syntheon::isystem_arguments(before) =~= Seq::empty());
    } else {
        lemma_isystem(before, if i < before.len() {
            i
        } else {
            0
        });
    }
}

/// Whether a path is that of a directory that exists.
pub open spec fn is_existing(named: Seq<NamedDirectory>, dir: Seq<char>) -> bool {
    exists|n: int| 0 <= n < named.len() && (#[trigger] named[n]).exists && named[n].path@ == dir
}

/// The directories for the compiler are those that exist, and none for macOS.
pub proof fn law_only_directories_that_exist_are_passed_on(
    target_os: Option<String>,
    named: Vec<NamedDirectory>,
    found: Option<Vec<String>>,
    i: int,
)
    requires
        call_ensures(syntheon::clang_system_include_dirs, (&target_os, &named), found),
        0 <= i < named@.len(),
    ensures
        ({
            let macos = target_os is Some && target_os->Some_0@ == "macos"@;
            &&& macos ==> found is Some && found->Some_0@.len() == 0
            &&& !macos && named@[i].exists ==> found is Some && texts(found->Some_0@).contains(
                named@[i].path@,
            )
            &&& !macos && found is None ==> !named@[i].exists
            &&& found is Some ==> forall|k: int|
                0 <= k < found->Some_0@.len() ==> is_existing(
                    named@,
                    #[trigger] found->Some_0@[k]@,
                )
        }),
{
    lemma_existing(named@);
    if found is Some {
        let dirs = found->Some_0@;
        assert(texts(dirs).len() == dirs.len());
        assert forall|k: int| 0 <= k < dirs.len() implies is_existing(
            named@,
            #[trigger] dirs[k]@,
        ) by {
            assert(texts(dirs)[k] == dirs[k]@);
            assert(syntheon::existing_paths(named@)[k] == dirs[k]@);
        }
    }
    if named@[i].exists {
        let all = syntheon::existing_paths(named@);
        assert(all.contains(named@[i].path@));
        assert(all.len() > 0);
    }
}

proof fn lemma_existing(named: Seq<NamedDirectory>)
    ensures
        ({
            let all = syntheon::existing_paths(named);
            &&& forall|i: int|
                0 <= i < named.len() && (#[trigger] named[i]).exists ==> all.contains(named[i].path@)
            &&& forall|k: int| 0 <= k < all.len() ==> is_existing(named, #[trigger] all[k])
        }),
    decreases named.len(),
{
    if named.len() > 0 {
        let shorter = named.drop_last();
        lemma_existing(shorter);
        let before = syntheon::existing_paths(shorter);
        let all = syntheon::existing_paths(named);
        assert forall|i: int| 0 <= i < named.len() && (#[trigger] named[i]).exists implies all.contains(
            named[i].path@,
        ) by {
            if i < shorter.len() {
                assert(shorter[i] == named[i]);
                let at = choose|at: int| 0 <= at < before.len() && before[at] == named[i].path@;
                assert(all[at] == named[i].path@);
            } else {
                assert(all[all.len() - 1] == named[i].path@);
            }
        }
        assert forall|k: int| 0 <= k < all.len() implies is_existing(named, #[trigger] all[k]) by {
            if k < before.len() {
                assert(all[k] == before[k]);
                assert(is_existing(shorter, before[k]));
                let n = choose|n: int|
                    0 <= n < shorter.len() && (#[trigger] shorter[n]).exists && shorter[n].path@
                        == before[k];
                assert(named[n] == shorter[n]);
            } else {
                assert(named[named.len() - 1].exists);
            }
        }
    }
}

/// The SDK is the declared one where it exists, else the printed one where that
/// does, and only for macOS.
pub proof fn law_the_declared_sdk_comes_first(
    target_os: Option<String>,
    declared: NamedDirectory,
    printed: NamedDirectory,
    found: Option<String>,
)
    requires
        call_ensures(
            syntheon::macos_sdk_root,
            (&target_os, Some(declared), Some(printed)),
            found,
        ),
    ensures
        found is Some <==> target_os is Some && target_os->Some_0@ == "macos"@ && (declared.exists
            || printed.exists),
        found is Some && declared.exists ==> found == Some(declared.path),
        found is Some && !declared.exists ==> found == Some(printed.path),
{
}

/// The root of the targets is the directory that is set. Else it is the part of
/// the output directory up to its last `target`, or `target` beside the manifest
/// where there is none.
pub proof fn law_the_target_root_is_found(
    set: String,
    out_dir: &str,
    manifest_dir: &str,
    given: String,
    found: String,
    n: int,
)
    requires
        call_ensures(syntheon::target_root, (Some(set), out_dir, manifest_dir), given),
        call_ensures(syntheon::target_root, (None::<String>, out_dir, manifest_dir), found),
    ensures
        given@ == set@,
        (0 <= n < path(out_dir@).parts.len() && path(out_dir@).parts[n] == "target"@ && (forall|k:
            int|
            n < k < path(out_dir@).parts.len() ==> #[trigger] path(out_dir@).parts[k] != "target"@))
            ==> path(found@).absolute == path(out_dir@).absolute && path(found@).parts == path(
            out_dir@,
        ).parts.take(n + 1),
        (forall|k: int|
            0 <= k < path(out_dir@).parts.len() ==> #[trigger] path(out_dir@).parts[k]
                != "target"@) ==> found@ == unix_path::joined(manifest_dir@, "target"@),
{
    lemma_behind_target(path(out_dir@).parts);
}

proof fn lemma_behind_target(parts: Seq<Seq<char>>)
    ensures
        ({
            let n = syntheon::behind_target(parts);
            &&& 0 <= n <= parts.len()
            &&& n > 0 ==> parts[n - 1] == "target"@
            &&& forall|k: int| n <= k < parts.len() ==> #[trigger] parts[k] != "target"@
        }),
    decreases parts.len(),
{
    if parts.len() > 0 && parts.last() != "target"@ {
        let shorter = parts.drop_last();
        lemma_behind_target(shorter);
        let n = syntheon::behind_target(shorter);
        if n > 0 {
            assert(shorter[n - 1] == parts[n - 1]);
        }
        assert forall|k: int| n <= k < parts.len() implies #[trigger] parts[k] != "target"@ by {
            if k < shorter.len() {
                assert(shorter[k] == parts[k]);
            }
        }
    }
}

/// A command is told its number of jobs behind its other words, where there are
/// more jobs than one.
pub proof fn law_jobs_are_added_at_the_end()
    ensures
        forall|command: &mut CommandLine, jobs: usize| #[trigger]
            call_ensures(syntheon::apply_parallel, (command, jobs), ()) ==> {
                let before = mut_ref_current(command)@;
                let after = mut_ref_future(command)@;
                &&& after.program == before.program && after.environment == before.environment
                &&& jobs <= 1 ==> after.arguments =~= before.arguments
                &&& jobs > 1 ==> after.arguments =~= before.arguments.push(
                    "-j"@ + text::decimal(jobs as nat),
                )
            },
{
}

/// A flag in a fingerprint tells whether it is set, and a pair without a key or a
/// value tells nothing.
pub proof fn law_a_fingerprint_tells_its_flags(
    builder: CacheFingerprintBuilder,
    key: &str,
    value: &str,
    set: CacheFingerprintBuilder,
    unset: CacheFingerprintBuilder,
    pair: CacheFingerprintBuilder,
    part: CacheFingerprintBuilder,
)
    requires
        call_ensures(CacheFingerprintBuilder::flag, (builder, key, true), set),
        call_ensures(CacheFingerprintBuilder::flag, (builder, key, false), unset),
        call_ensures(CacheFingerprintBuilder::kv, (builder, key, value), pair),
        call_ensures(CacheFingerprintBuilder::component, (builder, value), part),
    ensures
        key@.len() == 0 ==> set@ == builder@ && unset@ == builder@ && pair@ == builder@,
        value@.len() == 0 ==> pair@ == builder@ && part@ == builder@,
        key@.len() > 0 ==> set@ != unset@ && set@.len() == builder@.len() + 1 && unset@.len()
            == builder@.len() + 1,
        key@.len() > 0 && value@.len() > 0 ==> pair@.len() == builder@.len() + 1
            && pair@.drop_last() == builder@ && pair@.last().len() == key@.len() + 1 + value@.len(),
        value@.len() > 0 ==> part@.len() == builder@.len() + 1 && part@.last().len() == value@.len(),
{
    reveal_strlit("1");
    reveal_strlit("0");
    reveal_strlit("-");
    if key@.len() > 0 {
        let a = syntheon::component(key@) + "-"@ + syntheon::component("1"@);
        let b = syntheon::component(key@) + "-"@ + syntheon::component("0"@);
        assert(a.last() == '1');
        assert(b.last() == '0');
        assert(set@.last() == syntheon::component(a));
        assert(unset@.last() == syntheon::component(b));
        assert(set@.last().last() == '1');
        assert(unset@.last().last() == '0');
        if value@.len() > 0 {
            assert(pair@.drop_last() =~= builder@);
        }
    }
}

/// A cache with a fingerprint is a directory of its own within that of the
/// component.
pub proof fn law_a_fingerprint_parts_a_cache(
    plain: CacheDirBuilder,
    fingerprint: CacheFingerprint,
    parted: CacheDirBuilder,
    root: &str,
    whole: String,
    own: String,
)
    requires
        plain@.1 is None,
        call_ensures(CacheDirBuilder::with_fingerprint, (plain, fingerprint), parted),
        call_ensures(CacheDirBuilder::path, (&plain, root), whole),
        call_ensures(CacheDirBuilder::path, (&parted, root), own),
    ensures
        whole@ == unix_path::joined(root@, plain@.0),
        own@ == unix_path::joined(whole@, "fp-"@ + fingerprint@),
{
}

/// Labels stand under the name of the tool: each key is a common prefix, the clean
/// name of the tool, a dot and what the label tells.
pub proof fn law_labels_stand_under_the_tool(
    tool: &str,
    m: ArtifactMetadata,
    labels: Vec<(String, String)>,
    name: String,
)
    requires
        call_ensures(artifact_store::image_labels, (tool, &m), labels),
        call_ensures(artifact_store::sanitize_segment, (tool,), name),
    ensures
        ({
            let front = if name@.len() == 0 {
                "io.khoek.tool."@
            } else {
                "io.khoek."@ + name@ + "."@
            };
            &&& labels@.len() == 10
            &&& labels@[0].0@ == front + "schema-version"@ && labels@[0].1@ == text::decimal(
                m.schema_version as nat,
            )
            &&& labels@[1].0@ == front + "artifact-id"@ && labels@[1].1@ == m.artifact_id@
            &&& labels@[2].0@ == front + "remote-tag"@ && labels@[2].1@ == m.remote_tag@
            &&& labels@[3].0@ == front + "build-fingerprint"@ && labels@[3].1@
                == m.build_fingerprint@
            &&& labels@[4].0@ == front + "created-at-epoch-ms"@ && labels@[4].1@ == text::decimal(
                m.created_at_epoch_ms as nat,
            )
            &&& labels@[5].0@ == front + "crate-name"@ && labels@[5].1@ == m.crate_name@
            &&& labels@[6].0@ == front + "binary-name"@ && labels@[6].1@ == m.binary_name@
            &&& labels@[7].0@ == front + "cargo-profile"@ && labels@[7].1@ == m.cargo_profile@
            &&& labels@[8].0@ == front + "cargo-features"@ && labels@[8].1@ == text::joined(
                texts(m.cargo_features@),
                ","@,
            )
            &&& labels@[9].0@ == front + "base-image"@ && labels@[9].1@ == m.base_image@
        }),
{
    let all = artifact_store::label_views(labels@);
    assert(all.len() == labels@.len());
    assert forall|i: int| 0 <= i < labels@.len() implies all[i].0 == (#[trigger] labels@[i]).0@
        && all[i].1 == labels@[i].1@ by {}
}

/// Artifacts are stored under the directory of their tool, and their archive is in
/// their own directory.
pub proof fn law_artifacts_are_stored_under_their_tool(
    root: &str,
    tool: &str,
    own: String,
    all: String,
    artifact: StoredArtifact,
    archive: String,
    metadata: String,
    dir: &str,
)
    requires
        call_ensures(crate::paths::tool_dir, (root, tool), own),
        call_ensures(artifact_store::containers_root, (root, tool), all),
        call_ensures(StoredArtifact::archive_path, (&artifact,), archive),
        dir@ == artifact.dir@,
        call_ensures(artifact_store::save_metadata, (dir,), metadata),
    ensures
        all@ == unix_path::joined(own@, "containers"@),
        archive@ == unix_path::joined(dir@, artifact.metadata.archive_file@),
        metadata@ == unix_path::joined(dir@, "metadata.toml"@),
{
}

} // verus!
