//! What holds of paths, spans of time and orders.

use vstd::prelude::*;

use crate::containers::{ContainerCommand, ContainerError, ContainerRuntime, ContainerRuntimeKind};
use crate::duration::Duration;
use crate::order::{before, comes_before};
use crate::process::{CommandOutput, ProcessError};
use crate::shell;
use crate::text;
use crate::unix_path;
use crate::unix_path::{is_part, path};
use crate::version::Version;

verus! {

proof fn lemma_behind(dir: Seq<char>, tail: Seq<char>)
    requires
        dir.len() > 0,
        !tail.contains('/'),
    ensures
        path(dir.push('/') + tail).absolute == path(dir).absolute,
        path(dir.push('/') + tail).parts == if tail.len() == 0 || tail == unix_path::dot() {
            path(dir).parts
        } else {
            path(dir).parts.push(tail)
        },
{
    unix_path::lemma_split_concat(dir, tail, '/');
    unix_path::lemma_split_single(tail, '/');
    text::lemma_split_nonempty(dir, '/');
    let pieces = text::split(dir.push('/') + tail, '/');
    assert(pieces =~= text::split(dir, '/').push(tail));
    assert(pieces.drop_last() =~= text::split(dir, '/'));
    assert((dir.push('/') + tail)[0] == dir[0]);
}

/// A slash, or a slash and a dot, behind a path changes nothing; a slash and any
/// other name add that name, two dots among them.
pub proof fn law_a_path_is_read_part_by_part(
    dir: Seq<char>,
    name: Seq<char>,
    with_slash: &str,
    with_dot: &str,
    with_dots: &str,
    with_name: &str,
    all: (Vec<String>, Vec<String>, Vec<String>, Vec<String>),
    plain: &str,
    own: Vec<String>,
)
    requires
        dir.len() > 0,
        is_part(name),
        plain@ == dir,
        with_slash@ == dir.push('/'),
        with_dot@ == dir.push('/').push('.'),
        with_dots@ == dir.push('/').push('.').push('.'),
        with_name@ == dir.push('/') + name,
        call_ensures(unix_path::parts, (plain,), own),
        call_ensures(unix_path::parts, (with_slash,), all.0),
        call_ensures(unix_path::parts, (with_dot,), all.1),
        call_ensures(unix_path::parts, (with_dots,), all.2),
        call_ensures(unix_path::parts, (with_name,), all.3),
    ensures
        text::texts(all.0@) == text::texts(own@),
        text::texts(all.1@) == text::texts(own@),
        text::texts(all.2@) == text::texts(own@).push(seq!['.', '.']),
        text::texts(all.3@) == text::texts(own@).push(name),
{
    let none = Seq::<char>::empty();
    let dots = seq!['.', '.'];
    lemma_behind(dir, none);
    assert(dir.push('/') + none =~= dir.push('/'));
    assert(!seq!['.'].contains('/'));
    lemma_behind(dir, seq!['.']);
    assert(dir.push('/') + seq!['.'] =~= dir.push('/').push('.'));
    assert(!dots.contains('/'));
    assert(dots != unix_path::dot()) by {
        assert(dots.len() == 2);
    }
    lemma_behind(dir, dots);
    assert(dir.push('/') + dots =~= dir.push('/').push('.').push('.'));
    lemma_behind(dir, name);
}

/// A name that is joined to a directory is found in it: the directory is its
/// parent, the name its file name, and the joined path starts with the directory.
pub proof fn law_a_joined_name_is_in_its_directory(
    dir: &str,
    name: &str,
    whole: &str,
    out: String,
    parent: bool,
    found: Option<String>,
    within: bool,
    same: bool,
)
    requires
        dir@.len() > 0,
        dir@.last() != '/',
        is_part(name@),
        name@ != unix_path::dot_dot(),
        call_ensures(unix_path::join, (dir, name), out),
        whole@ == out@,
        call_ensures(unix_path::parent_is, (whole, dir), parent),
        call_ensures(unix_path::file_name_of, (whole,), found),
        call_ensures(unix_path::starts_with, (whole, dir), within),
        call_ensures(unix_path::same_path, (whole, dir), same),
    ensures
        parent,
        found matches Some(f) && f@ == name@,
        within,
        !same,
{
    assert(name@.contains(name@[0]));
    unix_path::lemma_join_name(dir@, name@);
    let p = path(whole@);
    assert(p.parts.drop_last() =~= path(dir@).parts);
    assert(unix_path::parent(p) == Some(path(dir@)));
    assert(p.parts.len() != path(dir@).parts.len());
    assert(path(dir@).parts.is_prefix_of(p.parts)) by {
        assert(p.parts.take(path(dir@).parts.len() as int) =~= path(dir@).parts);
    }
}

/// A path is under itself, and what is under a path that is under another is
/// under that too; two paths are under each other only where they are the same.
pub proof fn law_paths_are_in_order(
    a: &str,
    b: &str,
    c: &str,
    a_a: bool,
    a_b: bool,
    b_a: bool,
    b_c: bool,
    a_c: bool,
    same: bool,
)
    requires
        call_ensures(unix_path::starts_with, (a, a), a_a),
        call_ensures(unix_path::starts_with, (a, b), a_b),
        call_ensures(unix_path::starts_with, (b, a), b_a),
        call_ensures(unix_path::starts_with, (b, c), b_c),
        call_ensures(unix_path::starts_with, (a, c), a_c),
        call_ensures(unix_path::same_path, (a, b), same),
    ensures
        a_a,
        a_b && b_a <==> same,
        a_b && b_c ==> a_c,
{
    let pa = path(a@).parts;
    let pb = path(b@).parts;
    let pc = path(c@).parts;
    if a_b && b_c {
        assert(pc =~= pa.take(pc.len() as int)) by {
            assert(pc == pb.take(pc.len() as int));
            assert(pb == pa.take(pb.len() as int));
        }
    }
    if a_b && b_a {
        assert(pa =~= pb);
        assert(path(a@) =~= path(b@));
    }
}

/// A path is plain exactly where it begins with a slash and no part of it is two
/// dots.
pub proof fn law_plain_paths_lead_down(p: &str, plain: bool, absolute: bool, parts: Vec<String>)
    requires
        call_ensures(unix_path::is_plain_path, (p,), plain),
        call_ensures(unix_path::is_absolute, (p,), absolute),
        call_ensures(unix_path::parts, (p,), parts),
    ensures
        absolute <==> p@.len() > 0 && p@[0] == '/',
        plain <==> absolute && forall|i: int|
            0 <= i < parts@.len() ==> (#[trigger] parts@[i])@ != seq!['.', '.'],
{
    let all = path(p@).parts;
    assert(all.len() == parts@.len());
    assert forall|i: int| 0 <= i < parts@.len() implies all[i] == (#[trigger] parts@[i])@ by {
        assert(text::texts(parts@)[i] == parts@[i]@);
    }
    if all.contains(seq!['.', '.']) {
        let i = choose|i: int| 0 <= i < all.len() && all[i] == seq!['.', '.'];
        assert(parts@[i]@ == seq!['.', '.']);
    }
    if !(forall|i: int| 0 <= i < parts@.len() ==> (#[trigger] parts@[i])@ != seq!['.', '.']) {
        let i = choose|i: int| 0 <= i < parts@.len() && (#[trigger] parts@[i])@ == seq!['.', '.'];
        assert(all[i] == seq!['.', '.']);
    }
}

/// The parts of an absolute path are read back from its text.
pub proof fn law_a_rendered_path_is_read_back(
    parts: Vec<String>,
    out: String,
    whole: &str,
    read: Vec<String>,
)
    requires
        forall|i: int| 0 <= i < parts@.len() ==> is_part((#[trigger] parts@[i])@),
        call_ensures(unix_path::render, (&parts,), out),
        whole@ == out@,
        call_ensures(unix_path::parts, (whole,), read),
    ensures
        text::texts(read@) == text::texts(parts@),
        whole@.len() > 0 && whole@[0] == '/',
{
    let all = text::texts(parts@);
    assert forall|i: int| 0 <= i < all.len() implies is_part(#[trigger] all[i]) by {
        assert(all[i] == parts@[i]@);
    }
    unix_path::lemma_rendered(all);
    assert(path(whole@).absolute);
}

/// Seconds and nanoseconds are read back from the span that they make, a longer
/// span is not at most a shorter one, and what was added can be taken away.
pub proof fn law_spans_are_read_back(
    secs: u64,
    nanos: u32,
    made: Duration,
    whole: u64,
    rest: u32,
    other: Duration,
    sum: Duration,
    back: Duration,
    at_most: bool,
    over: bool,
    zero: bool,
)
    requires
        call_ensures(Duration::from_parts, (secs, nanos), Some(made)),
        call_ensures(Duration::as_secs, (&made,), whole),
        call_ensures(Duration::subsec_nanos, (&made,), rest),
        call_ensures(Duration::checked_add, (&made, &other), Some(sum)),
        call_ensures(Duration::saturating_sub, (&sum, &other), back),
        call_ensures(Duration::at_most, (&made, &sum), at_most),
        call_ensures(Duration::at_most, (&sum, &made), over),
        call_ensures(Duration::is_zero, (&other,), zero),
    ensures
        whole == secs,
        rest == nanos,
        back@ == made@,
        at_most,
        over <==> zero,
{
    assert(made@ == secs * 1_000_000_000 + nanos);
    assert(nanos < 1_000_000_000);
    assert((secs * 1_000_000_000 + nanos) / 1_000_000_000 == secs) by (nonlinear_arith)
        requires
            0 <= nanos < 1_000_000_000,
            0 <= secs,
    ;
    assert((secs * 1_000_000_000 + nanos) % 1_000_000_000 == nanos) by (nonlinear_arith)
        requires
            0 <= nanos < 1_000_000_000,
            0 <= secs,
    ;
}

/// A second is a thousand milliseconds, and that many million nanoseconds.
pub proof fn law_units_of_time_agree(
    n: u64,
    seconds: Duration,
    millis: Duration,
    as_millis: u128,
    as_nanos: u128,
    single: u128,
)
    requires
        call_ensures(Duration::from_secs, (n,), seconds),
        call_ensures(Duration::from_millis, (n,), millis),
        call_ensures(Duration::as_millis, (&seconds,), as_millis),
        call_ensures(Duration::as_nanos, (&seconds,), as_nanos),
        call_ensures(Duration::as_millis, (&millis,), single),
    ensures
        as_millis == n * 1000,
        as_nanos == n * 1_000_000_000,
        single == n,
        seconds@ == millis@ * 1000,
{
}

proof fn lemma_before(a: Seq<u8>, b: Seq<u8>, c: Seq<u8>)
    ensures
        !before(a, a),
        before(a, b) ==> !before(b, a),
        a != b ==> before(a, b) || before(b, a),
        before(a, b) && before(b, c) ==> before(a, c),
    decreases a.len() + b.len() + c.len(),
{
    if a.len() > 0 {
        let sa = a.skip(1);
        let sb = if b.len() > 0 {
            b.skip(1)
        } else {
            b
        };
        let sc = if c.len() > 0 {
            c.skip(1)
        } else {
            c
        };
        lemma_before(sa, sb, sc);
        if b.len() > 0 && a[0] == b[0] && sa == sb {
            assert(a =~= b) by {
                assert forall|i: int| 0 <= i < a.len() implies a[i] == b[i] by {
                    if i > 0 {
                        assert(a[i] == sa[i - 1]);
                        assert(b[i] == sb[i - 1]);
                    }
                }
            }
        }
    } else if b.len() == 0 {
        assert(a =~= b);
    }
}

/// Texts are in order: none comes before itself, of two that differ exactly one
/// comes before the other, and what comes before a text comes before all that
/// follow it.
pub proof fn law_texts_are_in_order(
    a: &str,
    b: &str,
    c: &str,
    a_b: bool,
    b_a: bool,
    b_c: bool,
    a_c: bool,
)
    requires
        call_ensures(comes_before, (a, b), a_b),
        call_ensures(comes_before, (b, a), b_a),
        call_ensures(comes_before, (b, c), b_c),
        call_ensures(comes_before, (a, c), a_c),
    ensures
        a@ == b@ ==> !a_b,
        a@ != b@ ==> a_b != b_a,
        a_b && b_c ==> a_c,
{
    vstd::utf8::encode_utf8_decode_utf8(a@);
    vstd::utf8::encode_utf8_decode_utf8(b@);
    lemma_before(
        vstd::utf8::encode_utf8(a@),
        vstd::utf8::encode_utf8(b@),
        vstd::utf8::encode_utf8(c@),
    );
}

/// Stable versions are in the order of their numbers: the first that differs
/// decides, and a version does not precede itself.
pub proof fn law_stable_versions_are_in_order(
    a: Version,
    b: Version,
    one: Option<bool>,
    other: Option<bool>,
    same: bool,
    stable: bool,
    second_stable: bool,
)
    requires
        call_ensures(Version::is_stable, (&a,), stable),
        call_ensures(Version::is_stable, (&b,), second_stable),
        call_ensures(Version::precedes, (&a, &b), one),
        call_ensures(Version::precedes, (&b, &a), other),
        call_ensures(Version::same, (&a, &b), same),
    ensures
        stable <==> a.pre@.len() == 0 && a.build@.len() == 0,
        stable && second_stable ==> {
            &&& one is Some && other is Some
            &&& !(one->Some_0 && other->Some_0)
            &&& !one->Some_0 && !other->Some_0 <==> a.major == b.major && a.minor == b.minor
                && a.patch == b.patch
            &&& a.major < b.major ==> one->Some_0
            &&& a.major == b.major && a.minor < b.minor ==> one->Some_0
            &&& a.major == b.major && a.minor == b.minor && a.patch < b.patch ==> one->Some_0
            &&& same ==> !one->Some_0
        },
{
}

/// A text in quotes is read by a shell as that text, and the words that run a
/// script hand it on whole.
pub proof fn law_a_script_is_handed_on_whole(script: &str, word: String, line: String)
    requires
        call_ensures(shell::shell_quote, (script,), word),
        call_ensures(shell::bash_command, (script,), line),
    ensures
        shell::shell_reads(word@, shell::Quoting::Plain) == Some(script@),
        line@.take(9) == "bash -lc "@,
        line@.skip(9) == word@,
{
    shell::law_shell_reads_quoted_text(script@);
    reveal_strlit("bash -lc ");
    assert(line@.take(9) =~= "bash -lc "@);
    assert(line@.skip(9) =~= word@);
}

/// A runtime is called by its own name, through `sudo` exactly where it needs it,
/// and in a shell in the same way.
pub proof fn law_a_runtime_is_called_by_its_name(
    kind: ContainerRuntimeKind,
    use_sudo: bool,
    runtime: ContainerRuntime,
    name: &'static str,
    sudo: bool,
    prefix: String,
)
    requires
        call_ensures(ContainerRuntime::new, (kind, use_sudo), runtime),
        call_ensures(ContainerRuntime::name, (runtime,), name),
        call_ensures(ContainerRuntime::uses_sudo, (runtime,), sudo),
        call_ensures(ContainerRuntime::shell_prefix, (runtime,), prefix),
    ensures
        sudo == use_sudo,
        kind is Docker ==> name@ == "docker"@,
        kind is Podman ==> name@ == "podman"@,
        !use_sudo ==> prefix@ == name@,
        use_sudo ==> prefix@ == "sudo -n "@ + name@,
{
}

/// Podman builds images by itself, Docker only where its Buildx answered.
pub proof fn law_docker_needs_buildx(
    kind: ContainerRuntimeKind,
    use_sudo: bool,
    runtime: ContainerRuntime,
    asked: Option<CommandOutput>,
    r: Result<(), ContainerError>,
    inspected: CommandOutput,
    exists: bool,
)
    requires
        call_ensures(ContainerRuntime::new, (kind, use_sudo), runtime),
        call_ensures(ContainerRuntime::ensure_build_available, (runtime, &asked), r),
        call_ensures(ContainerRuntime::image_exists, (runtime, &inspected), exists),
    ensures
        kind is Podman ==> r is Ok,
        kind is Docker ==> (r is Ok <==> asked is Some && asked->Some_0.success),
        kind is Docker && asked is None ==> r->Err_0 is BuildxCheck,
        exists <==> inspected.success,
{
}

/// A call of a runtime succeeds exactly where its command did, and is shown only
/// where it is streamed to a terminal.
pub proof fn law_a_call_answers_as_its_command(
    call: ContainerCommand,
    ended: CommandOutput,
    terminal: bool,
    shown: bool,
    r: Result<(), ProcessError>,
)
    requires
        call_ensures(ContainerCommand::is_shown, (&call, terminal), shown),
        call_ensures(ContainerCommand::answer, (&call, ended, terminal), r),
    ensures
        shown <==> call.streamed && terminal,
        r is Ok <==> ended.success,
        r is Err ==> r->Err_0 is Failed && r->Err_0->Failed_action@ == call.action@,
        r is Err && !shown && text::trimmed(ended.stderr@).len() > 0 ==> r->Err_0->Failed_detail@
            == text::trimmed(ended.stderr@),
{
}

/// Whether a character means nothing but itself to a shell, wherever it stands in
/// a word.
pub open spec fn means_itself(c: char) -> bool {
    ||| 'a' <= c <= 'z'
    ||| 'A' <= c <= 'Z'
    ||| '0' <= c <= '9'
    ||| c == '/' || c == '.' || c == '_' || c == '-' || c == ':' || c == '@'
}

/// A text stands without quotes exactly where it is not empty and every character
/// of it means itself; any other begins and ends with a quote.
pub proof fn law_only_plain_words_stand_bare(value: &str, word: String)
    requires
        call_ensures(shell::shell_quote, (value,), word),
    ensures
        word@ == value@ <==> value@.len() > 0 && forall|i: int|
            0 <= i < value@.len() ==> means_itself(#[trigger] value@[i]),
        word@ != value@ ==> word@.len() >= 2 && word@[0] == '\'' && word@.last() == '\'',
{
    let v = value@;
    if v.len() > 0 {
        if shell::is_plain_word(v) {
            assert forall|i: int| 0 <= i < v.len() implies means_itself(#[trigger] v[i]) by {
                assert(shell::is_safe_atom(v[i]));
            }
        } else {
            let i = choose|i: int| 0 <= i < v.len() && !shell::is_safe_atom(#[trigger] v[i]);
            assert(!means_itself(v[i]));
            lemma_quotes_grow(v);
            assert(word@.len() != v.len());
        }
    }
}

proof fn lemma_quotes_grow(s: Seq<char>)
    ensures
        shell::escaped(s).len() >= s.len(),
    decreases s.len(),
{
    if s.len() > 0 {
        lemma_quotes_grow(s.skip(1));
    }
}

/// A path that is joined to another stands behind it, with one slash between; an
/// absolute path stands for itself.
pub proof fn law_paths_are_joined_by_one_slash(base: &str, tail: &str, out: String)
    requires
        call_ensures(unix_path::join, (base, tail), out),
    ensures
        tail@.len() > 0 && tail@[0] == '/' ==> out@ == tail@,
        base@.len() == 0 ==> out@ == tail@,
        base@.len() > 0 && base@.last() != '/' && (tail@.len() == 0 || tail@[0] != '/') ==> out@
            == base@ + seq!['/'] + tail@,
        base@.len() > 0 && base@.last() == '/' && (tail@.len() == 0 || tail@[0] != '/') ==> out@
            == base@ + tail@,
{
    if base@.len() > 0 {
        assert(base@.push('/') + tail@ =~= base@ + seq!['/'] + tail@);
    }
}

} // verus!
