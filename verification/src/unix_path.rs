//! Slash-separated paths, held as text and read by their parts.
//!
//! Repeated slashes, trailing slashes and `.` parts (but for a leading one) do
//! not count: two texts with the same parts name the same path.

use vstd::prelude::*;

use crate::text;

verus! {

/// What a path says: whether it starts at the root, and its parts.
#[verifier::ext_equal]
pub ghost struct PathView {
    pub absolute: bool,
    pub parts: Seq<Seq<char>>,
}

/// The single dot.
pub open spec fn dot() -> Seq<char> {
    seq!['.']
}

/// The double dot.
pub open spec fn dot_dot() -> Seq<char> {
    seq!['.', '.']
}

/// Whether the piece at the end of `pieces` counts as a part: an empty piece
/// does not, and a single dot only as the first piece of all.
pub open spec fn counts(pieces: Seq<Seq<char>>) -> bool {
    pieces.last().len() > 0 && (pieces.last() == dot() ==> pieces.len() == 1)
}

/// The pieces that count, in order.
pub open spec fn counted(pieces: Seq<Seq<char>>) -> Seq<Seq<char>>
    decreases pieces.len(),
{
    if pieces.len() == 0 {
        Seq::empty()
    } else if counts(pieces) {
        counted(pieces.drop_last()).push(pieces.last())
    } else {
        counted(pieces.drop_last())
    }
}

/// Whether the text of a path starts with a slash.
pub open spec fn absolute(p: Seq<char>) -> bool {
    p.len() > 0 && p[0] == '/'
}

/// The path that a text names.
pub open spec fn path(p: Seq<char>) -> PathView {
    PathView { absolute: absolute(p), parts: counted(text::split(p, '/')) }
}

/// Whether a path starts at the root and has no `..` part.
pub open spec fn is_plain(p: PathView) -> bool {
    p.absolute && !p.parts.contains(dot_dot())
}

/// The path without its last part, where it has one.
pub open spec fn parent(p: PathView) -> Option<PathView> {
    if p.parts.len() == 0 {
        None
    } else {
        Some(PathView { parts: p.parts.drop_last(), ..p })
    }
}

/// The last part, where it is a name.
pub open spec fn file_name(p: PathView) -> Option<Seq<char>> {
    if p.parts.len() == 0 || p.parts.last() == dot() || p.parts.last() == dot_dot() {
        None
    } else {
        Some(p.parts.last())
    }
}

/// Whether `p` is `base` or stands beneath it.
pub open spec fn is_under(p: PathView, base: PathView) -> bool {
    p.absolute == base.absolute && base.parts.is_prefix_of(p.parts)
}

/// The text of `tail` taken relative to `base`: an absolute tail stands for
/// itself, any other comes behind the base and a slash.
pub open spec fn joined(base: Seq<char>, tail: Seq<char>) -> Seq<char> {
    if absolute(tail) || base.len() == 0 {
        tail
    } else if base.last() == '/' {
        base + tail
    } else {
        base.push('/') + tail
    }
}

/// Whether a text of a path starts with a slash.
pub fn is_absolute(p: &str) -> (r: bool)
    ensures
        r == absolute(p@),
{
    let v = text::to_chars(p);
    v.len() > 0 && v[0] == '/'
}

fn is_dot(s: &str) -> (r: bool)
    ensures
        r == (s@ == dot()),
{
    let v = text::to_chars(s);
    assert(v@.len() == 1 && v@[0] == '.' ==> v@ =~= dot());
    v.len() == 1 && v[0] == '.'
}

fn is_dot_dot(s: &str) -> (r: bool)
    ensures
        r == (s@ == dot_dot()),
{
    let v = text::to_chars(s);
    assert(v@.len() == 2 && v@[0] == '.' && v@[1] == '.' ==> v@ =~= dot_dot());
    v.len() == 2 && v[0] == '.' && v[1] == '.'
}

/// The parts of a path.
pub fn parts(p: &str) -> (out: Vec<String>)
    ensures
        text::texts(out@) == path(p@).parts,
{
    let pieces = text::split_char(p, '/');
    let ghost all = text::texts(pieces@);
    let mut out: Vec<String> = Vec::new();
    let mut i: usize = 0;
    assert(text::texts(out@) =~= counted(all.take(0)));
    while i < pieces.len()
        invariant
            i <= pieces@.len(),
            all == text::texts(pieces@),
            text::texts(out@) == counted(all.take(i as int)),
        decreases pieces@.len() - i,
    {
        let piece = &pieces[i];
        assert(all.take(i + 1).drop_last() == all.take(i as int));
        assert(all.take(i + 1).last() == piece@);
        let ghost before = text::texts(out@);
        if !piece.as_str().is_empty() && (i == 0 || !is_dot(piece.as_str())) {
            out.push(piece.clone());
            assert(text::texts(out@) =~= before.push(piece@));
        }
        i = i + 1;
    }
    assert(all.take(i as int) == all);
    out
}

/// Whether two lists hold the same texts in the same order.
pub fn same_texts(a: &Vec<String>, b: &Vec<String>) -> (r: bool)
    ensures
        r == (text::texts(a@) == text::texts(b@)),
{
    if a.len() != b.len() {
        assert(text::texts(a@).len() != text::texts(b@).len());
        return false;
    }
    let mut i: usize = 0;
    while i < a.len()
        invariant
            i <= a@.len(),
            a@.len() == b@.len(),
            forall|k: int| 0 <= k < i ==> (#[trigger] a@[k])@ == b@[k]@,
        decreases a@.len() - i,
    {
        if a[i] != b[i] {
            assert(text::texts(a@)[i as int] != text::texts(b@)[i as int]);
            return false;
        }
        i = i + 1;
    }
    assert(text::texts(a@) =~= text::texts(b@));
    true
}

/// Whether two texts name the same path.
pub fn same_path(a: &str, b: &str) -> (r: bool)
    ensures
        r == (path(a@) == path(b@)),
{
    let pa = parts(a);
    let pb = parts(b);
    is_absolute(a) == is_absolute(b) && same_texts(&pa, &pb)
}

/// Whether a path starts at the root and has no `..` part.
pub fn is_plain_path(p: &str) -> (r: bool)
    ensures
        r == is_plain(path(p@)),
{
    if !is_absolute(p) {
        return false;
    }
    let v = parts(p);
    let mut i: usize = 0;
    while i < v.len()
        invariant
            i <= v@.len(),
            forall|k: int| 0 <= k < i ==> (#[trigger] v@[k])@ != dot_dot(),
        decreases v@.len() - i,
    {
        if is_dot_dot(v[i].as_str()) {
            assert(text::texts(v@)[i as int] == dot_dot());
            return false;
        }
        i = i + 1;
    }
    assert forall|k: int| 0 <= k < text::texts(v@).len() implies text::texts(v@)[k]
        != dot_dot() by {
        assert(text::texts(v@)[k] == v@[k]@);
    }
    true
}

/// Whether the parent of a path is the given directory.
pub fn parent_is(p: &str, dir: &str) -> (r: bool)
    ensures
        r == (parent(path(p@)) == Some(path(dir@))),
{
    let mut v = parts(p);
    let d = parts(dir);
    if v.len() == 0 {
        assert(text::texts(v@).len() == 0);
        return false;
    }
    let ghost all = text::texts(v@);
    let _ = v.pop();
    assert(text::texts(v@) =~= all.drop_last());
    is_absolute(p) == is_absolute(dir) && same_texts(&v, &d)
}

/// The last part of a path, where it is a name.
pub fn file_name_of(p: &str) -> (r: Option<String>)
    ensures
        match r {
            Some(name) => file_name(path(p@)) == Some(name@),
            None => file_name(path(p@)) is None,
        },
{
    let v = parts(p);
    if v.len() == 0 {
        return None;
    }
    let last = v[v.len() - 1].clone();
    assert(text::texts(v@).last() == last@);
    if is_dot(last.as_str()) || is_dot_dot(last.as_str()) {
        None
    } else {
        Some(last)
    }
}

/// Whether a path is another or stands beneath it.
pub fn starts_with(p: &str, base: &str) -> (r: bool)
    ensures
        r == is_under(path(p@), path(base@)),
{
    if is_absolute(p) != is_absolute(base) {
        return false;
    }
    let v = parts(p);
    let b = parts(base);
    let ghost tv = text::texts(v@);
    let ghost tb = text::texts(b@);
    if b.len() > v.len() {
        return false;
    }
    let mut i: usize = 0;
    while i < b.len()
        invariant
            i <= b@.len() <= v@.len(),
            tv == text::texts(v@),
            tb == text::texts(b@),
            forall|k: int| 0 <= k < i ==> (#[trigger] v@[k])@ == b@[k]@,
        decreases b@.len() - i,
    {
        if v[i] != b[i] {
            assert(tv.subrange(0, tb.len() as int)[i as int] != tb[i as int]);
            return false;
        }
        i = i + 1;
    }
    assert(tv.subrange(0, tb.len() as int) =~= tb);
    true
}

/// The text of a path taken relative to a base.
pub fn join(base: &str, tail: &str) -> (out: String)
    ensures
        out@ == joined(base@, tail@),
{
    if is_absolute(tail) || base.is_empty() {
        return tail.to_owned();
    }
    let v = text::to_chars(base);
    let mut out = base.to_owned();
    if v[v.len() - 1] != '/' {
        out.push('/');
    }
    out.append(tail);
    out
}

/// Splitting a text with the separator behind it and a tail: the tail's pieces
/// come behind those of the text.
pub proof fn lemma_split_concat(a: Seq<char>, b: Seq<char>, sep: char)
    ensures
        text::split(a.push(sep) + b, sep) == text::split(a, sep) + text::split(b, sep),
    decreases b.len(),
{
    let whole = a.push(sep) + b;
    text::lemma_split_nonempty(b, sep);
    if b.len() == 0 {
        assert(whole.drop_last() == a);
        assert(whole.last() == sep);
        assert(text::split(whole, sep) =~= text::split(a, sep) + text::split(b, sep));
    } else {
        assert(whole.drop_last() == a.push(sep) + b.drop_last());
        assert(whole.last() == b.last());
        lemma_split_concat(a, b.drop_last(), sep);
        text::lemma_split_nonempty(b.drop_last(), sep);
        let sa = text::split(a, sep);
        let sb = text::split(b.drop_last(), sep);
        assert((sa + sb).drop_last() =~= sa + sb.drop_last());
        assert((sa + sb).last() == sb.last());
        assert(text::split(whole, sep) =~= sa + text::split(b, sep));
    }
}

/// A text without the separator is its own only piece.
pub proof fn lemma_split_single(s: Seq<char>, sep: char)
    requires
        !s.contains(sep),
    ensures
        text::split(s, sep) == seq![s],
    decreases s.len(),
{
    if s.len() > 0 {
        assert forall|i: int| 0 <= i < s.drop_last().len() implies s.drop_last()[i] != sep by {
            assert(s.contains(s[i]));
        }
        lemma_split_single(s.drop_last(), sep);
        assert(s.contains(s.last()));
        assert(s.drop_last().push(s.last()) == s);
        assert(text::split(s, sep) =~= seq![s]);
    } else {
        assert(s =~= Seq::empty());
    }
}

/// A name put behind a directory: the path's last part is the name and the
/// others are those of the directory.
pub proof fn lemma_join_name(dir: Seq<char>, name: Seq<char>)
    requires
        dir.len() > 0,
        dir.last() != '/',
        name.len() > 0,
        name != dot(),
        !name.contains('/'),
    ensures
        path(joined(dir, name)).absolute == absolute(dir),
        path(joined(dir, name)).parts == path(dir).parts.push(name),
{
    assert(name.contains(name[0]));
    let whole = joined(dir, name);
    lemma_split_concat(dir, name, '/');
    lemma_split_single(name, '/');
    text::lemma_split_nonempty(dir, '/');
    let pieces = text::split(whole, '/');
    assert(pieces =~= text::split(dir, '/').push(name));
    assert(pieces.drop_last() =~= text::split(dir, '/'));
    assert(whole[0] == dir[0]);
}

/// The pieces of a text are made of its characters.
proof fn lemma_piece_chars(s: Seq<char>, sep: char, i: int, c: char)
    requires
        0 <= i < text::split(s, sep).len(),
        text::split(s, sep)[i].contains(c),
    ensures
        s.contains(c),
    decreases s.len(),
{
    let pieces = text::split(s, sep);
    if s.len() > 0 {
        let front = s.drop_last();
        let before = text::split(front, sep);
        text::lemma_split_nonempty(front, sep);
        let k = choose|k: int| 0 <= k < pieces[i].len() && pieces[i][k] == c;
        if s.last() == sep {
            if i < before.len() {
                lemma_piece_chars(front, sep, i, c);
                let j = choose|j: int| 0 <= j < front.len() && front[j] == c;
                assert(s[j] == c);
            }
        } else if i < before.len() - 1 {
            lemma_piece_chars(front, sep, i, c);
            let j = choose|j: int| 0 <= j < front.len() && front[j] == c;
            assert(s[j] == c);
        } else if k < before.last().len() {
            assert(before[i][k] == c);
            lemma_piece_chars(front, sep, i, c);
            let j = choose|j: int| 0 <= j < front.len() && front[j] == c;
            assert(s[j] == c);
        } else {
            assert(s[s.len() - 1] == c);
        }
    }
}

/// Every part is one of the pieces.
proof fn lemma_counted_from(pieces: Seq<Seq<char>>, part: Seq<char>)
    requires
        counted(pieces).contains(part),
    ensures
        pieces.contains(part),
    decreases pieces.len(),
{
    if pieces.len() > 0 {
        let front = pieces.drop_last();
        if counts(pieces) && part == pieces.last() {
            assert(pieces[pieces.len() - 1] == part);
        } else {
            let all = counted(pieces);
            let k = choose|k: int| 0 <= k < all.len() && all[k] == part;
            if counts(pieces) {
                assert(counted(front)[k] == part);
            }
            lemma_counted_from(front, part);
            let j = choose|j: int| 0 <= j < front.len() && front[j] == part;
            assert(pieces[j] == part);
        }
    }
}

/// An absolute text without dots names a path without `..` parts.
pub proof fn lemma_plain_without_dots(p: Seq<char>)
    requires
        absolute(p),
        !p.contains('.'),
    ensures
        is_plain(path(p)),
{
    if path(p).parts.contains(dot_dot()) {
        let pieces = text::split(p, '/');
        lemma_counted_from(pieces, dot_dot());
        let i = choose|i: int| 0 <= i < pieces.len() && pieces[i] == dot_dot();
        assert(dot_dot()[0] == '.');
        assert(pieces[i].contains('.'));
        lemma_piece_chars(p, '/', i, '.');
    }
}

/// Whether a text can stand as a part of an absolute path.
pub open spec fn is_part(s: Seq<char>) -> bool {
    s.len() > 0 && s != dot() && !s.contains('/')
}

/// Each part behind a slash.
pub open spec fn slashed(parts: Seq<Seq<char>>) -> Seq<char>
    decreases parts.len(),
{
    if parts.len() == 0 {
        Seq::empty()
    } else {
        slashed(parts.drop_last()).push('/') + parts.last()
    }
}

/// The plain text of the absolute path with the given parts.
pub open spec fn rendered(parts: Seq<Seq<char>>) -> Seq<char> {
    if parts.len() == 0 {
        seq!['/']
    } else {
        slashed(parts)
    }
}

/// Writes the plain text of the absolute path with the given parts.
pub fn render(list: &Vec<String>) -> (out: String)
    ensures
        out@ == rendered(text::texts(list@)),
{
    let mut out = String::new();
    if list.len() == 0 {
        out.push('/');
        assert(out@ =~= seq!['/']);
        return out;
    }
    let ghost all = text::texts(list@);
    let mut i: usize = 0;
    assert(slashed(all.take(0)) =~= out@);
    while i < list.len()
        invariant
            i <= list@.len(),
            all == text::texts(list@),
            out@ == slashed(all.take(i as int)),
        decreases list@.len() - i,
    {
        out.push('/');
        out.append(list[i].as_str());
        assert(all.take(i + 1).drop_last() == all.take(i as int));
        i = i + 1;
    }
    assert(all.take(i as int) == all);
    out
}

/// The plain text of an absolute path names that path.
pub proof fn lemma_rendered(parts: Seq<Seq<char>>)
    requires
        forall|i: int| 0 <= i < parts.len() ==> is_part(#[trigger] parts[i]),
    ensures
        path(rendered(parts)) == (PathView { absolute: true, parts }),
        parts.len() > 0 ==> rendered(parts).last() != '/',
    decreases parts.len(),
{
    reveal_with_fuel(counted, 3);
    if parts.len() == 0 {
        let s: Seq<char> = seq!['/'];
        assert(s.drop_last() =~= Seq::empty());
        assert(text::split(Seq::<char>::empty(), '/') =~= seq![Seq::<char>::empty()]);
        let pieces = text::split(s, '/');
        assert(pieces =~= seq![Seq::<char>::empty(), Seq::<char>::empty()]);
        assert(pieces.drop_last() =~= seq![Seq::<char>::empty()]);
        assert(pieces.drop_last().drop_last() =~= Seq::empty());
        assert(counted(pieces) =~= parts);
    } else {
        let front = parts.drop_last();
        let name = parts.last();
        assert(is_part(parts[parts.len() - 1]));
        assert forall|i: int| 0 <= i < front.len() implies is_part(#[trigger] front[i]) by {
            assert(is_part(parts[i]));
        }
        lemma_rendered(front);
        assert(name.contains(name.last()));
        let whole = rendered(parts);
        let base = slashed(front);
        assert(whole == base.push('/') + name);
        lemma_split_concat(base, name, '/');
        lemma_split_single(name, '/');
        text::lemma_split_nonempty(base, '/');
        let pieces = text::split(whole, '/');
        assert(pieces =~= text::split(base, '/').push(name));
        assert(pieces.drop_last() =~= text::split(base, '/'));
        if front.len() == 0 {
            assert(base =~= Seq::empty());
            assert(text::split(base, '/') =~= seq![Seq::<char>::empty()]);
            assert(text::split(base, '/').drop_last() =~= Seq::empty());
            assert(counted(text::split(base, '/')) =~= Seq::empty());
        }
        assert(counted(pieces) =~= parts);
        assert(whole[0] == '/') by {
            if front.len() > 0 {
                assert(base[0] == '/');
            }
        }
    }
}

proof fn lemma_pieces_lack_separator(s: Seq<char>, sep: char, i: int)
    requires
        0 <= i < text::split(s, sep).len(),
    ensures
        !text::split(s, sep)[i].contains(sep),
    decreases s.len(),
{
    if s.len() > 0 {
        let front = s.drop_last();
        let before = text::split(front, sep);
        text::lemma_split_nonempty(front, sep);
        if s.last() == sep {
            if i < before.len() {
                lemma_pieces_lack_separator(front, sep, i);
            }
        } else {
            lemma_pieces_lack_separator(front, sep, i);
            if i == before.len() - 1 {
                let piece = text::split(s, sep)[i];
                if piece.contains(sep) {
                    let k = choose|k: int| 0 <= k < piece.len() && piece[k] == sep;
                    assert(before[i][k] == sep);
                }
            }
        }
    }
}

proof fn lemma_counted_are_parts(pieces: Seq<Seq<char>>, i: int)
    requires
        0 <= i < counted(pieces).len(),
        pieces.len() > 0 ==> pieces[0].len() == 0,
        forall|k: int| 0 <= k < pieces.len() ==> !(#[trigger] pieces[k]).contains('/'),
    ensures
        is_part(counted(pieces)[i]),
    decreases pieces.len(),
{
    if pieces.len() > 0 {
        let front = pieces.drop_last();
        assert forall|k: int| 0 <= k < front.len() implies !(#[trigger] front[k]).contains(
            '/',
        ) by {
            assert(!pieces[k].contains('/'));
        }
        if front.len() > 0 {
            assert(front[0] == pieces[0]);
        }
        if counts(pieces) && i == counted(front).len() {
            assert(!pieces[pieces.len() - 1].contains('/'));
        } else {
            lemma_counted_are_parts(front, i);
        }
    }
}

proof fn lemma_first_piece(s: Seq<char>)
    requires
        absolute(s),
    ensures
        text::split(s, '/')[0].len() == 0,
        text::split(s, '/').len() >= 2,
    decreases s.len(),
{
    if s.len() == 1 {
        assert(s.drop_last() =~= Seq::empty());
    } else {
        lemma_first_piece(s.drop_last());
    }
}

/// The parts of an absolute path can stand as parts.
pub proof fn lemma_parts_are_parts(p: Seq<char>, i: int)
    requires
        absolute(p),
        0 <= i < path(p).parts.len(),
    ensures
        is_part(path(p).parts[i]),
{
    let pieces = text::split(p, '/');
    lemma_first_piece(p);
    assert forall|k: int| 0 <= k < pieces.len() implies !(#[trigger] pieces[k]).contains('/') by {
        lemma_pieces_lack_separator(p, '/', k);
    }
    lemma_counted_are_parts(pieces, i);
}

/// A text that is its own only part holds no slash.
pub proof fn lemma_single_part(s: Seq<char>)
    requires
        path(s).parts == seq![s],
    ensures
        !s.contains('/'),
{
    let pieces = text::split(s, '/');
    assert(path(s).parts[0] == s);
    lemma_counted_from(pieces, s);
    let i = choose|i: int| 0 <= i < pieces.len() && pieces[i] == s;
    lemma_pieces_lack_separator(s, '/', i);
}

/// Whether texts can stand as the parts of a relative path.
pub open spec fn are_relative_parts(parts: Seq<Seq<char>>) -> bool {
    forall|i: int|
        0 <= i < parts.len() ==> (#[trigger] parts[i]).len() > 0 && !parts[i].contains('/') && (i
            > 0 ==> parts[i] != dot())
}

proof fn lemma_counted_relative(pieces: Seq<Seq<char>>)
    requires
        pieces.len() > 0 ==> pieces[0].len() > 0,
        forall|k: int| 0 <= k < pieces.len() ==> !(#[trigger] pieces[k]).contains('/'),
    ensures
        are_relative_parts(counted(pieces)),
        pieces.len() > 0 ==> counted(pieces).len() > 0,
    decreases pieces.len(),
{
    if pieces.len() > 0 {
        let front = pieces.drop_last();
        assert forall|k: int| 0 <= k < front.len() implies !(#[trigger] front[k]).contains(
            '/',
        ) by {
            assert(!pieces[k].contains('/'));
        }
        if front.len() > 0 {
            assert(front[0] == pieces[0]);
        }
        lemma_counted_relative(front);
        assert(!pieces[pieces.len() - 1].contains('/'));
        let all = counted(pieces);
        assert forall|i: int| 0 <= i < all.len() implies (#[trigger] all[i]).len() > 0
            && !all[i].contains('/') && (i > 0 ==> all[i] != dot()) by {
            if i < counted(front).len() {
                assert(all[i] == counted(front)[i]);
            }
        }
    }
}

/// The parts of a relative path can stand as the parts of one.
pub proof fn lemma_relative_parts(p: Seq<char>)
    requires
        !absolute(p),
        path(p).parts.len() > 0,
    ensures
        are_relative_parts(path(p).parts),
{
    let pieces = text::split(p, '/');
    assert forall|k: int| 0 <= k < pieces.len() implies !(#[trigger] pieces[k]).contains('/') by {
        lemma_pieces_lack_separator(p, '/', k);
    }
    if p.len() == 0 {
        reveal_with_fuel(counted, 2);
        assert(pieces =~= seq![Seq::<char>::empty()]);
    } else {
        lemma_relative_first_piece(p);
        text::lemma_split_nonempty(p, '/');
        lemma_counted_relative(pieces);
    }
}

proof fn lemma_relative_first_piece(s: Seq<char>)
    requires
        s.len() > 0,
        s[0] != '/',
    ensures
        text::split(s, '/')[0].len() > 0,
    decreases s.len(),
{
    let front = s.drop_last();
    text::lemma_split_nonempty(front, '/');
    if front.len() == 0 {
        assert(front =~= Seq::empty());
        assert(text::split(front, '/') =~= seq![Seq::<char>::empty()]);
        assert(s.last() == s[0]);
    } else {
        lemma_relative_first_piece(front);
    }
}

/// Parts with slashes between them name the relative path with these parts.
pub proof fn lemma_rendered_relative(parts: Seq<Seq<char>>)
    requires
        parts.len() > 0,
        are_relative_parts(parts),
    ensures
        path(text::joined(parts, "/"@)) == (PathView { absolute: false, parts }),
        text::joined(parts, "/"@).len() > 0,
    decreases parts.len(),
{
    reveal_strlit("/");
    reveal_with_fuel(counted, 2);
    let whole = text::joined(parts, "/"@);
    let name = parts.last();
    assert(!parts[parts.len() - 1].contains('/') && parts[parts.len() - 1].len() > 0);
    lemma_split_single(name, '/');
    if parts.len() == 1 {
        assert(whole == name);
        assert(parts =~= seq![name]);
        let pieces = text::split(whole, '/');
        assert(pieces.drop_last() =~= Seq::empty());
        assert(counted(pieces) =~= parts);
        assert(name.contains(name[0]));
    } else {
        let front = parts.drop_last();
        assert(are_relative_parts(front)) by {
            assert forall|i: int| 0 <= i < front.len() implies (#[trigger] front[i]).len() > 0
                && !front[i].contains('/') && (i > 0 ==> front[i] != dot()) by {
                assert(front[i] == parts[i]);
            }
        }
        lemma_rendered_relative(front);
        let base = text::joined(front, "/"@);
        assert(whole =~= base.push('/') + name);
        lemma_split_concat(base, name, '/');
        text::lemma_split_nonempty(base, '/');
        let pieces = text::split(whole, '/');
        assert(pieces =~= text::split(base, '/').push(name));
        assert(pieces.drop_last() =~= text::split(base, '/'));
        assert(parts[parts.len() - 1] != dot());
        assert(counted(pieces) =~= front.push(name));
        assert(front.push(name) =~= parts);
        assert(whole[0] == base[0]);
    }
}

/// Every character of a text that is not a separator stands in one of its
/// pieces.
proof fn lemma_char_in_piece(s: Seq<char>, sep: char, i: int)
    requires
        0 <= i < s.len(),
        s[i] != sep,
    ensures
        exists|k: int|
            0 <= k < text::split(s, sep).len() && (#[trigger] text::split(s, sep)[k]).contains(
                s[i],
            ),
    decreases s.len(),
{
    let front = s.drop_last();
    let before = text::split(front, sep);
    let pieces = text::split(s, sep);
    text::lemma_split_nonempty(front, sep);
    if i == s.len() - 1 {
        let k = before.len() - 1;
        assert(pieces[k] == before.last().push(s.last()));
        assert(pieces[k][before.last().len() as int] == s[i]);
        assert(pieces[k].contains(s[i]));
    } else {
        assert(front[i] == s[i]);
        lemma_char_in_piece(front, sep, i);
        let k = choose|k: int| 0 <= k < before.len() && (#[trigger] before[k]).contains(front[i]);
        let j = choose|j: int| 0 <= j < before[k].len() && before[k][j] == front[i];
        assert(pieces[k][j] == s[i]);
        assert(pieces[k].contains(s[i]));
    }
}

/// A piece that holds something else than dots is one of the parts.
proof fn lemma_counted_holds(pieces: Seq<Seq<char>>, k: int, c: char)
    requires
        0 <= k < pieces.len(),
        pieces[k].contains(c),
        c != '.',
    ensures
        counted(pieces).contains(pieces[k]),
    decreases pieces.len(),
{
    let front = pieces.drop_last();
    let all = counted(pieces);
    if k == pieces.len() - 1 {
        assert(pieces[k] != dot()) by {
            if pieces[k] == dot() {
                let j = choose|j: int| 0 <= j < dot().len() && dot()[j] == c;
                assert(dot()[0] == '.');
            }
        }
        assert(all[all.len() - 1] == pieces[k]);
    } else {
        assert(front[k] == pieces[k]);
        lemma_counted_holds(front, k, c);
        let j = choose|j: int| 0 <= j < counted(front).len() && counted(front)[j] == pieces[k];
        assert(all[j] == pieces[k]);
    }
}

/// Two texts that name one path hold the same characters, but for slashes and
/// dots.
pub proof fn lemma_same_path_chars(p: Seq<char>, q: Seq<char>, i: int)
    requires
        path(p) == path(q),
        0 <= i < p.len(),
        p[i] != '/',
        p[i] != '.',
    ensures
        q.contains(p[i]),
{
    let c = p[i];
    let mine = text::split(p, '/');
    let others = text::split(q, '/');
    lemma_char_in_piece(p, '/', i);
    let k = choose|k: int| 0 <= k < mine.len() && (#[trigger] mine[k]).contains(c);
    lemma_counted_holds(mine, k, c);
    lemma_counted_from(others, mine[k]);
    let j = choose|j: int| 0 <= j < others.len() && others[j] == mine[k];
    lemma_piece_chars(q, '/', j, c);
}

} // verus!
