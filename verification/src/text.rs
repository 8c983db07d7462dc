//! Text primitives: characters, splitting, trimming, joining and digits.
//!
//! Every function is stated over the sequence of characters that a string
//! holds, written `s@`.

use vstd::prelude::*;

verus! {

/// `String::push` appends one character to the end of the string.
pub assume_specification[ String::push ](s: &mut String, c: char)
    ensures
        final(s)@ == old(s)@.push(c),
;

/// The characters of each string of a list.
pub open spec fn texts(list: Seq<String>) -> Seq<Seq<char>> {
    list.map_values(|s: String| s@)
}

/// The characters of a string that may be missing.
pub open spec fn opt(s: Option<String>) -> Option<Seq<char>> {
    match s {
        Some(t) => Some(t@),
        None => None,
    }
}

/// The characters of a string, in order.
pub fn to_chars(s: &str) -> (out: Vec<char>)
    ensures
        out@ == s@,
{
    let mut out: Vec<char> = Vec::new();
    for c in it: s.chars()
        invariant
            it.seq() == s@,
            out@ == s@.take(it.index() as int),
    {
        out.push(c);
        assert(s@.take(it.index() as int + 1) == s@.take(it.index() as int).push(c));
    }
    assert(s@.take(s@.len() as int) == s@);
    out
}

/// The string with the characters of the half-open range `from..to`.
pub fn from_chars_range(chars: &Vec<char>, from: usize, to: usize) -> (out: String)
    requires
        from <= to <= chars@.len(),
    ensures
        out@ == chars@.subrange(from as int, to as int),
{
    let mut out = String::new();
    let mut i: usize = from;
    while i < to
        invariant
            from <= i <= to <= chars@.len(),
            out@ == chars@.subrange(from as int, i as int),
        decreases to - i,
    {
        out.push(chars[i]);
        i = i + 1;
        assert(chars@.subrange(from as int, i as int) == chars@.subrange(from as int, i - 1).push(
            chars@[i - 1],
        ));
    }
    out
}

/// Whether two strings hold the same characters.
pub fn same(a: &str, b: &str) -> (r: bool)
    ensures
        r == (a@ == b@),
{
    a.to_owned() == b.to_owned()
}

/// The number of bytes of a text in UTF-8.
pub open spec fn utf8_len(s: Seq<char>) -> nat {
    vstd::utf8::encode_utf8(s).len()
}

/// The number of bytes of a text in UTF-8.
pub fn byte_len(s: &str) -> (n: usize)
    ensures
        n as nat == utf8_len(s@),
{
    let bytes = s.as_bytes();
    bytes.len()
}

/// An owned copy of a list of strings.
pub fn copy_texts(list: &Vec<String>) -> (out: Vec<String>)
    ensures
        out@ == list@,
{
    let mut out: Vec<String> = Vec::new();
    let mut i: usize = 0;
    while i < list.len()
        invariant
            i <= list@.len(),
            out@ == list@.take(i as int),
        decreases list@.len() - i,
    {
        out.push(list[i].clone());
        i = i + 1;
        assert(list@.take(i as int) == list@.take(i - 1).push(list@[i - 1]));
    }
    assert(list@.take(i as int) == list@);
    out
}

/// Whether a list of strings holds a string.
pub fn contains_text(list: &Vec<String>, s: &str) -> (r: bool)
    ensures
        r == texts(list@).contains(s@),
{
    let mut i: usize = 0;
    while i < list.len()
        invariant
            i <= list@.len(),
            forall|j: int| 0 <= j < i ==> (#[trigger] list@[j])@ != s@,
        decreases list@.len() - i,
    {
        if same(list[i].as_str(), s) {
            assert(texts(list@)[i as int] == s@);
            return true;
        }
        i = i + 1;
    }
    assert forall|j: int| 0 <= j < texts(list@).len() implies texts(list@)[j] != s@ by {
        assert(texts(list@)[j] == list@[j]@);
    }
    false
}

/// Whether a text begins with a prefix.
pub fn starts_with(s: &str, prefix: &str) -> (r: bool)
    ensures
        r == prefix@.is_prefix_of(s@),
{
    let s = to_chars(s);
    let p = to_chars(prefix);
    if p.len() > s.len() {
        return false;
    }
    let mut i: usize = 0;
    while i < p.len()
        invariant
            i <= p@.len() <= s@.len(),
            forall|j: int| 0 <= j < i ==> p@[j] == s@[j],
        decreases p@.len() - i,
    {
        if p[i] != s[i] {
            assert(s@.subrange(0, p@.len() as int)[i as int] == s@[i as int]);
            return false;
        }
        i = i + 1;
    }
    assert(p@ == s@.subrange(0, p@.len() as int));
    true
}

/// Whether a text ends with a suffix.
pub fn ends_with(s: &str, suffix: &str) -> (r: bool)
    ensures
        r == suffix@.is_suffix_of(s@),
{
    let s = to_chars(s);
    let p = to_chars(suffix);
    if p.len() > s.len() {
        return false;
    }
    let d: usize = s.len() - p.len();
    let mut i: usize = 0;
    while i < p.len()
        invariant
            i <= p@.len(),
            d + p@.len() == s@.len(),
            forall|j: int| 0 <= j < i ==> p@[j] == s@[d + j],
        decreases p@.len() - i,
    {
        if p[i] != s[d + i] {
            assert(s@.subrange(d as int, s@.len() as int)[i as int] == s@[d + i]);
            return false;
        }
        i = i + 1;
    }
    assert(p@ == s@.subrange(d as int, s@.len() as int));
    true
}

/// Whether a text holds a character.
pub fn contains_char(s: &str, c: char) -> (r: bool)
    ensures
        r == s@.contains(c),
{
    let v = to_chars(s);
    let mut i: usize = 0;
    while i < v.len()
        invariant
            i <= v@.len(),
            forall|k: int| 0 <= k < i ==> v@[k] != c,
        decreases v@.len() - i,
    {
        if v[i] == c {
            assert(v@[i as int] == c);
            return true;
        }
        i = i + 1;
    }
    false
}

/// Whether `sub` stands in `s` at position `i`.
pub open spec fn occurs_at(s: Seq<char>, sub: Seq<char>, i: int) -> bool {
    &&& 0 <= i
    &&& i + sub.len() <= s.len()
    &&& s.subrange(i, i + sub.len()) == sub
}

/// Whether `sub` stands somewhere in `s`.
pub open spec fn occurs(s: Seq<char>, sub: Seq<char>) -> bool {
    exists|i: int| occurs_at(s, sub, i)
}

fn range_matches(s: &Vec<char>, sub: &Vec<char>, at: usize) -> (r: bool)
    requires
        at + sub@.len() <= s@.len(),
    ensures
        r == occurs_at(s@, sub@, at as int),
{
    let end: usize = s.len();
    let mut j: usize = 0;
    while j < sub.len()
        invariant
            j <= sub@.len(),
            at + sub@.len() <= end,
            forall|k: int| 0 <= k < j ==> sub@[k] == s@[at + k],
        decreases sub@.len() - j,
    {
        if s[at + j] != sub[j] {
            assert(s@.subrange(at as int, at + sub@.len())[j as int] == s@[at + j]);
            return false;
        }
        j = j + 1;
    }
    assert(s@.subrange(at as int, at + sub@.len()) == sub@);
    true
}

/// Whether `sub` stands somewhere in `s`.
pub fn contains(s: &str, sub: &str) -> (r: bool)
    ensures
        r == occurs(s@, sub@),
{
    let s = to_chars(s);
    let sub = to_chars(sub);
    let mut i: usize = 0;
    while i <= s.len() && sub.len() <= s.len() - i
        invariant
            i <= s@.len() + 1,
            forall|k: int| 0 <= k < i ==> !occurs_at(s@, sub@, k),
        decreases s@.len() + 1 - i,
    {
        if range_matches(&s, &sub, i) {
            return true;
        }
        if i == s.len() {
            return false;
        }
        i = i + 1;
    }
    false
}

/// The parts of a text between occurrences of a separator. A text without the
/// separator is one part; the empty text is one empty part.
pub open spec fn split(s: Seq<char>, sep: char) -> Seq<Seq<char>>
    decreases s.len(),
{
    if s.len() == 0 {
        seq![Seq::empty()]
    } else {
        let before = split(s.drop_last(), sep);
        if s.last() == sep {
            before.push(Seq::empty())
        } else {
            before.drop_last().push(before.last().push(s.last()))
        }
    }
}

pub proof fn lemma_split_nonempty(s: Seq<char>, sep: char)
    ensures
        split(s, sep).len() >= 1,
    decreases s.len(),
{
    if s.len() > 0 {
        lemma_split_nonempty(s.drop_last(), sep);
    }
}

/// Splits a text at every occurrence of a separator.
pub fn split_char(s: &str, sep: char) -> (out: Vec<String>)
    ensures
        texts(out@) == split(s@, sep),
        out@.len() >= 1,
{
    let v = to_chars(s);
    let mut out: Vec<String> = Vec::new();
    let mut cur = String::new();
    let mut i: usize = 0;
    assert(texts(out@).push(cur@) == split(v@.take(0), sep));
    while i < v.len()
        invariant
            i <= v@.len(),
            texts(out@).push(cur@) == split(v@.take(i as int), sep),
        decreases v@.len() - i,
    {
        let ghost before = texts(out@);
        let c = v[i];
        assert(v@.take(i + 1).drop_last() == v@.take(i as int));
        assert(before.push(cur@).drop_last() == before);
        if c == sep {
            out.push(cur);
            cur = String::new();
            assert(texts(out@) == before.push(out@.last()@));
        } else {
            cur.push(c);
        }
        i = i + 1;
    }
    assert(v@.take(i as int) == v@);
    let ghost before = texts(out@);
    out.push(cur);
    assert(texts(out@) == before.push(out@.last()@));
    out
}

/// The texts of a list one after the other with a separator between them.
pub open spec fn joined(list: Seq<Seq<char>>, sep: Seq<char>) -> Seq<char>
    decreases list.len(),
{
    if list.len() == 0 {
        Seq::empty()
    } else if list.len() == 1 {
        list[0]
    } else {
        joined(list.drop_last(), sep) + sep + list.last()
    }
}

/// Joins a list of strings with a separator.
pub fn join(list: &Vec<String>, sep: &str) -> (out: String)
    ensures
        out@ == joined(texts(list@), sep@),
{
    if list.len() == 0 {
        return String::new();
    }
    let mut out = list[0].clone();
    let mut i: usize = 1;
    while i < list.len()
        invariant
            1 <= i <= list@.len(),
            out@ == joined(texts(list@).take(i as int), sep@),
        decreases list@.len() - i,
    {
        out.append(sep);
        out.append(list[i].as_str());
        assert(texts(list@).take(i + 1).drop_last() == texts(list@).take(i as int));
        i = i + 1;
    }
    assert(texts(list@).take(i as int) == texts(list@));
    out
}

/// The text without the leading characters that satisfy `p`.
pub open spec fn trim_front(s: Seq<char>, p: spec_fn(char) -> bool) -> Seq<char>
    decreases s.len(),
{
    if s.len() > 0 && p(s[0]) {
        trim_front(s.skip(1), p)
    } else {
        s
    }
}

/// The text without the trailing characters that satisfy `p`.
pub open spec fn trim_back(s: Seq<char>, p: spec_fn(char) -> bool) -> Seq<char>
    decreases s.len(),
{
    if s.len() > 0 && p(s.last()) {
        trim_back(s.drop_last(), p)
    } else {
        s
    }
}

/// The text without the leading and trailing characters that satisfy `p`.
pub open spec fn trim_both(s: Seq<char>, p: spec_fn(char) -> bool) -> Seq<char> {
    trim_back(trim_front(s, p), p)
}

pub proof fn lemma_trim_front(s: Seq<char>, p: spec_fn(char) -> bool, k: int)
    requires
        0 <= k <= s.len(),
        forall|j: int| 0 <= j < k ==> p(#[trigger] s[j]),
        k < s.len() ==> !p(s[k]),
    ensures
        trim_front(s, p) == s.skip(k),
    decreases s.len(),
{
    if k == 0 {
        assert(s.skip(0) == s);
    } else {
        assert forall|j: int| 0 <= j < k - 1 implies p(#[trigger] s.skip(1)[j]) by {
            assert(s.skip(1)[j] == s[j + 1]);
        }
        assert(p(s[0]));
        lemma_trim_front(s.skip(1), p, k - 1);
        assert(s.skip(1).skip(k - 1) == s.skip(k));
    }
}

pub proof fn lemma_trim_back(s: Seq<char>, p: spec_fn(char) -> bool, k: int)
    requires
        0 <= k <= s.len(),
        forall|j: int| k <= j < s.len() ==> p(#[trigger] s[j]),
        k > 0 ==> !p(s[k - 1]),
    ensures
        trim_back(s, p) == s.take(k),
    decreases s.len(),
{
    if k == s.len() {
        assert(s.take(k) == s);
    } else {
        assert(p(s[s.len() - 1]));
        lemma_trim_back(s.drop_last(), p, k);
        assert(s.drop_last().take(k) == s.take(k));
    }
}

/// The characters of the Unicode property `White_Space`.
pub open spec fn is_white(c: char) -> bool {
    let n = c as u32;
    ||| 0x9 <= n <= 0xD
    ||| n == 0x20
    ||| n == 0x85
    ||| n == 0xA0
    ||| n == 0x1680
    ||| 0x2000 <= n <= 0x200A
    ||| n == 0x2028
    ||| n == 0x2029
    ||| n == 0x202F
    ||| n == 0x205F
    ||| n == 0x3000
}

/// Whether a character is white space.
pub fn is_whitespace(c: char) -> (r: bool)
    ensures
        r == is_white(c),
{
    let n: u32 = c as u32;
    (0x9 <= n && n <= 0xD) || n == 0x20 || n == 0x85 || n == 0xA0 || n == 0x1680 || (0x2000 <= n
        && n <= 0x200A) || n == 0x2028 || n == 0x2029 || n == 0x202F || n == 0x205F || n == 0x3000
}

/// The text without leading and trailing white space.
pub open spec fn trimmed(s: Seq<char>) -> Seq<char> {
    trim_both(s, |c: char| is_white(c))
}

/// Trims white space on both sides.
pub fn trim(s: &str) -> (out: String)
    ensures
        out@ == trimmed(s@),
{
    let v = to_chars(s);
    let mut from: usize = 0;
    while from < v.len() && is_whitespace(v[from])
        invariant
            from <= v@.len(),
            forall|j: int| 0 <= j < from ==> is_white(#[trigger] v@[j]),
        decreases v@.len() - from,
    {
        from = from + 1;
    }
    let mut to: usize = v.len();
    while to > from && is_whitespace(v[to - 1])
        invariant
            from <= to <= v@.len(),
            forall|j: int| to <= j < v@.len() ==> is_white(#[trigger] v@[j]),
        decreases to - from,
    {
        to = to - 1;
    }
    proof {
        let p = |c: char| is_white(c);
        lemma_trim_front(v@, p, from as int);
        let m = v@.skip(from as int);
        assert forall|j: int| to - from <= j < m.len() implies p(#[trigger] m[j]) by {
            assert(m[j] == v@[from + j]);
        }
        lemma_trim_back(m, p, to - from);
        assert(m.take(to - from) == v@.subrange(from as int, to as int));
    }
    from_chars_range(&v, from, to)
}

/// Trims one character on both sides.
pub fn trim_char(s: &str, edge: char) -> (out: String)
    ensures
        out@ == trim_both(s@, |c: char| c == edge),
{
    let v = to_chars(s);
    let mut from: usize = 0;
    while from < v.len() && v[from] == edge
        invariant
            from <= v@.len(),
            forall|j: int| 0 <= j < from ==> #[trigger] v@[j] == edge,
        decreases v@.len() - from,
    {
        from = from + 1;
    }
    let mut to: usize = v.len();
    while to > from && v[to - 1] == edge
        invariant
            from <= to <= v@.len(),
            forall|j: int| to <= j < v@.len() ==> #[trigger] v@[j] == edge,
        decreases to - from,
    {
        to = to - 1;
    }
    proof {
        let p = |c: char| c == edge;
        lemma_trim_front(v@, p, from as int);
        let m = v@.skip(from as int);
        assert forall|j: int| to - from <= j < m.len() implies p(#[trigger] m[j]) by {
            assert(m[j] == v@[from + j]);
        }
        lemma_trim_back(m, p, to - from);
        assert(m.take(to - from) == v@.subrange(from as int, to as int));
    }
    from_chars_range(&v, from, to)
}

/// ASCII letters and digits.
pub open spec fn is_alnum(c: char) -> bool {
    is_lower(c) || is_upper(c) || is_digit(c)
}

/// Lower-case ASCII letters.
pub open spec fn is_lower(c: char) -> bool {
    'a' <= c <= 'z'
}

/// Upper-case ASCII letters.
pub open spec fn is_upper(c: char) -> bool {
    'A' <= c <= 'Z'
}

/// ASCII decimal digits.
pub open spec fn is_digit(c: char) -> bool {
    '0' <= c <= '9'
}

/// The lower-case form of an upper-case ASCII letter; any other character
/// itself.
pub open spec fn lower(c: char) -> char {
    if is_upper(c) {
        ((c as u32 + 32) as u32) as char
    } else {
        c
    }
}

/// The ASCII lower-case form of a character.
pub fn to_lower(c: char) -> (r: char)
    ensures
        r == lower(c),
{
    if 'A' <= c && c <= 'Z' {
        ((c as u8) + 32) as char
    } else {
        c
    }
}

/// Whether a character is an ASCII letter or digit.
pub fn is_ascii_alnum(c: char) -> (r: bool)
    ensures
        r == is_alnum(c),
{
    ('a' <= c && c <= 'z') || ('A' <= c && c <= 'Z') || ('0' <= c && c <= '9')
}

/// The decimal digit with a value below ten.
pub open spec fn digit(n: int) -> char {
    ((48 + n) as u8) as char
}

/// The decimal digits of a natural number, without leading zeros.
pub open spec fn decimal(n: nat) -> Seq<char>
    decreases n,
{
    if n < 10 {
        seq![digit(n as int)]
    } else {
        decimal(n / 10).push(digit((n % 10) as int))
    }
}

/// Writes a number in decimal.
pub fn decimal_u64(n: u64) -> (out: String)
    ensures
        out@ == decimal(n as nat),
{
    decimal_u128(n as u128)
}

/// The decimal digits of a number, behind a minus sign where it is negative.
pub open spec fn signed_decimal(n: int) -> Seq<char> {
    if n < 0 {
        seq!['-'] + decimal((-n) as nat)
    } else {
        decimal(n as nat)
    }
}

/// Writes a number that may be negative in decimal.
pub fn decimal_i32(n: i32) -> (out: String)
    ensures
        out@ == signed_decimal(n as int),
{
    if n < 0 {
        let mut out = String::new();
        out.push('-');
        let digits = decimal_u128((-(n as i64)) as u128);
        out.append(digits.as_str());
        assert(out@ =~= signed_decimal(n as int));
        out
    } else {
        decimal_u128(n as u128)
    }
}

/// Writes a number in decimal.
pub fn decimal_u128(n: u128) -> (out: String)
    ensures
        out@ == decimal(n as nat),
    decreases n,
{
    let d: u8 = 48 + (n % 10) as u8;
    let mut out = if n < 10 {
        String::new()
    } else {
        decimal_u128(n / 10)
    };
    out.push(d as char);
    assert(n < 10 ==> Seq::<char>::empty().push(digit(n as int)) == seq![digit(n as int)]);
    out
}

/// The digits of a natural number in base eight, without leading zeros.
pub open spec fn octal(n: nat) -> Seq<char>
    decreases n,
{
    if n < 8 {
        seq![digit(n as int)]
    } else {
        octal(n / 8).push(digit((n % 8) as int))
    }
}

/// Writes a number in base eight.
pub fn octal_u32(n: u32) -> (out: String)
    ensures
        out@ == octal(n as nat),
    decreases n,
{
    let d: u8 = 48 + (n % 8) as u8;
    let mut out = if n < 8 {
        String::new()
    } else {
        octal_u32(n / 8)
    };
    out.push(d as char);
    assert(n < 8 ==> Seq::<char>::empty().push(digit(n as int)) == seq![digit(n as int)]);
    out
}

/// The text with zeros in front up to a width.
pub open spec fn zero_padded(s: Seq<char>, width: nat) -> Seq<char>
{
    if s.len() >= width {
        s
    } else {
        Seq::new((width - s.len()) as nat, |i: int| '0') + s
    }
}

/// Puts zeros in front of a text up to a width.
pub fn zero_pad(s: &str, width: usize) -> (out: String)
    ensures
        out@ == zero_padded(s@, width as nat),
{
    let n: usize = s.unicode_len();
    let mut out = String::new();
    let missing: usize = if n >= width { 0 } else { width - n };
    let mut i: usize = 0;
    while i < missing
        invariant
            i <= missing,
            out@ == Seq::new(i as nat, |k: int| '0'),
        decreases missing - i,
    {
        out.push('0');
        i = i + 1;
        assert(out@ =~= Seq::new(i as nat, |k: int| '0'));
    }
    out.append(s);
    assert(missing == 0 ==> out@ =~= s@);
    out
}

/// The lower-case hexadecimal digit with a value below sixteen.
pub open spec fn hex_digit(n: int) -> char {
    if n < 10 {
        digit(n)
    } else {
        ((87 + n) as u8) as char
    }
}

/// The two lower-case hexadecimal digits of each byte, in order.
pub open spec fn hex(bytes: Seq<u8>) -> Seq<char>
    decreases bytes.len(),
{
    if bytes.len() == 0 {
        Seq::empty()
    } else {
        hex(bytes.drop_last()).push(hex_digit(bytes.last() as int / 16)).push(
            hex_digit(bytes.last() as int % 16),
        )
    }
}

fn push_hex_digit(out: &mut String, n: u8)
    requires
        n < 16,
    ensures
        final(out)@ == old(out)@.push(hex_digit(n as int)),
{
    let d: u8 = if n < 10 { 48 + n } else { 87 + n };
    out.push(d as char);
}

/// Writes bytes as lower-case hexadecimal digits.
pub fn hex_bytes(bytes: &Vec<u8>) -> (out: String)
    ensures
        out@ == hex(bytes@),
{
    let mut out = String::new();
    let mut i: usize = 0;
    while i < bytes.len()
        invariant
            i <= bytes@.len(),
            out@ == hex(bytes@.take(i as int)),
        decreases bytes@.len() - i,
    {
        push_hex_digit(&mut out, bytes[i] / 16);
        push_hex_digit(&mut out, bytes[i] % 16);
        assert(bytes@.take(i + 1).drop_last() == bytes@.take(i as int));
        i = i + 1;
    }
    assert(bytes@.take(i as int) == bytes@);
    out
}

pub proof fn lemma_hex_len(bytes: Seq<u8>)
    ensures
        hex(bytes).len() == 2 * bytes.len(),
        forall|i: int| 0 <= i < hex(bytes).len() ==> is_lower_hex(#[trigger] hex(bytes)[i]),
    decreases bytes.len(),
{
    if bytes.len() > 0 {
        lemma_hex_len(bytes.drop_last());
    }
}

/// A lower-case hexadecimal digit.
pub open spec fn is_lower_hex(c: char) -> bool {
    is_digit(c) || 'a' <= c <= 'f'
}

/// Whether every character is a decimal digit.
pub open spec fn all_digits(s: Seq<char>) -> bool {
    forall|i: int| 0 <= i < s.len() ==> is_digit(#[trigger] s[i])
}

/// The value of a sequence of decimal digits.
pub open spec fn decimal_value(s: Seq<char>) -> nat
    decreases s.len(),
{
    if s.len() == 0 {
        0
    } else {
        decimal_value(s.drop_last()) * 10 + (s.last() as nat - 48) as nat
    }
}

/// The number that a text stands for: decimal digits, at least one, behind an
/// optional plus sign, with a value up to `max`.
pub open spec fn parsed_decimal(s: Seq<char>, max: nat) -> Option<nat> {
    let digits = if s.len() > 0 && s[0] == '+' {
        s.skip(1)
    } else {
        s
    };
    if digits.len() > 0 && all_digits(digits) && decimal_value(digits) <= max {
        Some(decimal_value(digits))
    } else {
        None
    }
}

proof fn lemma_decimal_value_grows(s: Seq<char>, k: int)
    requires
        0 <= k <= s.len(),
    ensures
        decimal_value(s.take(k)) <= decimal_value(s),
    decreases s.len() - k,
{
    if k < s.len() {
        assert(s.take(k + 1).drop_last() == s.take(k));
        lemma_decimal_value_grows(s, k + 1);
    } else {
        assert(s.take(k) == s);
    }
}

/// Reads a number written in decimal.
pub fn parse_decimal(s: &str, max: u64) -> (r: Option<u64>)
    ensures
        match r {
            Some(n) => parsed_decimal(s@, max as nat) == Some(n as nat),
            None => parsed_decimal(s@, max as nat) is None,
        },
{
    match parse_decimal_u128(s, max as u128) {
        Some(n) => Some(n as u64),
        None => None,
    }
}

/// Reads a number written in decimal.
pub fn parse_decimal_u128(s: &str, max: u128) -> (r: Option<u128>)
    ensures
        match r {
            Some(n) => parsed_decimal(s@, max as nat) == Some(n as nat),
            None => parsed_decimal(s@, max as nat) is None,
        },
{
    let v = to_chars(s);
    let from: usize = if v.len() > 0 && v[0] == '+' { 1 } else { 0 };
    let ghost digits = v@.skip(from as int);
    assert(from == 0 ==> digits == v@);
    if v.len() == from {
        return None;
    }
    let mut value: u128 = 0;
    let mut i: usize = from;
    while i < v.len()
        invariant
            from <= i <= v@.len(),
            value <= max,
            value == decimal_value(digits.take(i - from)),
            forall|k: int| 0 <= k < i - from ==> is_digit(#[trigger] digits[k]),
        decreases v@.len() - i,
    {
        let c = v[i];
        assert(digits[i - from] == c);
        if !('0' <= c && c <= '9') {
            assert(!is_digit(digits[i - from]));
            return None;
        }
        let d: u128 = ((c as u8) - 48) as u128;
        assert(digits.take(i - from + 1).drop_last() == digits.take(i - from));
        assert(decimal_value(digits.take(i - from + 1)) == value * 10 + d);
        proof {
            lemma_decimal_value_grows(digits, i - from + 1);
        }
        if value > (u128::MAX - d) / 10 {
            assert(value * 10 + d > u128::MAX);
            return None;
        }
        value = value * 10 + d;
        if value > max {
            return None;
        }
        i = i + 1;
    }
    assert(digits.take(i - from) == digits);
    Some(value)
}

/// A text without a carriage return at its end.
pub open spec fn without_return(s: Seq<char>) -> Seq<char> {
    if s.len() > 0 && s.last() == '\r' {
        s.drop_last()
    } else {
        s
    }
}

/// The lines of a text. A line ends with a line feed, or a carriage return and a
/// line feed, or the end of the text.
pub open spec fn lines(s: Seq<char>) -> Seq<Seq<char>> {
    let parts = split(s, '\n');
    let ended = parts.drop_last().map_values(|l: Seq<char>| without_return(l));
    if parts.last().len() == 0 {
        ended
    } else {
        ended.push(parts.last())
    }
}

fn drop_return(s: &String) -> (out: String)
    ensures
        out@ == without_return(s@),
{
    let v = to_chars(s.as_str());
    if v.len() > 0 && v[v.len() - 1] == '\r' {
        assert(v@.subrange(0, v@.len() - 1) =~= v@.drop_last());
        from_chars_range(&v, 0, v.len() - 1)
    } else {
        s.clone()
    }
}

/// Splits a text into its lines.
pub fn split_lines(s: &str) -> (out: Vec<String>)
    ensures
        texts(out@) == lines(s@),
{
    let parts = split_char(s, '\n');
    let ghost all = split(s@, '\n');
    let ghost ended = all.drop_last().map_values(|l: Seq<char>| without_return(l));
    let mut out: Vec<String> = Vec::new();
    let last: usize = parts.len() - 1;
    let mut i: usize = 0;
    while i < last
        invariant
            i <= last,
            last + 1 == parts@.len(),
            all == texts(parts@),
            ended == all.drop_last().map_values(|l: Seq<char>| without_return(l)),
            texts(out@) == ended.take(i as int),
        decreases last - i,
    {
        let ghost before = texts(out@);
        let line = drop_return(&parts[i]);
        out.push(line);
        assert(texts(out@) =~= before.push(line@));
        i = i + 1;
        assert(ended.take(i as int) =~= before.push(ended[i - 1]));
    }
    assert(ended.take(last as int) =~= ended);
    assert(all.last() == parts@[last as int]@);
    if !parts[last].as_str().is_empty() {
        let line = parts[last].clone();
        out.push(line);
        assert(texts(out@) =~= ended.push(line@));
    }
    out
}

/// The longest runs of characters that are not white space.
pub open spec fn words(s: Seq<char>) -> Seq<Seq<char>>
    decreases s.len(),
{
    if s.len() == 0 {
        Seq::empty()
    } else {
        let before = words(s.drop_last());
        if is_white(s.last()) {
            before
        } else if s.len() == 1 || is_white(s[s.len() - 2]) {
            before.push(seq![s.last()])
        } else {
            before.drop_last().push(before.last().push(s.last()))
        }
    }
}

/// Splits a text at white space.
pub fn split_words(s: &str) -> (out: Vec<String>)
    ensures
        texts(out@) == words(s@),
{
    let v = to_chars(s);
    let mut out: Vec<String> = Vec::new();
    let mut cur = String::new();
    let mut inside = false;
    let mut i: usize = 0;
    assert(texts(out@) =~= words(v@.take(0)));
    while i < v.len()
        invariant
            i <= v@.len(),
            inside == (i > 0 && !is_white(v@[i - 1])),
            inside ==> texts(out@).push(cur@) == words(v@.take(i as int)),
            !inside ==> texts(out@) == words(v@.take(i as int)),
            !inside ==> cur@.len() == 0,
        decreases v@.len() - i,
    {
        let c = v[i];
        let ghost before = texts(out@);
        let ghost next = v@.take(i + 1);
        assert(next.drop_last() =~= v@.take(i as int));
        assert(before.push(cur@).drop_last() =~= before);
        if is_whitespace(c) {
            if inside {
                out.push(cur);
                cur = String::new();
                assert(texts(out@) =~= before.push(out@.last()@));
            }
            inside = false;
        } else {
            cur.push(c);
            assert(!inside ==> cur@ =~= seq![c]);
            inside = true;
            assert(texts(out@).push(cur@) =~= words(next));
        }
        i = i + 1;
    }
    assert(v@.take(i as int) =~= v@);
    if inside {
        let ghost before = texts(out@);
        out.push(cur);
        assert(texts(out@) =~= before.push(out@.last()@));
    }
    out
}

/// The decimal digits of a number have that value.
pub proof fn lemma_decimal_value(n: nat)
    ensures
        decimal(n).len() > 0,
        all_digits(decimal(n)),
        decimal_value(decimal(n)) == n,
    decreases n,
{
    reveal_with_fuel(decimal_value, 2);
    if n < 10 {
        assert(decimal(n).drop_last() =~= Seq::empty());
        assert(decimal(n).last() == digit(n as int));
    } else {
        lemma_decimal_value(n / 10);
        assert(decimal(n).drop_last() =~= decimal(n / 10));
        assert(decimal(n).last() == digit((n % 10) as int));
    }
}

/// A number within the limit is read back from its decimal digits.
pub proof fn lemma_parsed_decimal(n: nat, max: nat)
    requires
        n <= max,
    ensures
        parsed_decimal(decimal(n), max) == Some(n),
{
    lemma_decimal_value(n);
    assert(is_digit(decimal(n)[0]));
}

} // verus!
