//! What splitting, joining, trimming and numbering keep of a text.

use vstd::prelude::*;

use crate::text;
use crate::text::{decimal, joined, split, trim_both, words};

verus! {

/// The pieces of a text, joined again with the separator, are the text; no piece
/// holds the separator.
pub proof fn law_pieces_join_to_the_text(s: Seq<char>, sep: char)
    ensures
        joined(split(s, sep), seq![sep]) == s,
        forall|i: int| 0 <= i < split(s, sep).len() ==> !(#[trigger] split(s, sep)[i]).contains(sep),
    decreases s.len(),
{
    let pieces = split(s, sep);
    if s.len() == 0 {
        assert(joined(pieces, seq![sep]) =~= s);
    } else {
        let front = s.drop_last();
        let before = split(front, sep);
        law_pieces_join_to_the_text(front, sep);
        text::lemma_split_nonempty(front, sep);
        if s.last() == sep {
            assert(pieces.drop_last() =~= before);
            assert(joined(pieces, seq![sep]) =~= s);
        } else {
            let last = before.last().push(s.last());
            assert(pieces.drop_last() =~= before.drop_last());
            assert(pieces.last() == last);
            if before.len() == 1 {
                assert(joined(before, seq![sep]) == before[0]);
                assert(joined(pieces, seq![sep]) =~= s);
            } else {
                let rest = joined(before.drop_last(), seq![sep]) + seq![sep];
                assert(joined(before, seq![sep]) == rest + before.last());
                assert(joined(pieces, seq![sep]) == rest + last);
                assert(rest + last =~= (rest + before.last()).push(s.last()));
                assert(front.push(s.last()) =~= s);
            }
            assert(!last.contains(sep)) by {
                if last.contains(sep) {
                    let i = choose|i: int| 0 <= i < last.len() && last[i] == sep;
                    assert(before[before.len() - 1].contains(sep));
                }
            }
            assert forall|i: int| 0 <= i < pieces.len() implies !(#[trigger] pieces[i]).contains(
                sep,
            ) by {
                if i < before.len() - 1 {
                    assert(pieces[i] == before[i]);
                }
            }
        }
    }
}

/// A trimmed text is the text without what is trimmed at its ends: neither end of
/// it is trimmed further, and nothing else is lost.
pub proof fn law_trimming_takes_only_the_ends(s: Seq<char>, p: spec_fn(char) -> bool)
    ensures
        ({
            let t = trim_both(s, p);
            &&& t.len() > 0 ==> !p(t[0]) && !p(t.last())
            &&& exists|i: int, j: int|
                {
                    &&& 0 <= i <= j <= s.len()
                    &&& t == #[trigger] s.subrange(i, j)
                    &&& forall|k: int| 0 <= k < i ==> p(#[trigger] s[k])
                    &&& forall|k: int| j <= k < s.len() ==> p(#[trigger] s[k])
                }
        }),
{
    lemma_front(s, p);
    let a = text::trim_front(s, p);
    lemma_back(a, p);
    let i = s.len() - a.len();
    let t = text::trim_back(a, p);
    let j = i + t.len();
    assert(t =~= s.subrange(i, j));
    assert forall|k: int| j <= k < s.len() implies p(#[trigger] s[k]) by {
        assert(p(a[k - i]));
    }
    if t.len() > 0 {
        assert(t[0] == a[0]);
    }
}

proof fn lemma_front(s: Seq<char>, p: spec_fn(char) -> bool)
    ensures
        ({
            let a = text::trim_front(s, p);
            &&& a.len() <= s.len()
            &&& a == s.skip(s.len() - a.len())
            &&& a.len() > 0 ==> !p(a[0])
            &&& forall|k: int| 0 <= k < s.len() - a.len() ==> p(#[trigger] s[k])
        }),
    decreases s.len(),
{
    if s.len() > 0 && p(s[0]) {
        let tail = s.skip(1);
        lemma_front(tail, p);
        let a = text::trim_front(tail, p);
        assert(a =~= s.skip(s.len() - a.len()));
        assert forall|k: int| 0 <= k < s.len() - a.len() implies p(#[trigger] s[k]) by {
            if k > 0 {
                assert(p(tail[k - 1]));
            }
        }
    } else {
        assert(s.skip(0) =~= s);
    }
}

proof fn lemma_back(s: Seq<char>, p: spec_fn(char) -> bool)
    ensures
        ({
            let a = text::trim_back(s, p);
            &&& a.len() <= s.len()
            &&& a == s.take(a.len() as int)
            &&& a.len() > 0 ==> !p(a.last())
            &&& forall|k: int| a.len() <= k < s.len() ==> p(#[trigger] s[k])
        }),
    decreases s.len(),
{
    if s.len() > 0 && p(s.last()) {
        let front = s.drop_last();
        lemma_back(front, p);
        let a = text::trim_back(front, p);
        assert(a =~= s.take(a.len() as int));
        assert forall|k: int| a.len() <= k < s.len() implies p(#[trigger] s[k]) by {
            if k < front.len() {
                assert(p(front[k]));
            }
        }
    } else {
        assert(s.take(s.len() as int) =~= s);
    }
}

/// A text that holds no white space is one word, and white space parts words.
pub proof fn law_white_space_parts_words(a: Seq<char>, white: char, b: Seq<char>)
    requires
        text::is_white(white),
    ensures
        words(a.push(white) + b) == words(a) + words(b),
        a.len() > 0 && (forall|i: int| 0 <= i < a.len() ==> !text::is_white(#[trigger] a[i]))
            ==> words(a) == seq![a],
        (forall|i: int| 0 <= i < a.len() ==> text::is_white(#[trigger] a[i])) ==> words(a).len()
            == 0,
    decreases b.len(),
{
    let whole = a.push(white) + b;
    if a.len() > 0 && (forall|i: int| 0 <= i < a.len() ==> !text::is_white(#[trigger] a[i])) {
        lemma_one_word(a);
    }
    if forall|i: int| 0 <= i < a.len() ==> text::is_white(#[trigger] a[i]) {
        lemma_no_word(a);
    }
    if b.len() == 0 {
        assert(whole =~= a.push(white));
        assert(whole.drop_last() =~= a);
        assert(words(a) + words(b) =~= words(a));
    } else {
        let front = b.drop_last();
        law_white_space_parts_words(a, white, front);
        assert(whole.drop_last() =~= a.push(white) + front);
        assert(whole.last() == b.last());
        if !text::is_white(b.last()) {
            if b.len() == 1 {
                assert(whole[whole.len() - 2] == white);
                assert(words(front) =~= Seq::empty());
                assert(words(whole) =~= words(a) + words(b));
            } else {
                assert(whole[whole.len() - 2] == b[b.len() - 2]);
                if !text::is_white(b[b.len() - 2]) {
                    lemma_word_open(front);
                }
                assert(words(whole) =~= words(a) + words(b));
            }
        }
    }
}

proof fn lemma_word_open(s: Seq<char>)
    requires
        s.len() > 0,
        !text::is_white(s.last()),
    ensures
        words(s).len() > 0,
{
}

proof fn lemma_one_word(s: Seq<char>)
    requires
        s.len() > 0,
        forall|i: int| 0 <= i < s.len() ==> !text::is_white(#[trigger] s[i]),
    ensures
        words(s) == seq![s],
    decreases s.len(),
{
    let front = s.drop_last();
    assert(!text::is_white(s[s.len() - 1]));
    if s.len() == 1 {
        assert(front =~= Seq::empty());
        assert(words(front) == Seq::<Seq<char>>::empty());
        assert(seq![s.last()] =~= s);
        assert(words(s) =~= seq![s]);
    } else {
        assert forall|i: int| 0 <= i < front.len() implies !text::is_white(#[trigger] front[i]) by {
            assert(!text::is_white(s[i]));
        }
        assert(!text::is_white(s[s.len() - 2]));
        lemma_one_word(front);
        assert(front.push(s.last()) =~= s);
        assert(words(s) =~= seq![s]);
    }
}

proof fn lemma_no_word(s: Seq<char>)
    requires
        forall|i: int| 0 <= i < s.len() ==> text::is_white(#[trigger] s[i]),
    ensures
        words(s).len() == 0,
    decreases s.len(),
{
    if s.len() > 0 {
        let front = s.drop_last();
        assert forall|i: int| 0 <= i < front.len() implies text::is_white(#[trigger] front[i]) by {
            assert(text::is_white(s[i]));
        }
        lemma_no_word(front);
        assert(text::is_white(s[s.len() - 1]));
    }
}

/// A number's decimal digits are read back as the number, and have no leading
/// zero but for zero itself; so two numbers with the same digits are the same.
pub proof fn law_numbers_are_read_back(n: nat, m: nat)
    ensures
        text::parsed_decimal(decimal(n), n) == Some(n),
        n > 0 ==> decimal(n)[0] != '0',
        decimal(n) == decimal(m) ==> n == m,
    decreases n,
{
    text::lemma_parsed_decimal(n, n);
    text::lemma_decimal_value(n);
    text::lemma_decimal_value(m);
    if n >= 10 {
        law_numbers_are_read_back(n / 10, m);
        text::lemma_decimal_value(n / 10);
        assert(decimal(n)[0] == decimal(n / 10)[0]);
    }
}

/// Bytes in hexadecimal have two digits each, and two byte sequences with the same
/// digits are the same.
pub proof fn law_bytes_are_told_by_their_digits(a: Seq<u8>, b: Seq<u8>)
    ensures
        text::hex(a).len() == 2 * a.len(),
        text::hex(a) == text::hex(b) ==> a == b,
{
    text::lemma_hex_len(a);
    if text::hex(a) == text::hex(b) {
        crate::managed::protocol::lemma_hex_injective(a, b);
    }
}

/// A small letter is the one that stands for a capital, and every other character
/// stands for itself; so making small letters twice changes nothing more.
pub proof fn law_only_capitals_are_made_small(c: char, small: char, again: char)
    requires
        call_ensures(text::to_lower, (c,), small),
        call_ensures(text::to_lower, (small,), again),
    ensures
        'A' <= c <= 'Z' ==> 'a' <= small <= 'z' && small as u32 == c as u32 + 32,
        !('A' <= c <= 'Z') ==> small == c,
        again == small,
{
}

/// No line holds a line feed, and a text is made of its lines: each line that is
/// ended adds one, whether the last is ended or not.
pub proof fn law_a_line_feed_ends_a_line(a: Seq<char>, line: Seq<char>)
    requires
        a.len() == 0 || a.last() == '\n',
        line.len() > 0,
        !line.contains('\n'),
        line.last() != '\r',
    ensures
        text::lines(a + line) == text::lines(a).push(line),
        text::lines((a + line).push('\n')) == text::lines(a).push(line),
        text::lines((a + line).push('\r').push('\n')) == text::lines(a).push(line),
{
    let whole = a + line;
    lemma_last_line(a, line);
    let parts = text::split(whole, '\n');
    let ended = text::split(whole.push('\n'), '\n');
    assert(whole.push('\n').drop_last() =~= whole);
    assert(ended == parts.push(Seq::empty()));
    assert(ended.drop_last() =~= parts);
    let before = text::split(a, '\n');
    assert(parts.drop_last() =~= before.drop_last());
    assert(parts.last() == line);
    let f = |l: Seq<char>| text::without_return(l);
    assert(text::without_return(line) == line);
    assert(parts.map_values(f) =~= parts.drop_last().map_values(f).push(line));
    lemma_last_piece(a);
    assert(text::lines(a) =~= before.drop_last().map_values(f));
    assert(text::lines(whole) =~= text::lines(a).push(line));
    assert(text::lines(whole.push('\n')) =~= text::lines(a).push(line));
    let returned = line.push('\r');
    assert(!returned.contains('\n')) by {
        assert forall|i: int| 0 <= i < returned.len() implies returned[i] != '\n' by {
            if i < line.len() {
                assert(line.contains(line[i]));
            }
        }
    }
    lemma_last_line(a, returned);
    assert(a + returned =~= whole.push('\r'));
    let with_return = text::split(whole.push('\r'), '\n');
    let both = text::split(whole.push('\r').push('\n'), '\n');
    assert(whole.push('\r').push('\n').drop_last() =~= whole.push('\r'));
    assert(both.drop_last() =~= with_return);
    assert(with_return.drop_last() =~= before.drop_last());
    assert(with_return.last() == returned);
    assert(returned.drop_last() =~= line);
    assert(text::without_return(returned) == line);
    assert(with_return.map_values(f) =~= with_return.drop_last().map_values(f).push(line));
    assert(text::lines(whole.push('\r').push('\n')) =~= text::lines(a).push(line));
}

proof fn lemma_last_piece(a: Seq<char>)
    requires
        a.len() == 0 || a.last() == '\n',
    ensures
        text::split(a, '\n').len() > 0,
        text::split(a, '\n').last().len() == 0,
{
}

proof fn lemma_last_line(a: Seq<char>, line: Seq<char>)
    requires
        a.len() == 0 || a.last() == '\n',
        !line.contains('\n'),
    ensures
        text::split(a + line, '\n') == text::split(a, '\n').drop_last().push(line),
    decreases line.len(),
{
    lemma_last_piece(a);
    let before = text::split(a, '\n');
    if line.len() == 0 {
        assert(a + line =~= a);
        assert(before.drop_last().push(line) =~= before) by {
            assert(before.last() =~= line);
        }
    } else {
        let shorter = line.drop_last();
        assert forall|i: int| 0 <= i < shorter.len() implies shorter[i] != '\n' by {
            assert(line[i] == shorter[i]);
            assert(line.contains(line[i]));
        }
        assert(!shorter.contains('\n'));
        lemma_last_line(a, shorter);
        assert((a + line).drop_last() =~= a + shorter);
        assert((a + line).last() == line.last());
        assert(line.contains(line.last()));
        let parts = before.drop_last().push(shorter);
        assert(parts.drop_last() =~= before.drop_last());
        assert(shorter.push(line.last()) =~= line);
    }
}

/// A text is found in another where something stands before it and something
/// behind it, and what is found stands so.
pub proof fn law_a_part_is_found(front: Seq<char>, part: &str, back: Seq<char>, whole: &str, r: bool)
    requires
        call_ensures(text::contains, (whole, part), r),
    ensures
        whole@ == front + part@ + back ==> r,
        r ==> exists|i: int|
            0 <= i <= whole@.len() - part@.len() && #[trigger] whole@.subrange(i, i + part@.len())
                == part@,
{
    if whole@ == front + part@ + back {
        let n = front.len() as int;
        assert(whole@.subrange(n, n + part@.len()) =~= part@);
        assert(text::occurs_at(whole@, part@, n));
    }
    if r {
        let i = choose|i: int| text::occurs_at(whole@, part@, i);
        assert(whole@.subrange(i, i + part@.len()) == part@);
    }
}

/// The value of a hexadecimal digit, or of none.
pub open spec fn nibble(c: char) -> int {
    if '0' <= c <= '9' {
        c as int - 48
    } else if 'a' <= c <= 'f' {
        c as int - 97 + 10
    } else {
        -1
    }
}

/// Each byte is told by two hexadecimal digits, in small letters, the higher one
/// first.
pub proof fn law_bytes_are_read_from_their_digits(bytes: Vec<u8>, out: String, i: int)
    requires
        call_ensures(text::hex_bytes, (&bytes,), out),
        0 <= i < bytes@.len(),
    ensures
        out@.len() == 2 * bytes@.len(),
        nibble(out@[2 * i]) * 16 + nibble(out@[2 * i + 1]) == bytes@[i],
        0 <= nibble(out@[2 * i]) < 16,
        0 <= nibble(out@[2 * i + 1]) < 16,
{
    lemma_digits_of_byte(bytes@, i);
}

proof fn lemma_nibble(n: int)
    requires
        0 <= n < 16,
    ensures
        nibble(text::hex_digit(n)) == n,
{
}

proof fn lemma_digits_of_byte(bytes: Seq<u8>, i: int)
    requires
        0 <= i < bytes.len(),
    ensures
        text::hex(bytes).len() == 2 * bytes.len(),
        nibble(text::hex(bytes)[2 * i]) == bytes[i] as int / 16,
        nibble(text::hex(bytes)[2 * i + 1]) == bytes[i] as int % 16,
    decreases bytes.len(),
{
    let before = bytes.drop_last();
    text::lemma_hex_len(before);
    text::lemma_hex_len(bytes);
    if i < before.len() {
        lemma_digits_of_byte(before, i);
    } else {
        lemma_nibble(bytes.last() as int / 16);
        lemma_nibble(bytes.last() as int % 16);
    }
}

/// Among the characters of ASCII, white space is the space and what stands from
/// the tab to the carriage return.
pub proof fn law_white_space_is_blank(c: char, white: bool)
    requires
        call_ensures(text::is_whitespace, (c,), white),
    ensures
        c as u32 <= 0x7f ==> (white <==> c == ' ' || c == '\t' || c == '\n' || c == '\u{b}' || c
            == '\u{c}' || c == '\r'),
        c == '\u{a0}' || c == '\u{2003}' || c == '\u{2028}' || c == '\u{3000}' ==> white,
        text::is_alnum(c) ==> !white,
{
}

} // verus!
