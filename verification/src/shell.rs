//! Quoting words for POSIX shells.

use vstd::prelude::*;

use crate::text;

verus! {

/// A character that stands for itself in a shell word.
pub open spec fn is_safe_atom(c: char) -> bool {
    text::is_alnum(c) || c == '/' || c == '.' || c == '_' || c == '-' || c == ':' || c == '@'
}

/// Whether a text is made of characters that stand for themselves.
pub open spec fn is_plain_word(s: Seq<char>) -> bool {
    forall|i: int| 0 <= i < s.len() ==> is_safe_atom(#[trigger] s[i])
}

/// A character as it stands in a quoted word: an apostrophe closes the quotes,
/// stands in double quotes, and opens them again.
pub open spec fn escaped_char(c: char) -> Seq<char> {
    if c == '\'' {
        seq!['\'', '"', '\'', '"', '\'']
    } else {
        seq![c]
    }
}

/// A text as it stands between the quotes.
pub open spec fn escaped(s: Seq<char>) -> Seq<char>
    decreases s.len(),
{
    if s.len() == 0 {
        Seq::empty()
    } else {
        escaped_char(s[0]) + escaped(s.skip(1))
    }
}

/// A text as one shell word.
pub open spec fn quoted(s: Seq<char>) -> Seq<char> {
    if s.len() == 0 {
        seq!['\'', '\'']
    } else if is_plain_word(s) {
        s
    } else {
        seq!['\''] + escaped(s) + seq!['\'']
    }
}

proof fn lemma_escaped_push(s: Seq<char>, c: char)
    ensures
        escaped(s.push(c)) == escaped(s) + escaped_char(c),
    decreases s.len(),
{
    if s.len() == 0 {
        assert(s.push(c).skip(1) =~= Seq::empty());
        assert(escaped(s.push(c).skip(1)) =~= Seq::empty());
        assert(escaped(s.push(c)) =~= escaped_char(c));
        assert(escaped(s) + escaped_char(c) =~= escaped_char(c));
    } else {
        assert(s.push(c).skip(1) =~= s.skip(1).push(c));
        lemma_escaped_push(s.skip(1), c);
        assert(escaped(s.push(c)) =~= escaped(s) + escaped_char(c));
    }
}

fn is_safe_atom_char(c: char) -> (r: bool)
    ensures
        r == is_safe_atom(c),
{
    text::is_ascii_alnum(c) || c == '/' || c == '.' || c == '_' || c == '-' || c == ':' || c == '@'
}

/// Quotes a text as one shell word, where it needs quotes.
pub fn shell_quote(value: &str) -> (out: String)
    ensures
        out@ == quoted(value@),
{
    let v = text::to_chars(value);
    let mut out = String::new();
    if v.len() == 0 {
        out.push('\'');
        out.push('\'');
        assert(out@ =~= seq!['\'', '\'']);
        return out;
    }
    let mut plain = true;
    let mut i: usize = 0;
    while i < v.len()
        invariant
            i <= v@.len(),
            plain == forall|k: int| 0 <= k < i ==> is_safe_atom(#[trigger] v@[k]),
        decreases v@.len() - i,
    {
        if !is_safe_atom_char(v[i]) {
            assert(!is_safe_atom(v@[i as int]));
            plain = false;
        }
        i = i + 1;
    }
    if plain {
        return value.to_owned();
    }
    out.push('\'');
    let mut i: usize = 0;
    assert(out@ =~= seq!['\''] + escaped(v@.take(0)));
    while i < v.len()
        invariant
            i <= v@.len(),
            out@ == seq!['\''] + escaped(v@.take(i as int)),
        decreases v@.len() - i,
    {
        let c = v[i];
        proof {
            lemma_escaped_push(v@.take(i as int), c);
            assert(v@.take(i + 1) =~= v@.take(i as int).push(c));
        }
        if c == '\'' {
            out.push('\'');
            out.push('"');
            out.push('\'');
            out.push('"');
            out.push('\'');
        } else {
            out.push(c);
        }
        assert(out@ =~= seq!['\''] + escaped(v@.take(i + 1)));
        i = i + 1;
    }
    assert(v@.take(i as int) =~= v@);
    out.push('\'');
    assert(out@ =~= quoted(v@));
    out
}

/// The command that has a login shell run a script.
pub fn bash_command(shell_body: &str) -> (out: String)
    ensures
        out@ == "bash -lc "@ + quoted(shell_body@),
{
    let word = shell_quote(shell_body);
    "bash -lc ".to_owned().concat(word.as_str())
}

/// How a shell reads a character of a word.
pub ghost enum Quoting {
    Plain,
    Single,
    Double,
}

/// A character with the rest of a word behind it, where the rest can be read.
pub open spec fn with_front(c: char, rest: Option<Seq<char>>) -> Option<Seq<char>> {
    match rest {
        Some(s) => Some(seq![c] + s),
        None => None,
    }
}

/// What a shell takes a word to be. Outside of quotes only characters that stand
/// for themselves are taken, and in double quotes only those that are not
/// special there.
pub open spec fn shell_reads(s: Seq<char>, quoting: Quoting) -> Option<Seq<char>>
    decreases s.len(),
{
    if s.len() == 0 {
        if quoting is Plain {
            Some(Seq::empty())
        } else {
            None
        }
    } else {
        let c = s[0];
        let rest = s.skip(1);
        match quoting {
            Quoting::Plain => if c == '\'' {
                shell_reads(rest, Quoting::Single)
            } else if c == '"' {
                shell_reads(rest, Quoting::Double)
            } else if is_safe_atom(c) {
                with_front(c, shell_reads(rest, Quoting::Plain))
            } else {
                None
            },
            Quoting::Single => if c == '\'' {
                shell_reads(rest, Quoting::Plain)
            } else {
                with_front(c, shell_reads(rest, Quoting::Single))
            },
            Quoting::Double => if c == '"' {
                shell_reads(rest, Quoting::Plain)
            } else if c == '$' || c == '`' || c == '\\' || c == '!' {
                None
            } else {
                with_front(c, shell_reads(rest, Quoting::Double))
            },
        }
    }
}

proof fn lemma_plain_reads(s: Seq<char>)
    requires
        is_plain_word(s),
    ensures
        shell_reads(s, Quoting::Plain) == Some(s),
    decreases s.len(),
{
    if s.len() > 0 {
        assert(is_safe_atom(s[0]));
        assert forall|i: int| 0 <= i < s.skip(1).len() implies is_safe_atom(
            #[trigger] s.skip(1)[i],
        ) by {
            assert(s.skip(1)[i] == s[i + 1]);
        }
        lemma_plain_reads(s.skip(1));
        assert(seq![s[0]] + s.skip(1) =~= s);
    } else {
        assert(s =~= Seq::empty());
    }
}

proof fn lemma_escaped_reads(s: Seq<char>)
    ensures
        shell_reads(escaped(s) + seq!['\''], Quoting::Single) == Some(s),
    decreases s.len(),
{
    reveal_with_fuel(shell_reads, 7);
    let whole = escaped(s) + seq!['\''];
    if s.len() == 0 {
        assert(whole =~= seq!['\'']);
        assert(whole.skip(1) =~= Seq::empty());
        assert(s =~= Seq::empty());
    } else {
        let rest = escaped(s.skip(1)) + seq!['\''];
        lemma_escaped_reads(s.skip(1));
        assert(seq![s[0]] + s.skip(1) =~= s);
        if s[0] == '\'' {
            assert(whole.skip(1).skip(1).skip(1).skip(1).skip(1) =~= rest);
            assert(whole[0] == '\'' && whole.skip(1)[0] == '"' && whole.skip(1).skip(1)[0] == '\''
                && whole.skip(1).skip(1).skip(1)[0] == '"' && whole.skip(1).skip(1).skip(1).skip(
                1,
            )[0] == '\'');
        } else {
            assert(whole[0] == s[0]);
            assert(whole.skip(1) =~= rest);
        }
    }
}

/// A shell takes a quoted text to be exactly that text, as one word, whatever
/// characters it holds.
pub proof fn law_shell_reads_quoted_text(s: Seq<char>)
    ensures
        shell_reads(quoted(s), Quoting::Plain) == Some(s),
{
    if s.len() == 0 {
        reveal_with_fuel(shell_reads, 4);
        let q = quoted(s);
        assert(q.skip(1) =~= seq!['\'']);
        assert(q.skip(1).skip(1) =~= Seq::empty());
        assert(s =~= Seq::empty());
    } else if is_plain_word(s) {
        lemma_plain_reads(s);
    } else {
        lemma_escaped_reads(s);
        let q = quoted(s);
        assert(q.skip(1) =~= escaped(s) + seq!['\'']);
        assert(q[0] == '\'');
    }
}

} // verus!
