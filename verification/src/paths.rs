//! The directories of a tool.

use vstd::prelude::*;

use crate::text;
use crate::unix_path;

verus! {

/// A character of a tool's directory name: ASCII letters in lower case, digits,
/// hyphens and underscores as they are, anything else as a hyphen.
pub open spec fn component_char(c: char) -> char {
    if text::is_alnum(c) || c == '-' || c == '_' {
        text::lower(c)
    } else {
        '-'
    }
}

/// The directory name of a tool: its characters made safe, without hyphens at
/// the ends, or `tool` where nothing is left.
pub open spec fn component(value: Seq<char>) -> Seq<char> {
    let trimmed = text::trim_both(
        value.map_values(|c: char| component_char(c)),
        |c: char| c == '-',
    );
    if trimmed.len() == 0 {
        "tool"@
    } else {
        trimmed
    }
}

/// The directory name of a tool.
pub fn sanitize_component(value: &str) -> (out: String)
    ensures
        out@ == component(value@),
{
    let v = text::to_chars(value);
    let ghost mapped = v@.map_values(|c: char| component_char(c));
    let mut output = String::new();
    let mut i: usize = 0;
    while i < v.len()
        invariant
            i <= v@.len(),
            mapped == v@.map_values(|c: char| component_char(c)),
            output@ == mapped.take(i as int),
        decreases v@.len() - i,
    {
        let c = v[i];
        if text::is_ascii_alnum(c) || c == '-' || c == '_' {
            output.push(text::to_lower(c));
        } else {
            output.push('-');
        }
        i = i + 1;
        assert(mapped.take(i as int) =~= mapped.take(i - 1).push(mapped[i - 1]));
    }
    assert(mapped.take(i as int) =~= mapped);
    let trimmed = text::trim_char(output.as_str(), '-');
    if trimmed.as_str().is_empty() {
        "tool".to_owned()
    } else {
        trimmed
    }
}

/// The directory of a tool in a home directory: a hidden directory with the
/// tool's name.
pub fn app_dir(home: &str, tool: &str) -> (out: String)
    ensures
        out@ == unix_path::joined(home@, "."@ + component(tool@)),
{
    let name = sanitize_component(tool);
    let hidden = ".".to_owned().concat(name.as_str());
    unix_path::join(home, hidden.as_str())
}

/// The directory of a tool beneath a root.
pub fn tool_dir(root: &str, tool: &str) -> (out: String)
    ensures
        out@ == unix_path::joined(root@, component(tool@)),
{
    let name = sanitize_component(tool);
    unix_path::join(root, name.as_str())
}

/// What is left after trimming is empty or has no trimmed character at its
/// ends, and is made of the characters that were there.
proof fn lemma_trimmed(s: Seq<char>, p: spec_fn(char) -> bool)
    ensures
        text::trim_both(s, p).len() > 0 ==> !p(text::trim_both(s, p)[0]) && !p(
            text::trim_both(s, p).last(),
        ),
        forall|i: int|
            0 <= i < text::trim_both(s, p).len() ==> s.contains(#[trigger] text::trim_both(s, p)[i]),
{
    lemma_trim_front_shape(s, p);
    let t = text::trim_front(s, p);
    lemma_trim_back_shape(t, p);
    let r = text::trim_back(t, p);
    assert forall|i: int| 0 <= i < r.len() implies s.contains(#[trigger] r[i]) by {
        assert(t.contains(r[i]));
        let k = choose|k: int| 0 <= k < t.len() && t[k] == r[i];
        assert(s.contains(t[k]));
    }
}

proof fn lemma_trim_front_shape(s: Seq<char>, p: spec_fn(char) -> bool)
    ensures
        text::trim_front(s, p).len() > 0 ==> !p(text::trim_front(s, p)[0]),
        forall|i: int|
            0 <= i < text::trim_front(s, p).len() ==> s.contains(#[trigger] text::trim_front(s, p)[i]),
    decreases s.len(),
{
    if s.len() > 0 && p(s[0]) {
        lemma_trim_front_shape(s.skip(1), p);
        let t = text::trim_front(s, p);
        assert forall|i: int| 0 <= i < t.len() implies s.contains(#[trigger] t[i]) by {
            assert(s.skip(1).contains(t[i]));
            let k = choose|k: int| 0 <= k < s.skip(1).len() && s.skip(1)[k] == t[i];
            assert(s[k + 1] == t[i]);
        }
    }
}

proof fn lemma_trim_back_shape(s: Seq<char>, p: spec_fn(char) -> bool)
    ensures
        text::trim_back(s, p).len() > 0 ==> !p(text::trim_back(s, p).last()) && text::trim_back(
            s,
            p,
        )[0] == s[0],
        forall|i: int|
            0 <= i < text::trim_back(s, p).len() ==> s.contains(#[trigger] text::trim_back(s, p)[i]),
    decreases s.len(),
{
    if s.len() > 0 && p(s.last()) {
        lemma_trim_back_shape(s.drop_last(), p);
        let t = text::trim_back(s, p);
        assert forall|i: int| 0 <= i < t.len() implies s.contains(#[trigger] t[i]) by {
            assert(s.drop_last().contains(t[i]));
            let k = choose|k: int| 0 <= k < s.drop_last().len() && s.drop_last()[k] == t[i];
            assert(s[k] == t[i]);
        }
    }
}

/// The directory name of a tool is a single part of a path, made of lower-case
/// ASCII letters, digits, hyphens and underscores, and is its own directory
/// name.
pub proof fn law_component_is_a_safe_name(value: Seq<char>)
    ensures
        unix_path::is_part(component(value)),
        forall|i: int|
            0 <= i < component(value).len() ==> {
                let c = #[trigger] component(value)[i];
                text::is_lower(c) || text::is_digit(c) || c == '-' || c == '_'
            },
        component(component(value)) == component(value),
{
    let p = |c: char| c == '-';
    let mapped = value.map_values(|c: char| component_char(c));
    let r = component(value);
    reveal_strlit("tool");
    lemma_trimmed(mapped, p);
    let t = text::trim_both(mapped, p);
    assert forall|i: int| 0 <= i < r.len() implies {
        let c = #[trigger] r[i];
        text::is_lower(c) || text::is_digit(c) || c == '-' || c == '_'
    } by {
        if t.len() > 0 {
            assert(mapped.contains(t[i]));
            let k = choose|k: int| 0 <= k < mapped.len() && mapped[k] == t[i];
            assert(mapped[k] == component_char(value[k]));
        }
    }
    assert(r.len() > 0 && r[0] != '-' && r.last() != '-');
    let again = r.map_values(|c: char| component_char(c));
    assert(again =~= r) by {
        assert forall|i: int| 0 <= i < r.len() implies again[i] == r[i] by {
            let c = r[i];
            assert(text::is_lower(c) || text::is_digit(c) || c == '-' || c == '_');
        }
    }
    assert(text::trim_front(r, p) == r);
    assert(text::trim_back(r, p) == r);
    assert(!r.contains('/')) by {
        if r.contains('/') {
            let k = choose|k: int| 0 <= k < r.len() && r[k] == '/';
            assert(text::is_lower(r[k]) || text::is_digit(r[k]) || r[k] == '-' || r[k] == '_');
        }
    }
    assert(r != unix_path::dot()) by {
        if r == unix_path::dot() {
            assert(r[0] == '.');
        }
    }
}

} // verus!
