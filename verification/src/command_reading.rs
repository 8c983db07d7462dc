//! How the words of a command are read: flags, options with their values, and
//! operands.

use vstd::prelude::*;

verus! {

/// What the words of a command say.
#[verifier::ext_equal]
pub ghost struct CommandReading {
    pub flags: Seq<Seq<char>>,
    pub options: Seq<(Seq<char>, Seq<char>)>,
    pub operands: Seq<Seq<char>>,
}

/// Reads words from the left. A word of `valued` takes the word behind it as its
/// value, a word of `flags` stands for itself, and any other word is an operand.
/// Where `stops` holds, the first operand ends the options.
pub open spec fn read_words(
    words: Seq<Seq<char>>,
    flags: Set<Seq<char>>,
    valued: Set<Seq<char>>,
    stops: bool,
) -> CommandReading
    decreases words.len(),
{
    if words.len() == 0 {
        CommandReading { flags: seq![], options: seq![], operands: seq![] }
    } else if valued.contains(words[0]) && words.len() >= 2 {
        let rest = read_words(words.skip(2), flags, valued, stops);
        CommandReading { options: seq![(words[0], words[1])] + rest.options, ..rest }
    } else if flags.contains(words[0]) {
        let rest = read_words(words.skip(1), flags, valued, stops);
        CommandReading { flags: seq![words[0]] + rest.flags, ..rest }
    } else if stops {
        CommandReading { flags: seq![], options: seq![], operands: words }
    } else {
        let rest = read_words(words.skip(1), flags, valued, stops);
        CommandReading { operands: seq![words[0]] + rest.operands, ..rest }
    }
}

/// Words that are options with their values, one behind the other, are read as
/// these options before what follows them.
pub proof fn lemma_read_options(
    pairs: Seq<(Seq<char>, Seq<char>)>,
    words: Seq<Seq<char>>,
    rest: Seq<Seq<char>>,
    flags: Set<Seq<char>>,
    valued: Set<Seq<char>>,
    stops: bool,
)
    requires
        words.len() == 2 * pairs.len() + rest.len(),
        forall|i: int|
            0 <= i < pairs.len() ==> valued.contains((#[trigger] pairs[i]).0) && words[2 * i]
                == pairs[i].0 && words[2 * i + 1] == pairs[i].1,
        rest == words.skip(2 * pairs.len() as int),
    ensures
        ({
            let r = read_words(rest, flags, valued, stops);
            read_words(words, flags, valued, stops) == (CommandReading {
                options: pairs + r.options,
                ..r
            })
        }),
    decreases pairs.len(),
{
    let r = read_words(rest, flags, valued, stops);
    if pairs.len() == 0 {
        assert(words =~= rest);
        assert(pairs + r.options =~= r.options);
    } else {
        let tail = pairs.skip(1);
        let next = words.skip(2);
        assert(pairs[0].0 == words[0]);
        assert forall|i: int| 0 <= i < tail.len() implies valued.contains((#[trigger] tail[i]).0)
            && next[2 * i] == tail[i].0 && next[2 * i + 1] == tail[i].1 by {
            assert(tail[i] == pairs[i + 1]);
            assert(next[2 * i] == words[2 * (i + 1)]);
            assert(next[2 * i + 1] == words[2 * (i + 1) + 1]);
        }
        assert(rest =~= next.skip(2 * tail.len() as int));
        lemma_read_options(tail, next, rest, flags, valued, stops);
        assert(seq![(words[0], words[1])] + (tail + r.options) =~= pairs + r.options);
    }
}

/// The values that an option is given, in their order.
pub open spec fn option_values(options: Seq<(Seq<char>, Seq<char>)>, name: Seq<char>) -> Seq<
    Seq<char>,
>
    decreases options.len(),
{
    if options.len() == 0 {
        Seq::empty()
    } else {
        let before = option_values(options.drop_last(), name);
        if options.last().0 == name {
            before.push(options.last().1)
        } else {
            before
        }
    }
}

pub proof fn lemma_option_values_concat(
    a: Seq<(Seq<char>, Seq<char>)>,
    b: Seq<(Seq<char>, Seq<char>)>,
    name: Seq<char>,
)
    ensures
        option_values(a + b, name) == option_values(a, name) + option_values(b, name),
    decreases b.len(),
{
    if b.len() == 0 {
        assert(a + b =~= a);
        assert(option_values(a, name) + option_values(b, name) =~= option_values(a, name));
    } else {
        assert((a + b).drop_last() =~= a + b.drop_last());
        lemma_option_values_concat(a, b.drop_last(), name);
        assert(option_values(a + b, name) =~= option_values(a, name) + option_values(b, name));
    }
}

/// The values of options that all have one name: all of them for that name, and
/// none for any other.
pub proof fn lemma_option_values_same(
    options: Seq<(Seq<char>, Seq<char>)>,
    given: Seq<char>,
    name: Seq<char>,
)
    requires
        forall|i: int| 0 <= i < options.len() ==> (#[trigger] options[i]).0 == given,
    ensures
        option_values(options, name) == if given == name {
            options.map_values(|o: (Seq<char>, Seq<char>)| o.1)
        } else {
            Seq::empty()
        },
    decreases options.len(),
{
    if options.len() > 0 {
        let front = options.drop_last();
        assert forall|i: int| 0 <= i < front.len() implies (#[trigger] front[i]).0 == given by {
            assert(front[i] == options[i]);
        }
        lemma_option_values_same(front, given, name);
        assert(options[options.len() - 1].0 == given);
    }
    if given == name {
        assert(option_values(options, name) =~= options.map_values(
            |o: (Seq<char>, Seq<char>)| o.1,
        ));
    }
}

/// The words of Cargo that stand for themselves.
pub open spec fn cargo_flags() -> Set<Seq<char>> {
    set!["--locked"@, "--force"@]
}

/// The words of Cargo that take a value.
pub open spec fn cargo_options() -> Set<Seq<char>> {
    set!["--root"@, "--version"@, "--bin"@, "--registry"@]
}

/// How Cargo reads its words.
pub open spec fn read_cargo(words: Seq<Seq<char>>) -> CommandReading {
    read_words(words, cargo_flags(), cargo_options(), false)
}

/// How Cargo reads an installation: the options before the package, the package,
/// and the options behind it.
pub proof fn lemma_read_cargo(
    words: Seq<Seq<char>>,
    first: Seq<(Seq<char>, Seq<char>)>,
    package: Seq<char>,
    second: Seq<(Seq<char>, Seq<char>)>,
)
    requires
        words.len() == 4 + 2 * first.len() + 2 * second.len(),
        words[0] == "install"@,
        words[1] == "--locked"@,
        words[2] == "--force"@,
        words[3 + 2 * first.len() as int] == package,
        package.len() > 0 ==> package[0] != '-',
        forall|i: int|
            0 <= i < first.len() ==> cargo_options().contains((#[trigger] first[i]).0) && words[3 + 2
                * i] == first[i].0 && words[4 + 2 * i] == first[i].1,
        forall|i: int|
            0 <= i < second.len() ==> cargo_options().contains((#[trigger] second[i]).0) && words[4
                + 2 * first.len() + 2 * i] == second[i].0 && words[5 + 2 * first.len() + 2 * i]
                == second[i].1,
    ensures
        read_cargo(words) == (CommandReading {
            flags: seq!["--locked"@, "--force"@],
            options: first + second,
            operands: seq!["install"@, package],
        }),
{
    reveal_strlit("install");
    reveal_strlit("--locked");
    reveal_strlit("--force");
    reveal_strlit("--root");
    reveal_strlit("--version");
    reveal_strlit("--bin");
    reveal_strlit("--registry");
    let flags = cargo_flags();
    let valued = cargo_options();
    assert(!valued.contains("install"@) && !flags.contains("install"@)) by {
        assert("install"@[0] == 'i');
    }
    assert(!valued.contains(package) && !flags.contains(package)) by {
        assert("--root"@[0] == '-' && "--version"@[0] == '-' && "--bin"@[0] == '-'
            && "--registry"@[0] == '-' && "--locked"@[0] == '-' && "--force"@[0] == '-');
    }
    assert(!valued.contains("--locked"@)) by {
        assert("--locked"@[2] == 'l');
    }
    assert(!valued.contains("--force"@)) by {
        assert("--force"@[2] == 'f');
    }
    let a = words.skip(1);
    let b = a.skip(1);
    let c = b.skip(1);
    let d = c.skip(2 * first.len() as int);
    let e = d.skip(1);
    let f = e.skip(2 * second.len() as int);
    assert forall|i: int| 0 <= i < first.len() implies valued.contains((#[trigger] first[i]).0)
        && c[2 * i] == first[i].0 && c[2 * i + 1] == first[i].1 by {
        assert(c[2 * i] == words[3 + 2 * i]);
        assert(c[2 * i + 1] == words[4 + 2 * i]);
    }
    assert forall|i: int| 0 <= i < second.len() implies valued.contains((#[trigger] second[i]).0)
        && e[2 * i] == second[i].0 && e[2 * i + 1] == second[i].1 by {
        assert(e[2 * i] == words[4 + 2 * first.len() + 2 * i]);
        assert(e[2 * i + 1] == words[5 + 2 * first.len() + 2 * i]);
    }
    lemma_read_options(first, c, d, flags, valued, false);
    lemma_read_options(second, e, f, flags, valued, false);
    assert(f =~= seq![]);
    assert(d[0] == package);
    let re = read_words(e, flags, valued, false);
    assert(re =~= (CommandReading { flags: seq![], options: second, operands: seq![] }));
    let rd = read_words(d, flags, valued, false);
    assert(rd =~= (CommandReading { flags: seq![], options: second, operands: seq![package] }));
    let rc = read_words(c, flags, valued, false);
    assert(rc =~= (CommandReading {
        flags: seq![],
        options: first + second,
        operands: seq![package],
    }));
    assert(a[0] == "--locked"@ && b[0] == "--force"@);
    let rb = read_words(b, flags, valued, false);
    assert(rb =~= (CommandReading {
        flags: seq!["--force"@],
        options: first + second,
        operands: seq![package],
    }));
    let ra = read_words(a, flags, valued, false);
    assert(ra =~= (CommandReading {
        flags: seq!["--locked"@, "--force"@],
        options: first + second,
        operands: seq![package],
    }));
    assert(read_cargo(words) =~= (CommandReading {
        flags: seq!["--locked"@, "--force"@],
        options: first + second,
        operands: seq!["install"@, package],
    }));
}

/// Whether Cargo is told to install binaries of one exact version of a package
/// under a root, from a registry where one is named: locked, and over
/// what is there.
pub open spec fn cargo_installs(
    words: Seq<Seq<char>>,
    package: Seq<char>,
    version: Seq<char>,
    binaries: Seq<Seq<char>>,
    root: Seq<char>,
    registry: Option<Seq<char>>,
) -> bool {
    let told = read_cargo(words);
    &&& told.flags == seq!["--locked"@, "--force"@]
    &&& told.operands == seq!["install"@, package]
    &&& option_values(told.options, "--version"@) == seq![version]
    &&& option_values(told.options, "--root"@) == seq![root]
    &&& option_values(told.options, "--bin"@) == binaries
    &&& option_values(told.options, "--registry"@) == match registry {
        Some(name) => seq![name],
        None => seq![],
    }
}

/// The values of the options of an installation: a root and a version in either
/// order, binaries, and a registry where one is named.
pub proof fn lemma_cargo_values(
    options: Seq<(Seq<char>, Seq<char>)>,
    version: Seq<char>,
    binaries: Seq<Seq<char>>,
    root: Seq<char>,
    registry: Option<Seq<char>>,
    root_first: bool,
)
    requires
        ({
            let r = seq![("--root"@, root)];
            let v = seq![("--version"@, version)];
            let b = binaries.map_values(|n: Seq<char>| ("--bin"@, n));
            let g = match registry {
                Some(name) => seq![("--registry"@, name)],
                None => seq![],
            };
            options == if root_first {
                r + v + b + g
            } else {
                v + b + r + g
            }
        }),
    ensures
        option_values(options, "--version"@) == seq![version],
        option_values(options, "--root"@) == seq![root],
        option_values(options, "--bin"@) == binaries,
        option_values(options, "--registry"@) == match registry {
            Some(name) => seq![name],
            None => seq![],
        },
{
    reveal_strlit("--root");
    reveal_strlit("--version");
    reveal_strlit("--bin");
    reveal_strlit("--registry");
    let r = seq![("--root"@, root)];
    let v = seq![("--version"@, version)];
    let b = binaries.map_values(|n: Seq<char>| ("--bin"@, n));
    let g: Seq<(Seq<char>, Seq<char>)> = match registry {
        Some(name) => seq![("--registry"@, name)],
        None => seq![],
    };
    assert("--root"@.len() == 6 && "--version"@.len() == 9 && "--bin"@.len() == 5
        && "--registry"@.len() == 10);
    assert forall|name: Seq<char>| #[trigger]
        option_values(options, name) == option_values(r, name) + option_values(v, name)
            + option_values(b, name) + option_values(g, name) || (!root_first && option_values(
            options,
            name,
        ) == option_values(v, name) + option_values(b, name) + option_values(r, name)
            + option_values(g, name)) by {
        if root_first {
            lemma_option_values_concat(r + v + b, g, name);
            lemma_option_values_concat(r + v, b, name);
            lemma_option_values_concat(r, v, name);
        } else {
            lemma_option_values_concat(v + b + r, g, name);
            lemma_option_values_concat(v + b, r, name);
            lemma_option_values_concat(v, b, name);
        }
    }
    lemma_given_values(r, v, b, g, "--version"@);
    lemma_given_values(r, v, b, g, "--root"@);
    lemma_given_values(r, v, b, g, "--bin"@);
    lemma_given_values(r, v, b, g, "--registry"@);
    assert(b.map_values(|o: (Seq<char>, Seq<char>)| o.1) =~= binaries);
    assert(r.map_values(|o: (Seq<char>, Seq<char>)| o.1) =~= seq![root]);
    assert(v.map_values(|o: (Seq<char>, Seq<char>)| o.1) =~= seq![version]);
    assert(option_values(options, "--version"@) =~= seq![version]);
    assert(option_values(options, "--root"@) =~= seq![root]);
    assert(option_values(options, "--bin"@) =~= binaries);
    if let Some(name) = registry {
        assert(g.map_values(|o: (Seq<char>, Seq<char>)| o.1) =~= seq![name]);
        assert(option_values(options, "--registry"@) =~= seq![name]);
    } else {
        assert(option_values(options, "--registry"@) =~= seq![]);
    }
}

proof fn lemma_given_values(
    r: Seq<(Seq<char>, Seq<char>)>,
    v: Seq<(Seq<char>, Seq<char>)>,
    b: Seq<(Seq<char>, Seq<char>)>,
    g: Seq<(Seq<char>, Seq<char>)>,
    name: Seq<char>,
)
    requires
        forall|i: int| 0 <= i < r.len() ==> (#[trigger] r[i]).0 == "--root"@,
        forall|i: int| 0 <= i < v.len() ==> (#[trigger] v[i]).0 == "--version"@,
        forall|i: int| 0 <= i < b.len() ==> (#[trigger] b[i]).0 == "--bin"@,
        forall|i: int| 0 <= i < g.len() ==> (#[trigger] g[i]).0 == "--registry"@,
    ensures
        option_values(r, name) == if name == "--root"@ {
            r.map_values(|o: (Seq<char>, Seq<char>)| o.1)
        } else {
            Seq::empty()
        },
        option_values(v, name) == if name == "--version"@ {
            v.map_values(|o: (Seq<char>, Seq<char>)| o.1)
        } else {
            Seq::empty()
        },
        option_values(b, name) == if name == "--bin"@ {
            b.map_values(|o: (Seq<char>, Seq<char>)| o.1)
        } else {
            Seq::empty()
        },
        option_values(g, name) == if name == "--registry"@ {
            g.map_values(|o: (Seq<char>, Seq<char>)| o.1)
        } else {
            Seq::empty()
        },
{
    lemma_option_values_same(r, "--root"@, name);
    lemma_option_values_same(v, "--version"@, name);
    lemma_option_values_same(b, "--bin"@, name);
    lemma_option_values_same(g, "--registry"@, name);
}

} // verus!
