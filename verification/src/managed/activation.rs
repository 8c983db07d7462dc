//! Socket activation: the named descriptors that systemd hands to a service.

use vstd::prelude::*;

use crate::debug_text::{debug_quote, debug_quoted};
use crate::order::{before, comes_before, lemma_before_transitive, text_before};
use crate::search::{first_failing, lemma_first_failing, lemma_none_failing};
use crate::text;
use crate::text::texts;

verus! {

/// The number of the first descriptor that systemd passes.
pub const SYSTEMD_LISTEN_FD_START: i32 = 3;

/// The most descriptors that are adopted.
pub const MAX_ACTIVATED_LISTENERS: usize = 16;

/// Why the descriptors that systemd passed are refused.
#[derive(Debug, PartialEq, Eq)]
#[allow(inconsistent_fields)]
pub enum ActivationError {
    MissingEnvironment(&'static str),
    InvalidEnvironment { name: &'static str, value: String },
    WrongProcess { actual: u32, expected: u32 },
    TooManyListeners(usize),
    NameCountMismatch,
    DuplicateName(String),
    MissingName(String),
    UnexpectedName(String),
    WrongSocketType { name: String },
    Adopt { name: String, source: String },
}

impl ActivationError {
    /// The words for the error.
    pub open spec fn words(self) -> Seq<char> {
        match self {
            ActivationError::MissingEnvironment(name) =>
                "systemd socket activation environment is incomplete: missing "@ + name@,
            ActivationError::InvalidEnvironment { name, value } =>
                "invalid systemd socket activation value for "@ + name@ + ": "@ + debug_quoted(
                value@,
            ),
            ActivationError::WrongProcess { actual, expected } =>
                "systemd socket activation belongs to PID "@ + text::decimal(actual as nat)
                + ", not this process ("@ + text::decimal(expected as nat) + ")"@,
            ActivationError::TooManyListeners(count) => "systemd passed "@ + text::decimal(
                count as nat,
            ) + " listeners, exceeding the safety limit"@,
            ActivationError::NameCountMismatch =>
                "systemd socket descriptor names do not match LISTEN_FDS"@,
            ActivationError::DuplicateName(name) =>
                "systemd passed duplicate socket descriptor name "@ + debug_quoted(name@),
            ActivationError::MissingName(name) =>
                "systemd did not pass required socket descriptor "@ + debug_quoted(name@),
            ActivationError::UnexpectedName(name) =>
                "systemd passed unexpected socket descriptor "@ + debug_quoted(name@),
            ActivationError::WrongSocketType { name } => "systemd descriptor "@ + debug_quoted(
                name@,
            ) + " is not a Unix stream listener"@,
            ActivationError::Adopt { name, source } => "failed to adopt systemd descriptor "@
                + debug_quoted(name@) + ": "@ + source@,
        }
    }

    /// The words for the error.
    pub fn message(&self) -> (out: String)
        ensures
            out@ == self.words(),
    {
        match self {
            ActivationError::MissingEnvironment(name) =>
                "systemd socket activation environment is incomplete: missing ".to_owned().concat(
                name,
            ),
            ActivationError::InvalidEnvironment { name, value } => {
                let value = debug_quote(value.as_str());
                "invalid systemd socket activation value for ".to_owned().concat(name).concat(
                    ": ",
                ).concat(value.as_str())
            },
            ActivationError::WrongProcess { actual, expected } => {
                let actual = text::decimal_u64(*actual as u64);
                let expected = text::decimal_u64(*expected as u64);
                "systemd socket activation belongs to PID ".to_owned().concat(
                    actual.as_str(),
                ).concat(", not this process (").concat(expected.as_str()).concat(")")
            },
            ActivationError::TooManyListeners(count) => {
                let count = text::decimal_u64(*count as u64);
                "systemd passed ".to_owned().concat(count.as_str()).concat(
                    " listeners, exceeding the safety limit",
                )
            },
            ActivationError::NameCountMismatch =>
                "systemd socket descriptor names do not match LISTEN_FDS".to_owned(),
            ActivationError::DuplicateName(name) => {
                let name = debug_quote(name.as_str());
                "systemd passed duplicate socket descriptor name ".to_owned().concat(name.as_str())
            },
            ActivationError::MissingName(name) => {
                let name = debug_quote(name.as_str());
                "systemd did not pass required socket descriptor ".to_owned().concat(name.as_str())
            },
            ActivationError::UnexpectedName(name) => {
                let name = debug_quote(name.as_str());
                "systemd passed unexpected socket descriptor ".to_owned().concat(name.as_str())
            },
            ActivationError::WrongSocketType { name } => {
                let name = debug_quote(name.as_str());
                "systemd descriptor ".to_owned().concat(name.as_str()).concat(
                    " is not a Unix stream listener",
                )
            },
            ActivationError::Adopt { name, source } => {
                let name = debug_quote(name.as_str());
                "failed to adopt systemd descriptor ".to_owned().concat(name.as_str()).concat(
                    ": ",
                ).concat(source.as_str())
            },
        }
    }
}

/// The characters of each text of a list.
pub open spec fn names_of(list: Seq<&str>) -> Seq<Seq<char>> {
    list.map_values(|s: &str| s@)
}

/// The names in the list of descriptor names. No descriptors have no names.
pub open spec fn listed_names(count: nat, value: Seq<char>) -> Seq<Seq<char>> {
    if count == 0 && value.len() == 0 {
        Seq::empty()
    } else {
        text::split(value, ':')
    }
}

/// Whether there is a name for each descriptor and none of them is empty.
pub open spec fn names_complete(count: nat, names: Seq<Seq<char>>) -> bool {
    names.len() == count && forall|i: int|
        0 <= i < names.len() ==> (#[trigger] names[i]).len() > 0
}

/// Whether the name at position `i` stands at no other position.
pub open spec fn stands_once(names: Seq<Seq<char>>, i: int) -> bool {
    forall|j: int| 0 <= j < names.len() && j != i ==> #[trigger] names[j] != names[i]
}

/// The position of the first name that stands more than once, or the number of
/// names.
pub open spec fn first_repeated(names: Seq<Seq<char>>) -> int {
    first_failing(|i: int| stands_once(names, i), names.len(), 0)
}

/// Whether a name is the first, in the order of texts, that is in the first
/// list and not in the second.
pub open spec fn first_lacking(
    from: Seq<Seq<char>>,
    other: Seq<Seq<char>>,
    name: Seq<char>,
) -> bool {
    &&& from.contains(name)
    &&& !other.contains(name)
    &&& forall|i: int|
        0 <= i < from.len() && !other.contains(from[i]) ==> !text_before(
            #[trigger] from[i],
            name,
        )
}

/// Whether every name of the first list is in the second.
pub open spec fn none_lacking(from: Seq<Seq<char>>, other: Seq<Seq<char>>) -> bool {
    forall|i: int| 0 <= i < from.len() ==> other.contains(#[trigger] from[i])
}

/// Whether a result is the judgement on a list of descriptor names.
pub open spec fn names_verdict(
    count: nat,
    value: Seq<char>,
    required: Seq<Seq<char>>,
    r: Result<Vec<String>, ActivationError>,
) -> bool {
    let names = listed_names(count, value);
    if !names_complete(count, names) {
        r matches Err(e) && e is NameCountMismatch
    } else if first_repeated(names) < names.len() {
        r matches Err(ActivationError::DuplicateName(name)) && name@ == names[first_repeated(names)]
    } else if !none_lacking(required, names) {
        r matches Err(ActivationError::MissingName(name)) && first_lacking(required, names, name@)
    } else if !none_lacking(names, required) {
        r matches Err(ActivationError::UnexpectedName(name)) && first_lacking(
            names,
            required,
            name@,
        )
    } else {
        r matches Ok(list) && texts(list@) == names
    }
}

fn occurs_once(names: &Vec<String>, i: usize) -> (r: bool)
    requires
        i < names@.len(),
    ensures
        r == stands_once(texts(names@), i as int),
{
    let ghost all = texts(names@);
    let mut j: usize = 0;
    while j < names.len()
        invariant
            j <= names@.len(),
            all == texts(names@),
            forall|k: int| 0 <= k < j && k != i ==> #[trigger] all[k] != all[i as int],
        decreases names@.len() - j,
    {
        assert(all[j as int] == names@[j as int]@);
        assert(all[i as int] == names@[i as int]@);
        if j != i && names[j] == names[i] {
            return false;
        }
        j = j + 1;
    }
    true
}

fn copy_names(list: &[&str]) -> (out: Vec<String>)
    ensures
        texts(out@) == names_of(list@),
{
    let mut out: Vec<String> = Vec::new();
    let mut i: usize = 0;
    while i < list.len()
        invariant
            i <= list@.len(),
            texts(out@) == names_of(list@).take(i as int),
        decreases list@.len() - i,
    {
        let ghost before_names = texts(out@);
        let name = list[i].to_owned();
        out.push(name);
        assert(texts(out@) =~= before_names.push(name@));
        i = i + 1;
        assert(names_of(list@).take(i as int) =~= before_names.push(names_of(list@)[i - 1]));
    }
    assert(names_of(list@).take(i as int) =~= names_of(list@));
    out
}

fn find_lacking(from: &Vec<String>, other: &Vec<String>) -> (r: Option<String>)
    ensures
        match r {
            Some(name) => first_lacking(texts(from@), texts(other@), name@),
            None => none_lacking(texts(from@), texts(other@)),
        },
{
    let ghost all = texts(from@);
    let ghost against = texts(other@);
    let mut best: Option<String> = None;
    let mut i: usize = 0;
    while i < from.len()
        invariant
            i <= from@.len(),
            all == texts(from@),
            against == texts(other@),
            best is None ==> forall|k: int| 0 <= k < i ==> against.contains(#[trigger] all[k]),
            best matches Some(name) ==> all.contains(name@) && !against.contains(name@) && forall|
                k: int,
            |
                0 <= k < i && !against.contains(all[k]) ==> !text_before(
                    #[trigger] all[k],
                    name@,
                ),
        decreases from@.len() - i,
    {
        assert(all[i as int] == from@[i as int]@);
        let candidate = &from[i];
        if !text::contains_text(other, candidate.as_str()) {
            let better = match &best {
                None => true,
                Some(name) => comes_before(candidate.as_str(), name.as_str()),
            };
            if better {
                let ghost previous = best;
                best = Some(candidate.clone());
                proof {
                    let c = vstd::utf8::encode_utf8(candidate@);
                    assert forall|k: int|
                        0 <= k < i + 1 && !against.contains(all[k]) implies !text_before(
                        #[trigger] all[k],
                        candidate@,
                    ) by {
                        if text_before(all[k], candidate@) {
                            let x = vstd::utf8::encode_utf8(all[k]);
                            if k == i {
                                lemma_irreflexive(c);
                            } else if let Some(name) = previous {
                                lemma_before_transitive(
                                    x,
                                    c,
                                    vstd::utf8::encode_utf8(name@),
                                );
                            }
                        }
                    }
                }
            }
        }
        i = i + 1;
    }
    best
}

proof fn lemma_irreflexive(a: Seq<u8>)
    ensures
        !before(a, a),
    decreases a.len(),
{
    if a.len() > 0 {
        lemma_irreflexive(a.skip(1));
    }
}

/// The names of the descriptors, in their order, where they are those that are
/// required, each once, in whatever order.
pub fn parse_names(count: usize, value: &str, required_names: &[&str]) -> (r: Result<
    Vec<String>,
    ActivationError,
>)
    ensures
        names_verdict(count as nat, value@, names_of(required_names@), r),
{
    let names: Vec<String> = if count == 0 && value.is_empty() {
        Vec::new()
    } else {
        text::split_char(value, ':')
    };
    assert(texts(names@) =~= listed_names(count as nat, value@));
    let ghost all = texts(names@);
    if names.len() != count {
        return Err(ActivationError::NameCountMismatch);
    }
    let mut i: usize = 0;
    while i < names.len()
        invariant
            i <= names@.len(),
            all == texts(names@),
            forall|k: int| 0 <= k < i ==> (#[trigger] all[k]).len() > 0,
        decreases names@.len() - i,
    {
        assert(all[i as int] == names@[i as int]@);
        if names[i].as_str().is_empty() {
            return Err(ActivationError::NameCountMismatch);
        }
        i = i + 1;
    }
    let ghost p = |k: int| stands_once(all, k);
    let mut i: usize = 0;
    while i < names.len()
        invariant
            i <= names@.len(),
            all == texts(names@),
            forall|k: int| 0 <= k < i ==> #[trigger] p(k),
        decreases names@.len() - i,
    {
        if !occurs_once(&names, i) {
            proof {
                assert(!p(i as int));
                lemma_first_failing(p, all.len(), 0, i as int);
                assert(all[i as int] == names@[i as int]@);
            }
            return Err(ActivationError::DuplicateName(names[i].clone()));
        }
        assert(p(i as int));
        i = i + 1;
    }
    proof {
        lemma_first_failing(p, all.len(), 0, all.len() as int);
    }
    let required = copy_names(required_names);
    if let Some(name) = find_lacking(&required, &names) {
        proof {
            let k = choose|k: int| 0 <= k < texts(required@).len() && texts(required@)[k] == name@;
            assert(!all.contains(texts(required@)[k]));
        }
        return Err(ActivationError::MissingName(name));
    }
    if let Some(name) = find_lacking(&names, &required) {
        proof {
            let k = choose|k: int| 0 <= k < all.len() && all[k] == name@;
            assert(!texts(required@).contains(all[k]));
        }
        return Err(ActivationError::UnexpectedName(name));
    }
    Ok(names)
}

/// Descriptor names are accepted in whatever order they come: it is enough that
/// there is one for each descriptor, none is empty or repeated, and they are
/// those that are required.
pub proof fn law_names_in_any_order(
    count: nat,
    value: Seq<char>,
    required: Seq<Seq<char>>,
    r: Result<Vec<String>, ActivationError>,
)
    requires
        names_verdict(count, value, required, r),
    ensures
        r is Ok <==> {
            let names = listed_names(count, value);
            &&& names_complete(count, names)
            &&& names.no_duplicates()
            &&& names.to_set() == required.to_set()
        },
{
    let names = listed_names(count, value);
    let p = |k: int| stands_once(names, k);
    lemma_none_failing(p, names.len(), 0);
    if names.no_duplicates() {
        assert forall|k: int| 0 <= k < names.len() implies #[trigger] p(k) by {}
        lemma_first_failing(p, names.len(), 0, names.len() as int);
    }
    if first_repeated(names) >= names.len() {
        assert forall|i: int, j: int| 0 <= i < names.len() && 0 <= j < names.len() && i
            != j implies names[i] != names[j] by {
            assert(p(i));
        }
    }
    if none_lacking(required, names) && none_lacking(names, required) {
        assert forall|x: Seq<char>| names.to_set().contains(x) <==> required.to_set().contains(
            x,
        ) by {
            if names.contains(x) {
                let k = choose|k: int| 0 <= k < names.len() && names[k] == x;
                assert(required.contains(names[k]));
            }
            if required.contains(x) {
                let k = choose|k: int| 0 <= k < required.len() && required[k] == x;
                assert(names.contains(required[k]));
            }
        }
        assert(names.to_set() =~= required.to_set());
    }
    if names.to_set() == required.to_set() {
        assert forall|i: int| 0 <= i < required.len() implies names.contains(
            #[trigger] required[i],
        ) by {
            assert(required.to_set().contains(required[i]));
        }
        assert forall|i: int| 0 <= i < names.len() implies required.contains(
            #[trigger] names[i],
        ) by {
            assert(names.to_set().contains(names[i]));
        }
    }
}

/// Whether an error is that for a value that is not a number.
pub open spec fn invalid_value(e: ActivationError, name: Seq<char>, value: Seq<char>) -> bool {
    e matches ActivationError::InvalidEnvironment { name: n, value: v } && n@ == name && v@ == value
}

/// Whether an error is that for a variable that is not set.
pub open spec fn missing_variable(e: ActivationError, name: Seq<char>) -> bool {
    e matches ActivationError::MissingEnvironment(n) && n@ == name
}

/// Whether a result is the judgement on the activation environment of a
/// process.
pub open spec fn environment_verdict(
    listen_pid: Option<String>,
    process: u32,
    listen_fds: Option<String>,
    fd_names: Option<String>,
    required: Seq<Seq<char>>,
    r: Result<Vec<String>, ActivationError>,
) -> bool {
    match listen_pid {
        None => r matches Err(e) && missing_variable(e, "LISTEN_PID"@),
        Some(pid) => match text::parsed_decimal(pid@, u32::MAX as nat) {
            None => r matches Err(e) && invalid_value(e, "LISTEN_PID"@, pid@),
            Some(actual) => if actual != process {
                r == Err::<Vec<String>, ActivationError>(
                    ActivationError::WrongProcess { actual: actual as u32, expected: process },
                )
            } else {
                descriptors_verdict(listen_fds, fd_names, required, r)
            },
        },
    }
}

/// Whether a result is the judgement on the number and the names of
/// descriptors.
pub open spec fn descriptors_verdict(
    listen_fds: Option<String>,
    fd_names: Option<String>,
    required: Seq<Seq<char>>,
    r: Result<Vec<String>, ActivationError>,
) -> bool {
    match listen_fds {
        None => r matches Err(e) && missing_variable(e, "LISTEN_FDS"@),
        Some(fds) => match text::parsed_decimal(fds@, usize::MAX as nat) {
            None => r matches Err(e) && invalid_value(e, "LISTEN_FDS"@, fds@),
            Some(count) => if count > MAX_ACTIVATED_LISTENERS {
                r == Err::<Vec<String>, ActivationError>(
                    ActivationError::TooManyListeners(count as usize),
                )
            } else {
                match fd_names {
                    None => r matches Err(e) && missing_variable(e, "LISTEN_FDNAMES"@),
                    Some(names) => names_verdict(count, names@, required, r),
                }
            },
        },
    }
}

/// The names of the descriptors that systemd passed to this process, from the
/// values of its activation variables, where they are set.
pub fn activated_names(
    listen_pid: &Option<String>,
    process: u32,
    listen_fds: &Option<String>,
    fd_names: &Option<String>,
    required_names: &[&str],
) -> (r: Result<Vec<String>, ActivationError>)
    ensures
        environment_verdict(
            *listen_pid,
            process,
            *listen_fds,
            *fd_names,
            names_of(required_names@),
            r,
        ),
{
    let pid = match listen_pid {
        Some(pid) => pid,
        None => return Err(ActivationError::MissingEnvironment("LISTEN_PID")),
    };
    let actual: u32 = match text::parse_decimal(pid.as_str(), u32::MAX as u64) {
        Some(n) => n as u32,
        None => return Err(
            ActivationError::InvalidEnvironment { name: "LISTEN_PID", value: pid.clone() },
        ),
    };
    if actual != process {
        return Err(ActivationError::WrongProcess { actual, expected: process });
    }
    let fds = match listen_fds {
        Some(fds) => fds,
        None => return Err(ActivationError::MissingEnvironment("LISTEN_FDS")),
    };
    let count: usize = match text::parse_decimal(fds.as_str(), usize::MAX as u64) {
        Some(n) => n as usize,
        None => return Err(
            ActivationError::InvalidEnvironment { name: "LISTEN_FDS", value: fds.clone() },
        ),
    };
    if count > MAX_ACTIVATED_LISTENERS {
        return Err(ActivationError::TooManyListeners(count));
    }
    match fd_names {
        Some(names) => parse_names(count, names.as_str(), required_names),
        None => Err(ActivationError::MissingEnvironment("LISTEN_FDNAMES")),
    }
}

} // verus!
