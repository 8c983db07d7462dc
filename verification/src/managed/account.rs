//! Unix accounts: the shared build account, and what is captured of the user
//! who asks for a redeploy.

use vstd::prelude::*;

use super::protocol::PeerCredentials;
use crate::search::{first_failing, lemma_first_failing};
use crate::text;
use crate::text::texts;
use crate::unix_path;
use crate::unix_path::path;

verus! {

pub const BUILD_USER: &'static str = "capulus-build";

pub const BUILD_GROUP: &'static str = "capulus-build";

pub const BUILD_HOME: &'static str = "/var/lib/capulus-build";

pub const BUILD_CARGO_TOOLS_HOME: &'static str = "/var/lib/capulus-build/cargo-tools";

pub const BUILD_RUSTUP_HOME: &'static str = "/var/lib/capulus-build/rustup";

pub const BUILD_CACHE_HOME: &'static str = "/var/lib/capulus-build/cache";

pub const BUILD_TARGET_HOME: &'static str = "/var/lib/capulus-build/target";

pub const BUILD_JOBS_HOME: &'static str = "/var/lib/capulus-build/jobs";

/// An account of the system's account database.
#[derive(Clone, Debug, PartialEq, Eq)]
pub struct UnixAccount {
    pub name: String,
    pub uid: u32,
    pub gid: u32,
    pub home: String,
    pub shell: String,
}

/// A group of the system's account database, with the accounts that it lists.
#[derive(Clone, Debug, PartialEq, Eq)]
pub struct UnixGroup {
    pub name: String,
    pub gid: u32,
    pub members: Vec<String>,
}

impl UnixGroup {
    /// Whether an account belongs to the group: it is the account's own group, or
    /// it lists the account.
    pub open spec fn includes(self, account: UnixAccount) -> bool {
        account.gid == self.gid || texts(self.members@).contains(account.name@)
    }

    /// Whether an account belongs to the group.
    pub fn has_member(&self, account: &UnixAccount) -> (r: bool)
        ensures
            r == self.includes(*account),
    {
        account.gid == self.gid || text::contains_text(&self.members, account.name.as_str())
    }
}

/// Why an account, or a user's Cargo installation, is refused.
#[derive(Debug, PartialEq, Eq)]
pub enum AccountError {
    NoAccount(u32),
    SystemAccount(u32),
    UidMinMissing,
    UidMinWithoutValue,
    UidMinInvalid,
    NotNormalized(String),
    HomeMissing(String),
    NotInteractive(String),
    CallerUidMissing,
    CallerUidInvalid,
    CallerChanged,
    OutsideHome(String),
    NoRustup(String),
    NoCargo(String),
    IdentityChanged,
    EscapedHome,
    InstallationChanged,
    BuildAccountNotCreated,
    BuildAccountMismatch,
    NotRealDirectory(String),
    RequiresRoot,
}

impl AccountError {
    /// The words for the error.
    pub open spec fn words(self) -> Seq<char> {
        match self {
            AccountError::NoAccount(uid) => "no NSS account exists for UID "@ + text::decimal(
                uid as nat,
            ),
            AccountError::SystemAccount(uid) => "UID "@ + text::decimal(uid as nat)
                + " is a root or system account"@,
            AccountError::UidMinMissing => "/etc/login.defs does not define UID_MIN"@,
            AccountError::UidMinWithoutValue => "UID_MIN has no value in /etc/login.defs"@,
            AccountError::UidMinInvalid => "UID_MIN is invalid in /etc/login.defs"@,
            AccountError::NotNormalized(p) => "path must be absolute and normalized: "@ + p@,
            AccountError::HomeMissing(p) => "NSS home directory does not exist: "@ + p@,
            AccountError::NotInteractive(name) => "NSS account "@ + name@
                + " is not an interactive login"@,
            AccountError::CallerUidMissing => "caller process status omitted effective UID"@,
            AccountError::CallerUidInvalid => "caller process effective UID is invalid"@,
            AccountError::CallerChanged =>
                "management caller process credentials changed during request capture"@,
            AccountError::OutsideHome(p) => "caller Cargo/Rustup path is outside its NSS home: "@
                + p@,
            AccountError::NoRustup(p) => "existing user CLI has no valid Rustup executable at "@
                + p@,
            AccountError::NoCargo(p) => "existing user CLI has no valid Cargo executable at "@ + p@,
            AccountError::IdentityChanged =>
                "requesting user's NSS or Cargo identity changed during redeploy"@,
            AccountError::EscapedHome => "requesting user's validated path escaped its NSS home"@,
            AccountError::InstallationChanged =>
                "requesting user's Cargo installation changed during redeploy"@,
            AccountError::BuildAccountNotCreated =>
                "shared Capulus build account was not created"@,
            AccountError::BuildAccountMismatch =>
                "existing capulus-build account does not match the required home, shell, and primary group"@,
            AccountError::NotRealDirectory(p) => "managed directory path is not a real directory: "@
                + p@,
            AccountError::RequiresRoot => "managed-system operation requires root"@,
        }
    }

    /// The words for the error.
    pub fn message(&self) -> (out: String)
        ensures
            out@ == self.words(),
    {
        match self {
            AccountError::NoAccount(uid) => {
                let n = text::decimal_u64(*uid as u64);
                "no NSS account exists for UID ".to_owned().concat(n.as_str())
            },
            AccountError::SystemAccount(uid) => {
                let n = text::decimal_u64(*uid as u64);
                "UID ".to_owned().concat(n.as_str()).concat(" is a root or system account")
            },
            AccountError::UidMinMissing => "/etc/login.defs does not define UID_MIN".to_owned(),
            AccountError::UidMinWithoutValue =>
                "UID_MIN has no value in /etc/login.defs".to_owned(),
            AccountError::UidMinInvalid => "UID_MIN is invalid in /etc/login.defs".to_owned(),
            AccountError::NotNormalized(p) =>
                "path must be absolute and normalized: ".to_owned().concat(p.as_str()),
            AccountError::HomeMissing(p) =>
                "NSS home directory does not exist: ".to_owned().concat(p.as_str()),
            AccountError::NotInteractive(name) => "NSS account ".to_owned().concat(
                name.as_str(),
            ).concat(" is not an interactive login"),
            AccountError::CallerUidMissing =>
                "caller process status omitted effective UID".to_owned(),
            AccountError::CallerUidInvalid =>
                "caller process effective UID is invalid".to_owned(),
            AccountError::CallerChanged =>
                "management caller process credentials changed during request capture".to_owned(),
            AccountError::OutsideHome(p) =>
                "caller Cargo/Rustup path is outside its NSS home: ".to_owned().concat(p.as_str()),
            AccountError::NoRustup(p) =>
                "existing user CLI has no valid Rustup executable at ".to_owned().concat(
                p.as_str(),
            ),
            AccountError::NoCargo(p) =>
                "existing user CLI has no valid Cargo executable at ".to_owned().concat(p.as_str()),
            AccountError::IdentityChanged =>
                "requesting user's NSS or Cargo identity changed during redeploy".to_owned(),
            AccountError::EscapedHome =>
                "requesting user's validated path escaped its NSS home".to_owned(),
            AccountError::InstallationChanged =>
                "requesting user's Cargo installation changed during redeploy".to_owned(),
            AccountError::BuildAccountNotCreated =>
                "shared Capulus build account was not created".to_owned(),
            AccountError::BuildAccountMismatch =>
                "existing capulus-build account does not match the required home, shell, and primary group".to_owned(),
            AccountError::NotRealDirectory(p) =>
                "managed directory path is not a real directory: ".to_owned().concat(p.as_str()),
            AccountError::RequiresRoot => "managed-system operation requires root".to_owned(),
        }
    }
}

/// Checks that a path is absolute and has no `..` parts.
pub fn validate_absolute_normal_path(p: &str) -> (r: Result<(), AccountError>)
    ensures
        r is Ok <==> unix_path::is_plain(path(p@)),
        r matches Err(e) ==> e matches AccountError::NotNormalized(actual) && actual@ == p@,
{
    if !unix_path::is_plain_path(p) {
        return Err(AccountError::NotNormalized(p.to_owned()));
    }
    Ok(())
}

// ---------------------------------------------------------------------------
// Interactive accounts
// ---------------------------------------------------------------------------

/// The fields of a line of `/etc/login.defs`: its words before a comment.
pub open spec fn login_fields(line: Seq<char>) -> Seq<Seq<char>> {
    text::words(text::split(line, '#')[0])
}

/// Whether a line of `/etc/login.defs` sets the least user id of people.
pub open spec fn sets_uid_min(line: Seq<char>) -> bool {
    login_fields(line).len() > 0 && login_fields(line)[0] == "UID_MIN"@
}

/// The position of the first line that sets the least user id of people, or the
/// number of lines.
pub open spec fn uid_min_line(lines: Seq<Seq<char>>) -> int {
    first_failing(|i: int| !sets_uid_min(lines[i]), lines.len(), 0)
}

/// The least user id of people that the text of `/etc/login.defs` sets, or the
/// error for a text that sets none.
pub open spec fn uid_min(contents: Seq<char>) -> Result<u32, AccountError> {
    let lines = text::lines(contents);
    let i = uid_min_line(lines);
    if i >= lines.len() {
        Err(AccountError::UidMinMissing)
    } else if login_fields(lines[i]).len() < 2 {
        Err(AccountError::UidMinWithoutValue)
    } else {
        match text::parsed_decimal(login_fields(lines[i])[1], u32::MAX as nat) {
            None => Err(AccountError::UidMinInvalid),
            Some(n) => Ok(n as u32),
        }
    }
}

fn split_login_fields(line: &str) -> (out: Vec<String>)
    ensures
        texts(out@) == login_fields(line@),
{
    let pieces = text::split_char(line, '#');
    assert(texts(pieces@)[0] == pieces@[0]@);
    text::split_words(pieces[0].as_str())
}

/// The least user id of people, from the text of `/etc/login.defs`.
pub fn login_uid_min(contents: &str) -> (r: Result<u32, AccountError>)
    ensures
        r == uid_min(contents@),
{
    let lines = text::split_lines(contents);
    let ghost all = texts(lines@);
    let ghost p = |k: int| !sets_uid_min(all[k]);
    let mut i: usize = 0;
    while i < lines.len()
        invariant
            i <= lines@.len(),
            all == texts(lines@),
            forall|k: int| 0 <= k < i ==> #[trigger] p(k),
        decreases lines@.len() - i,
    {
        assert(all[i as int] == lines@[i as int]@);
        let fields = split_login_fields(lines[i].as_str());
        let ghost views = texts(fields@);
        assert(views.len() == fields@.len());
        assert(fields@.len() > 0 ==> views[0] == fields@[0]@);
        assert(fields@.len() > 1 ==> views[1] == fields@[1]@);
        if fields.len() > 0 && text::same(fields[0].as_str(), "UID_MIN") {
            proof {
                assert(!p(i as int));
                lemma_first_failing(p, all.len(), 0, i as int);
            }
            if fields.len() < 2 {
                return Err(AccountError::UidMinWithoutValue);
            }
            return match text::parse_decimal(fields[1].as_str(), u32::MAX as u64) {
                Some(n) => Ok(n as u32),
                None => Err(AccountError::UidMinInvalid),
            };
        }
        assert(p(i as int));
        i = i + 1;
    }
    proof {
        lemma_first_failing(p, all.len(), 0, all.len() as int);
    }
    Err(AccountError::UidMinMissing)
}

/// Whether the shell of an account admits no login.
pub open spec fn no_login_shell(shell: Seq<char>) -> bool {
    unix_path::file_name(path(shell)) == Some("nologin"@) || unix_path::file_name(path(shell))
        == Some("false"@)
}

impl UnixAccount {
    /// The account with a user id, from what the account database gave.
    pub fn by_uid(uid: u32, found: Option<UnixAccount>) -> (r: Result<UnixAccount, AccountError>)
        ensures
            match found {
                Some(account) => r == Ok::<UnixAccount, AccountError>(account),
                None => r == Err::<UnixAccount, AccountError>(AccountError::NoAccount(uid)),
            },
    {
        match found {
            Some(account) => Ok(account),
            None => Err(AccountError::NoAccount(uid)),
        }
    }

    /// An owned copy.
    pub fn copy(&self) -> (r: UnixAccount)
        ensures
            r == *self,
    {
        UnixAccount {
            name: self.name.clone(),
            uid: self.uid,
            gid: self.gid,
            home: self.home.clone(),
            shell: self.shell.clone(),
        }
    }

    /// Whether a result is the judgement on an account that must be one of a
    /// person, given the text of `/etc/login.defs` and whether the home
    /// directory is there.
    pub open spec fn interactive_verdict(
        self,
        login_defs: Seq<char>,
        home_is_dir: bool,
        r: Result<(), AccountError>,
    ) -> bool {
        if self.uid == 0 {
            r == Err::<(), AccountError>(AccountError::SystemAccount(0))
        } else {
            match uid_min(login_defs) {
                Err(e) => r == Err::<(), AccountError>(e),
                Ok(least) => if self.uid < least {
                    r == Err::<(), AccountError>(AccountError::SystemAccount(self.uid))
                } else if !unix_path::is_plain(path(self.home@)) {
                    r matches Err(AccountError::NotNormalized(p)) && p@ == self.home@
                } else if !home_is_dir {
                    r == Err::<(), AccountError>(AccountError::HomeMissing(self.home))
                } else if no_login_shell(self.shell@) {
                    r == Err::<(), AccountError>(AccountError::NotInteractive(self.name))
                } else {
                    r is Ok
                },
            }
        }
    }

    /// Checks that the account is one of a person.
    pub fn validate_interactive(&self, login_defs: &str, home_is_dir: bool) -> (r: Result<
        (),
        AccountError,
    >)
        ensures
            self.interactive_verdict(login_defs@, home_is_dir, r),
    {
        if self.uid == 0 {
            return Err(AccountError::SystemAccount(0));
        }
        let least: u32 = login_uid_min(login_defs)?;
        if self.uid < least {
            return Err(AccountError::SystemAccount(self.uid));
        }
        validate_absolute_normal_path(self.home.as_str())?;
        if !home_is_dir {
            return Err(AccountError::HomeMissing(self.home.clone()));
        }
        if let Some(shell) = unix_path::file_name_of(self.shell.as_str()) {
            if text::same(shell.as_str(), "nologin") || text::same(shell.as_str(), "false") {
                return Err(AccountError::NotInteractive(self.name.clone()));
            }
        }
        Ok(())
    }
}

// ---------------------------------------------------------------------------
// The caller of a management request
// ---------------------------------------------------------------------------

/// Whether a line of a process status gives user ids.
pub open spec fn is_uid_line(line: Seq<char>) -> bool {
    "Uid:"@.is_prefix_of(line)
}

/// The position of the first line that gives user ids, or the number of lines.
pub open spec fn uid_line(lines: Seq<Seq<char>>) -> int {
    first_failing(|i: int| !is_uid_line(lines[i]), lines.len(), 0)
}

/// The effective user id in a process status: the second of those that its
/// first `Uid:` line gives.
pub open spec fn effective_uid(status: Seq<char>) -> Result<u32, AccountError> {
    let lines = text::lines(status);
    let i = uid_line(lines);
    if i >= lines.len() {
        Err(AccountError::CallerUidMissing)
    } else {
        let ids = text::words(lines[i].skip("Uid:"@.len() as int));
        if ids.len() < 2 {
            Err(AccountError::CallerUidMissing)
        } else {
            match text::parsed_decimal(ids[1], u32::MAX as nat) {
                None => Err(AccountError::CallerUidInvalid),
                Some(n) => Ok(n as u32),
            }
        }
    }
}

/// The effective user id in the text of `/proc/<pid>/status`.
pub fn read_effective_uid(status: &str) -> (r: Result<u32, AccountError>)
    ensures
        r == effective_uid(status@),
{
    let lines = text::split_lines(status);
    let ghost all = texts(lines@);
    let ghost p = |k: int| !is_uid_line(all[k]);
    let mut i: usize = 0;
    while i < lines.len()
        invariant
            i <= lines@.len(),
            all == texts(lines@),
            forall|k: int| 0 <= k < i ==> #[trigger] p(k),
        decreases lines@.len() - i,
    {
        assert(all[i as int] == lines@[i as int]@);
        if text::starts_with(lines[i].as_str(), "Uid:") {
            proof {
                assert(!p(i as int));
                lemma_first_failing(p, all.len(), 0, i as int);
            }
            let v = text::to_chars(lines[i].as_str());
            let n: usize = "Uid:".unicode_len();
            assert(v@.subrange(n as int, v@.len() as int) =~= v@.skip(n as int));
            let rest = text::from_chars_range(&v, n, v.len());
            let ids = text::split_words(rest.as_str());
            assert(texts(ids@).len() == ids@.len());
            if ids.len() < 2 {
                return Err(AccountError::CallerUidMissing);
            }
            assert(texts(ids@)[1] == ids@[1]@);
            return match text::parse_decimal(ids[1].as_str(), u32::MAX as u64) {
                Some(n) => Ok(n as u32),
                None => Err(AccountError::CallerUidInvalid),
            };
        }
        assert(p(i as int));
        i = i + 1;
    }
    proof {
        lemma_first_failing(p, all.len(), 0, all.len() as int);
    }
    Err(AccountError::CallerUidMissing)
}

/// The judgement on the process of a caller.
pub open spec fn peer_verdict(
    peer: PeerCredentials,
    account: UnixAccount,
    status: Seq<char>,
) -> Result<(), AccountError> {
    match effective_uid(status) {
        Err(e) => Err(e),
        Ok(uid) => if uid != peer.uid || account.uid != peer.uid {
            Err(AccountError::CallerChanged)
        } else {
            Ok(())
        },
    }
}

/// Checks that the process of a caller still is the caller's.
pub fn validate_peer_process(peer: PeerCredentials, account: &UnixAccount, status: &str) -> (r:
    Result<(), AccountError>)
    ensures
        r == peer_verdict(peer, *account, status@),
{
    let uid: u32 = read_effective_uid(status)?;
    if uid != peer.uid || account.uid != peer.uid {
        return Err(AccountError::CallerChanged);
    }
    Ok(())
}

/// The parts of a byte sequence between zero bytes.
pub open spec fn zero_split(bytes: Seq<u8>) -> Seq<Seq<u8>>
    decreases bytes.len(),
{
    if bytes.len() == 0 {
        seq![Seq::empty()]
    } else {
        let before = zero_split(bytes.drop_last());
        if bytes.last() == 0 {
            before.push(Seq::empty())
        } else {
            before.drop_last().push(before.last().push(bytes.last()))
        }
    }
}

/// Whether an entry of an environment sets a variable.
pub open spec fn sets_variable(entry: Seq<u8>, name: Seq<u8>) -> bool {
    name.push(61u8).is_prefix_of(entry)
}

/// The value of the first entry that sets a variable, where it is not empty.
pub open spec fn environment_value(environment: Seq<u8>, name: Seq<u8>) -> Option<Seq<u8>> {
    let entries = zero_split(environment);
    let i = first_failing(|k: int| !sets_variable(entries[k], name), entries.len(), 0);
    if i >= entries.len() || entries[i].len() == name.len() + 1 {
        None
    } else {
        Some(entries[i].skip(name.len() as int + 1))
    }
}

fn split_entries(bytes: &Vec<u8>) -> (out: Vec<Vec<u8>>)
    ensures
        out@.map_values(|e: Vec<u8>| e@) == zero_split(bytes@),
{
    let mut out: Vec<Vec<u8>> = Vec::new();
    let mut cur: Vec<u8> = Vec::new();
    let mut i: usize = 0;
    assert(out@.map_values(|e: Vec<u8>| e@).push(cur@) =~= zero_split(bytes@.take(0)));
    while i < bytes.len()
        invariant
            i <= bytes@.len(),
            out@.map_values(|e: Vec<u8>| e@).push(cur@) == zero_split(bytes@.take(i as int)),
        decreases bytes@.len() - i,
    {
        let ghost before = out@.map_values(|e: Vec<u8>| e@);
        let b: u8 = bytes[i];
        assert(bytes@.take(i + 1).drop_last() =~= bytes@.take(i as int));
        assert(before.push(cur@).drop_last() =~= before);
        if b == 0 {
            out.push(cur);
            cur = Vec::new();
            assert(out@.map_values(|e: Vec<u8>| e@) =~= before.push(out@.last()@));
        } else {
            cur.push(b);
        }
        assert(out@.map_values(|e: Vec<u8>| e@).push(cur@) =~= zero_split(bytes@.take(i + 1)));
        i = i + 1;
    }
    assert(bytes@.take(i as int) =~= bytes@);
    let ghost before = out@.map_values(|e: Vec<u8>| e@);
    out.push(cur);
    assert(out@.map_values(|e: Vec<u8>| e@) =~= before.push(out@.last()@));
    out
}

fn entry_sets(entry: &Vec<u8>, name: &Vec<u8>) -> (r: bool)
    ensures
        r == sets_variable(entry@, name@),
{
    let ghost prefix = name@.push(61u8);
    if entry.len() <= name.len() {
        return false;
    }
    let mut i: usize = 0;
    while i < name.len()
        invariant
            i <= name@.len() < entry@.len(),
            prefix == name@.push(61u8),
            forall|k: int| 0 <= k < i ==> entry@[k] == name@[k],
        decreases name@.len() - i,
    {
        if entry[i] != name[i] {
            assert(entry@.subrange(0, prefix.len() as int)[i as int] != prefix[i as int]);
            return false;
        }
        i = i + 1;
    }
    if entry[name.len()] != 61 {
        assert(entry@.subrange(0, prefix.len() as int)[name@.len() as int] != prefix[name@.len() as int]);
        return false;
    }
    assert(entry@.subrange(0, prefix.len() as int) =~= prefix);
    true
}

/// The value of a variable in the bytes of a process environment, where it is
/// set and not empty.
pub fn environment_path(environment: &Vec<u8>, name: &Vec<u8>) -> (r: Option<Vec<u8>>)
    ensures
        match r {
            Some(value) => environment_value(environment@, name@) == Some(value@),
            None => environment_value(environment@, name@) is None,
        },
{
    let entries = split_entries(environment);
    let ghost all = zero_split(environment@);
    let ghost p = |k: int| !sets_variable(all[k], name@);
    let mut i: usize = 0;
    while i < entries.len()
        invariant
            i <= entries@.len(),
            all == entries@.map_values(|e: Vec<u8>| e@),
            forall|k: int| 0 <= k < i ==> #[trigger] p(k),
        decreases entries@.len() - i,
    {
        assert(all[i as int] == entries@[i as int]@);
        let entry = &entries[i];
        if entry_sets(entry, name) {
            proof {
                assert(!p(i as int));
                lemma_first_failing(p, all.len(), 0, i as int);
            }
            let total: usize = entry.len();
            let start: usize = name.len() + 1;
            if total == start {
                return None;
            }
            let mut value: Vec<u8> = Vec::new();
            let mut j: usize = start;
            while j < entry.len()
                invariant
                    start <= j <= entry@.len(),
                    value@ == entry@.subrange(start as int, j as int),
                decreases entry@.len() - j,
            {
                value.push(entry[j]);
                j = j + 1;
                assert(entry@.subrange(start as int, j as int) =~= entry@.subrange(
                    start as int,
                    j - 1,
                ).push(entry@[j - 1]));
            }
            assert(value@ =~= entry@.skip(start as int));
            return Some(value);
        }
        assert(p(i as int));
        i = i + 1;
    }
    proof {
        lemma_first_failing(p, all.len(), 0, all.len() as int);
    }
    None
}

// ---------------------------------------------------------------------------
// A user's Cargo installation
// ---------------------------------------------------------------------------

/// What was found at the path of a program.
#[derive(Clone, Debug, PartialEq, Eq)]
pub struct ProgramFacts {
    pub found: bool,
    pub regular: bool,
    pub symlink: bool,
    pub uid: u32,
    pub mode: u32,
    pub link_target: Option<String>,
}

impl ProgramFacts {
    /// Whether the program is a regular file of the user with some right to
    /// execute it.
    pub open spec fn is_owned_program(self, uid: u32) -> bool {
        self.found && self.regular && self.uid == uid && self.mode & 0o111 != 0
    }
}

/// Whether a program is a regular file of the user with some right to execute
/// it.
pub fn owned_executable_regular_file(facts: &ProgramFacts, uid: u32) -> (r: bool)
    ensures
        r == facts.is_owned_program(uid),
{
    facts.found && facts.regular && facts.uid == uid && facts.mode & 0o111 != 0
}

/// Whether Cargo's executable is in order: a program of the user, or the usual
/// proxy, a link of the user's to the Rustup executable beside it.
pub open spec fn cargo_program_ok(
    cargo: Seq<char>,
    cargo_facts: ProgramFacts,
    rustup: Seq<char>,
    rustup_facts: ProgramFacts,
    uid: u32,
) -> bool {
    if !cargo_facts.found {
        false
    } else if cargo_facts.regular {
        cargo_facts.is_owned_program(uid)
    } else {
        &&& cargo_facts.symlink
        &&& cargo_facts.uid == uid
        &&& cargo_facts.link_target matches Some(target) && path(target@) == path("rustup"@)
        &&& unix_path::parent(path(cargo)) == unix_path::parent(path(rustup))
        &&& unix_path::file_name(path(rustup)) == Some("rustup"@)
        &&& rustup_facts.is_owned_program(uid)
    }
}

fn same_parent(a: &str, b: &str) -> (r: bool)
    ensures
        r == (unix_path::parent(path(a@)) == unix_path::parent(path(b@))),
{
    let mut pa = unix_path::parts(a);
    let mut pb = unix_path::parts(b);
    let ghost va = texts(pa@);
    let ghost vb = texts(pb@);
    assert(va.len() == pa@.len() && vb.len() == pb@.len());
    if pa.len() == 0 || pb.len() == 0 {
        return pa.len() == 0 && pb.len() == 0;
    }
    let _ = pa.pop();
    let _ = pb.pop();
    assert(texts(pa@) =~= va.drop_last());
    assert(texts(pb@) =~= vb.drop_last());
    unix_path::is_absolute(a) == unix_path::is_absolute(b) && unix_path::same_texts(&pa, &pb)
}

/// Whether Cargo's executable is in order.
pub fn owned_cargo_executable(
    cargo: &str,
    cargo_facts: &ProgramFacts,
    rustup: &str,
    rustup_facts: &ProgramFacts,
    uid: u32,
) -> (r: bool)
    ensures
        r == cargo_program_ok(cargo@, *cargo_facts, rustup@, *rustup_facts, uid),
{
    if !cargo_facts.found {
        return false;
    }
    if cargo_facts.regular {
        return owned_executable_regular_file(cargo_facts, uid);
    }
    if !cargo_facts.symlink || cargo_facts.uid != uid {
        return false;
    }
    let linked = match &cargo_facts.link_target {
        Some(target) => unix_path::same_path(target.as_str(), "rustup"),
        None => false,
    };
    let named = match unix_path::file_name_of(rustup) {
        Some(name) => text::same(name.as_str(), "rustup"),
        None => false,
    };
    linked && same_parent(cargo, rustup) && named && owned_executable_regular_file(
        rustup_facts,
        uid,
    )
}

/// The account and the Cargo installation of the user who asked for a redeploy.
#[derive(Clone, Debug, PartialEq, Eq)]
pub struct UserInstallContext {
    pub account_name: String,
    pub uid: u32,
    pub gid: u32,
    pub home: String,
    pub cargo_home: String,
    pub rustup_home: String,
    pub cargo: String,
    pub rustup: String,
    pub installed_binary: String,
}

/// What was found of a user's programs.
#[derive(Clone, Debug, PartialEq, Eq)]
pub struct InstallFacts {
    pub cargo: ProgramFacts,
    pub rustup: ProgramFacts,
    pub installed_binary: ProgramFacts,
}

/// A directory from the environment, or the usual one in the home directory.
pub open spec fn chosen_home(home: Seq<char>, value: Option<String>, usual: Seq<char>) -> Seq<
    char,
> {
    match value {
        Some(v) => v@,
        None => unix_path::joined(home, usual),
    }
}

/// The path of a binary that Cargo installed.
pub open spec fn installed_path(cargo_home: Seq<char>, binary: Seq<char>) -> Seq<char> {
    unix_path::joined(unix_path::joined(cargo_home, "bin"@), binary)
}

/// The error for a directory that is not a plain path in the home directory.
pub open spec fn home_fault(home: Seq<char>, p: Seq<char>, e: AccountError) -> bool {
    if !unix_path::is_plain(path(p)) {
        e matches AccountError::NotNormalized(actual) && actual@ == p
    } else {
        e matches AccountError::OutsideHome(actual) && actual@ == p
    }
}

/// Whether a directory is a plain path in the home directory.
pub open spec fn in_home(home: Seq<char>, p: Seq<char>) -> bool {
    unix_path::is_plain(path(p)) && unix_path::is_under(path(p), path(home))
}

fn check_in_home(home: &str, p: &str) -> (r: Result<(), AccountError>)
    ensures
        r is Ok <==> in_home(home@, p@),
        r matches Err(e) ==> home_fault(home@, p@, e),
{
    validate_absolute_normal_path(p)?;
    if !unix_path::starts_with(p, home) {
        return Err(AccountError::OutsideHome(p.to_owned()));
    }
    Ok(())
}

impl UserInstallContext {
    /// Whether the context is that of the account, with its paths derived from
    /// the environment.
    pub open spec fn located(
        self,
        account: UnixAccount,
        cargo_home: Option<String>,
        rustup_home: Option<String>,
        binary: Seq<char>,
    ) -> bool {
        &&& self.account_name == account.name
        &&& self.uid == account.uid
        &&& self.gid == account.gid
        &&& self.home == account.home
        &&& self.cargo_home@ == chosen_home(account.home@, cargo_home, ".cargo"@)
        &&& self.rustup_home@ == chosen_home(account.home@, rustup_home, ".rustup"@)
        &&& self.cargo@ == unix_path::joined(self.cargo_home@, "bin/cargo"@)
        &&& self.rustup@ == unix_path::joined(self.cargo_home@, "bin/rustup"@)
        &&& self.installed_binary@ == installed_path(self.cargo_home@, binary)
    }

    /// Where a user's Cargo installation must be: the directories that the
    /// caller's environment names, or the usual ones, in the home directory.
    pub fn locate(
        account: &UnixAccount,
        cargo_home: Option<String>,
        rustup_home: Option<String>,
        binary_name: &str,
    ) -> (r: Result<UserInstallContext, AccountError>)
        ensures
            ({
                let cargo = chosen_home(account.home@, cargo_home, ".cargo"@);
                let rustup = chosen_home(account.home@, rustup_home, ".rustup"@);
                &&& r is Ok <==> in_home(account.home@, cargo) && in_home(account.home@, rustup)
                &&& r matches Ok(context) ==> context.located(
                    *account,
                    cargo_home,
                    rustup_home,
                    binary_name@,
                )
                &&& r matches Err(e) ==> if !in_home(account.home@, cargo) {
                    home_fault(account.home@, cargo, e)
                } else {
                    home_fault(account.home@, rustup, e)
                }
            }),
    {
        let cargo_home = match cargo_home {
            Some(value) => value,
            None => unix_path::join(account.home.as_str(), ".cargo"),
        };
        let rustup_home = match rustup_home {
            Some(value) => value,
            None => unix_path::join(account.home.as_str(), ".rustup"),
        };
        check_in_home(account.home.as_str(), cargo_home.as_str())?;
        check_in_home(account.home.as_str(), rustup_home.as_str())?;
        let bin = unix_path::join(cargo_home.as_str(), "bin");
        let installed_binary = unix_path::join(bin.as_str(), binary_name);
        let cargo = unix_path::join(cargo_home.as_str(), "bin/cargo");
        let rustup = unix_path::join(cargo_home.as_str(), "bin/rustup");
        Ok(
            UserInstallContext {
                account_name: account.name.clone(),
                uid: account.uid,
                gid: account.gid,
                home: account.home.clone(),
                cargo_home,
                rustup_home,
                cargo,
                rustup,
                installed_binary,
            },
        )
    }

    /// Whether the programs of the installation are in order.
    pub open spec fn programs_ok(self, facts: InstallFacts) -> bool {
        &&& facts.rustup.is_owned_program(self.uid)
        &&& cargo_program_ok(self.cargo@, facts.cargo, self.rustup@, facts.rustup, self.uid)
        &&& facts.installed_binary.is_owned_program(self.uid)
    }

    /// Captures a located installation: `None` where the user has not installed
    /// the binary, and an error where the tools that it needs are not in order.
    pub fn capture(self, facts: &InstallFacts) -> (r: Result<
        Option<UserInstallContext>,
        AccountError,
    >)
        ensures
            r == if !facts.installed_binary.is_owned_program(self.uid) {
                Ok::<Option<UserInstallContext>, AccountError>(None)
            } else if !facts.rustup.is_owned_program(self.uid) {
                Err::<Option<UserInstallContext>, AccountError>(AccountError::NoRustup(self.rustup))
            } else if !cargo_program_ok(
                self.cargo@,
                facts.cargo,
                self.rustup@,
                facts.rustup,
                self.uid,
            ) {
                Err::<Option<UserInstallContext>, AccountError>(AccountError::NoCargo(self.cargo))
            } else {
                Ok::<Option<UserInstallContext>, AccountError>(Some(self))
            },
    {
        if !owned_executable_regular_file(&facts.installed_binary, self.uid) {
            return Ok(None);
        }
        if !owned_executable_regular_file(&facts.rustup, self.uid) {
            return Err(AccountError::NoRustup(self.rustup));
        }
        if !owned_cargo_executable(
            self.cargo.as_str(),
            &facts.cargo,
            self.rustup.as_str(),
            &facts.rustup,
            self.uid,
        ) {
            return Err(AccountError::NoCargo(self.cargo));
        }
        Ok(Some(self))
    }

    /// Whether an account and a binary still are those that were captured.
    pub open spec fn same_identity(self, account: UnixAccount, binary: Seq<char>) -> bool {
        &&& account.name@ == self.account_name@
        &&& account.gid == self.gid
        &&& path(account.home@) == path(self.home@)
        &&& path(self.installed_binary@) == path(installed_path(self.cargo_home@, binary))
    }

    /// Whether every path of the installation is a plain path in the home
    /// directory.
    pub open spec fn paths_in_home(self) -> bool {
        &&& in_home(self.home@, self.cargo_home@)
        &&& in_home(self.home@, self.rustup_home@)
        &&& in_home(self.home@, self.cargo@)
        &&& in_home(self.home@, self.rustup@)
        &&& in_home(self.home@, self.installed_binary@)
    }

    /// The first path of the installation that is not a plain path in the home
    /// directory.
    pub open spec fn first_path_outside(self) -> Seq<char> {
        if !in_home(self.home@, self.cargo_home@) {
            self.cargo_home@
        } else if !in_home(self.home@, self.rustup_home@) {
            self.rustup_home@
        } else if !in_home(self.home@, self.cargo@) {
            self.cargo@
        } else if !in_home(self.home@, self.rustup@) {
            self.rustup@
        } else {
            self.installed_binary@
        }
    }

    fn check_path(&self, p: &str) -> (r: Result<(), AccountError>)
        ensures
            r is Ok <==> in_home(self.home@, p@),
            r matches Err(e) ==> if unix_path::is_plain(path(p@)) {
                e is EscapedHome
            } else {
                e matches AccountError::NotNormalized(actual) && actual@ == p@
            },
    {
        validate_absolute_normal_path(p)?;
        if !unix_path::starts_with(p, self.home.as_str()) {
            return Err(AccountError::EscapedHome);
        }
        Ok(())
    }

    /// Checks that a captured installation still is what it was. `account` is
    /// the account that the user id has now.
    pub fn revalidate(&self, account: UnixAccount, binary_name: &str, facts: &InstallFacts) -> (r:
        Result<UnixAccount, AccountError>)
        ensures
            if !self.same_identity(account, binary_name@) {
                r == Err::<UnixAccount, AccountError>(AccountError::IdentityChanged)
            } else if !self.paths_in_home() {
                r matches Err(e) && if unix_path::is_plain(path(self.first_path_outside())) {
                    e is EscapedHome
                } else {
                    e matches AccountError::NotNormalized(actual) && actual@
                        == self.first_path_outside()
                }
            } else if !self.programs_ok(*facts) {
                r == Err::<UnixAccount, AccountError>(AccountError::InstallationChanged)
            } else {
                r == Ok::<UnixAccount, AccountError>(account)
            },
    {
        let bin = unix_path::join(self.cargo_home.as_str(), "bin");
        let expected = unix_path::join(bin.as_str(), binary_name);
        if account.name != self.account_name || account.gid != self.gid || !unix_path::same_path(
            account.home.as_str(),
            self.home.as_str(),
        ) || !unix_path::same_path(self.installed_binary.as_str(), expected.as_str()) {
            return Err(AccountError::IdentityChanged);
        }
        self.check_path(self.cargo_home.as_str())?;
        self.check_path(self.rustup_home.as_str())?;
        self.check_path(self.cargo.as_str())?;
        self.check_path(self.rustup.as_str())?;
        self.check_path(self.installed_binary.as_str())?;
        if !owned_executable_regular_file(&facts.rustup, self.uid) || !owned_cargo_executable(
            self.cargo.as_str(),
            &facts.cargo,
            self.rustup.as_str(),
            &facts.rustup,
            self.uid,
        ) || !owned_executable_regular_file(&facts.installed_binary, self.uid) {
            return Err(AccountError::InstallationChanged);
        }
        Ok(account)
    }
}

// ---------------------------------------------------------------------------
// The build account
// ---------------------------------------------------------------------------

/// The shared account that builds releases, and its directories.
#[derive(Clone, Debug, PartialEq, Eq)]
pub struct BuildAccount {
    pub account: UnixAccount,
    pub cargo_tools_home: String,
    pub rustup_home: String,
    pub cache_home: String,
    pub target_home: String,
    pub jobs_home: String,
}

impl BuildAccount {
    /// The arguments of `groupadd` that make the build group.
    pub fn group_arguments() -> (r: Vec<String>)
        ensures
            texts(r@) == seq!["--system"@, "capulus-build"@],
    {
        let mut out: Vec<String> = Vec::new();
        out.push("--system".to_owned());
        out.push(BUILD_GROUP.to_owned());
        assert(texts(out@) =~= seq!["--system"@, "capulus-build"@]);
        out
    }

    /// The arguments of `useradd` that make the build account.
    pub fn user_arguments() -> (r: Vec<String>)
        ensures
            texts(r@) == seq![
                "--system"@,
                "--gid"@,
                "capulus-build"@,
                "--home-dir"@,
                "/var/lib/capulus-build"@,
                "--create-home"@,
                "--shell"@,
                "/usr/sbin/nologin"@,
                "capulus-build"@,
            ],
    {
        let mut out: Vec<String> = Vec::new();
        out.push("--system".to_owned());
        out.push("--gid".to_owned());
        out.push(BUILD_GROUP.to_owned());
        out.push("--home-dir".to_owned());
        out.push(BUILD_HOME.to_owned());
        out.push("--create-home".to_owned());
        out.push("--shell".to_owned());
        out.push("/usr/sbin/nologin".to_owned());
        out.push(BUILD_USER.to_owned());
        assert(texts(out@) =~= seq![
            "--system"@,
            "--gid"@,
            "capulus-build"@,
            "--home-dir"@,
            "/var/lib/capulus-build"@,
            "--create-home"@,
            "--shell"@,
            "/usr/sbin/nologin"@,
            "capulus-build"@,
        ]);
        out
    }

    /// Whether an account is the build account that the library demands.
    pub open spec fn account_ok(account: UnixAccount, group: Option<String>) -> bool {
        &&& path(account.home@) == path("/var/lib/capulus-build"@)
        &&& path(account.shell@) == path("/usr/sbin/nologin"@)
        &&& text::opt(group) == Some("capulus-build"@)
    }

    /// The build account, from what the account database gave, with the name of
    /// its primary group.
    pub fn ensure(account: Option<UnixAccount>, group: &Option<String>) -> (r: Result<
        BuildAccount,
        AccountError,
    >)
        ensures
            match account {
                None => r == Err::<BuildAccount, AccountError>(
                    AccountError::BuildAccountNotCreated,
                ),
                Some(found) => if BuildAccount::account_ok(found, *group) {
                    r matches Ok(build) && build.account == found && build.cargo_tools_home@
                        == "/var/lib/capulus-build/cargo-tools"@ && build.rustup_home@
                        == "/var/lib/capulus-build/rustup"@ && build.cache_home@
                        == "/var/lib/capulus-build/cache"@ && build.target_home@
                        == "/var/lib/capulus-build/target"@ && build.jobs_home@
                        == "/var/lib/capulus-build/jobs"@
                } else {
                    r == Err::<BuildAccount, AccountError>(AccountError::BuildAccountMismatch)
                },
            },
    {
        let account = match account {
            Some(account) => account,
            None => return Err(AccountError::BuildAccountNotCreated),
        };
        let grouped = match group {
            Some(name) => text::same(name.as_str(), BUILD_GROUP),
            None => false,
        };
        if !unix_path::same_path(account.home.as_str(), BUILD_HOME) || !unix_path::same_path(
            account.shell.as_str(),
            "/usr/sbin/nologin",
        ) || !grouped {
            return Err(AccountError::BuildAccountMismatch);
        }
        Ok(
            BuildAccount {
                account,
                cargo_tools_home: BUILD_CARGO_TOOLS_HOME.to_owned(),
                rustup_home: BUILD_RUSTUP_HOME.to_owned(),
                cache_home: BUILD_CACHE_HOME.to_owned(),
                target_home: BUILD_TARGET_HOME.to_owned(),
                jobs_home: BUILD_JOBS_HOME.to_owned(),
            },
        )
    }

    /// The path of the build account's Cargo.
    pub fn cargo(&self) -> (out: String)
        ensures
            out@ == unix_path::joined(self.cargo_tools_home@, "bin/cargo"@),
    {
        unix_path::join(self.cargo_tools_home.as_str(), "bin/cargo")
    }

    /// The path of the build account's Rustup.
    pub fn rustup(&self) -> (out: String)
        ensures
            out@ == unix_path::joined(self.cargo_tools_home@, "bin/rustup"@),
    {
        unix_path::join(self.cargo_tools_home.as_str(), "bin/rustup")
    }
}

/// Checks that a managed operation runs as root.
pub fn require_root(is_root: bool) -> (r: Result<(), AccountError>)
    ensures
        r == if is_root {
            Ok::<(), AccountError>(())
        } else {
            Err::<(), AccountError>(AccountError::RequiresRoot)
        },
{
    if is_root {
        Ok(())
    } else {
        Err(AccountError::RequiresRoot)
    }
}

/// Whether a directory of the build account is still to be made: it may be
/// missing, but nothing else than a real directory may stand in its place.
pub fn directory_is_missing(directory: &String, found: bool, is_directory: bool) -> (r: Result<
    bool,
    AccountError,
>)
    ensures
        r == if found && !is_directory {
            Err::<bool, AccountError>(AccountError::NotRealDirectory(*directory))
        } else {
            Ok::<bool, AccountError>(!found)
        },
{
    if found && !is_directory {
        return Err(AccountError::NotRealDirectory(directory.clone()));
    }
    Ok(!found)
}

/// What is said of a command that failed: its errors, or its output where it
/// printed no errors at all.
pub fn command_failure(action: &str, stdout: &str, stderr: &str) -> (out: String)
    ensures
        out@ == "failed to "@ + action@ + ": "@ + text::trimmed(
            if stderr@.len() == 0 {
                stdout@
            } else {
                stderr@
            },
        ),
{
    let detail = if stderr.is_empty() {
        text::trim(stdout)
    } else {
        text::trim(stderr)
    };
    "failed to ".to_owned().concat(action).concat(": ").concat(detail.as_str())
}

} // verus!
