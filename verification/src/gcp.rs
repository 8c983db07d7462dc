//! Google Cloud credentials: which project and account are used, and how long
//! an access token is kept.

use vstd::prelude::*;

use crate::process::{CommandLine, CommandLineView};
use crate::search::{first_failing, lemma_first_failing};
use crate::text;
use crate::text::texts;
use crate::unix_path;

verus! {

/// How long a token without a known expiry is kept.
pub const DEFAULT_ACCESS_TOKEN_LIFETIME_MS: u128 = 3_600_000;

/// How long before its expiry a token is no longer used.
pub const ACCESS_TOKEN_REFRESH_SKEW_MS: u128 = 60_000;

/// A request for an access token.
#[derive(Clone, Copy, Debug, PartialEq, Eq)]
pub struct AccessTokenRequest<'a> {
    pub configured_credentials_path: Option<&'a str>,
    pub cache_path: &'a str,
}

/// A token that was kept, and the credentials that it came from.
#[derive(Clone, Debug, PartialEq, Eq)]
pub struct CachedAccessToken {
    pub token: String,
    pub expires_at_epoch_ms: u128,
    pub credential_source: String,
}

/// What asking for a token gave.
#[derive(Clone, Debug, PartialEq, Eq)]
pub struct AccessTokenReply {
    pub token: String,
    pub token_expiry: Option<String>,
}

/// Where credentials come from.
#[derive(Clone, Debug, PartialEq, Eq)]
pub enum CredentialSource {
    ActiveAccount(String),
    ApplicationDefault(String),
}

/// Why there is no access token.
#[derive(Clone, Copy, Debug, PartialEq, Eq, Structural)]
pub enum GcpError {
    NoCredentials,
    EmptyToken,
}

impl GcpError {
    /// The words for the error.
    pub open spec fn words(self) -> Seq<char> {
        match self {
            GcpError::NoCredentials =>
                "No active gcloud account or application-default credentials were found."@,
            GcpError::EmptyToken => "GCP access token lookup returned an empty token."@,
        }
    }

    /// The words for the error.
    pub fn message(&self) -> (r: &'static str)
        ensures
            r@ == self.words(),
    {
        match self {
            GcpError::NoCredentials =>
                "No active gcloud account or application-default credentials were found.",
            GcpError::EmptyToken => "GCP access token lookup returned an empty token.",
        }
    }
}

/// The trimmed text, where there is one and it is not empty.
pub open spec fn given(value: Option<Seq<char>>) -> Option<Seq<char>> {
    match value {
        Some(s) => if text::trimmed(s).len() > 0 {
            Some(text::trimmed(s))
        } else {
            None
        },
        None => None,
    }
}

/// The characters of a text that may be missing.
pub open spec fn chars_of(value: Option<&str>) -> Option<Seq<char>> {
    match value {
        Some(s) => Some(s@),
        None => None,
    }
}

/// The trimmed text, where there is one and it is not empty.
pub fn nonempty(value: Option<&str>) -> (r: Option<String>)
    ensures
        text::opt(r) == given(chars_of(value)),
{
    match value {
        Some(s) => {
            let trimmed = text::trim(s);
            if trimmed.as_str().is_empty() {
                None
            } else {
                Some(trimmed)
            }
        },
        None => None,
    }
}

fn nonempty_string(value: &Option<String>) -> (r: Option<String>)
    ensures
        text::opt(r) == given(text::opt(*value)),
{
    match value {
        Some(s) => nonempty(Some(s.as_str())),
        None => None,
    }
}

/// The texts of a list that may be missing.
pub open spec fn opts(list: Seq<Option<String>>) -> Seq<Option<Seq<char>>> {
    list.map_values(|s: Option<String>| text::opt(s))
}

/// The first given text of a list.
pub open spec fn first_given(list: Seq<Option<Seq<char>>>) -> Option<Seq<char>> {
    let i = first_failing(|k: int| given(list[k]) is None, list.len(), 0);
    if i < list.len() {
        given(list[i])
    } else {
        None
    }
}

/// Whether a text is `(unset)`, whatever the case of its letters.
pub open spec fn is_unset(s: Seq<char>) -> bool {
    s.map_values(|c: char| text::lower(c)) == "(unset)"@
}

fn says_unset(s: &str) -> (r: bool)
    ensures
        r == is_unset(s@),
{
    let v = text::to_chars(s);
    let ghost mapped = s@.map_values(|c: char| text::lower(c));
    let mut lowered = String::new();
    let mut i: usize = 0;
    while i < v.len()
        invariant
            i <= v@.len(),
            v@ == s@,
            mapped == s@.map_values(|c: char| text::lower(c)),
            lowered@ == mapped.take(i as int),
        decreases v@.len() - i,
    {
        lowered.push(text::to_lower(v[i]));
        i = i + 1;
        assert(mapped.take(i as int) =~= mapped.take(i - 1).push(mapped[i - 1]));
    }
    assert(mapped.take(i as int) =~= mapped);
    text::same(lowered.as_str(), "(unset)")
}

/// The names of the variables that may name a project, in their order.
pub fn project_variables() -> (r: Vec<String>)
    ensures
        texts(r@) == seq!["CLOUDSDK_CORE_PROJECT"@, "GOOGLE_CLOUD_PROJECT"@, "GCLOUD_PROJECT"@],
{
    let mut out: Vec<String> = Vec::new();
    out.push("CLOUDSDK_CORE_PROJECT".to_owned());
    out.push("GOOGLE_CLOUD_PROJECT".to_owned());
    out.push("GCLOUD_PROJECT".to_owned());
    assert(texts(out@) =~= seq![
        "CLOUDSDK_CORE_PROJECT"@,
        "GOOGLE_CLOUD_PROJECT"@,
        "GCLOUD_PROJECT"@,
    ]);
    out
}

/// The project that is used: the kept one, where it counts, else the first that
/// a variable names, else the one that `gcloud` is set to.
pub open spec fn project(
    cached: Option<Seq<char>>,
    include_cached: bool,
    variables: Seq<Option<Seq<char>>>,
    configured: Option<Seq<char>>,
) -> Option<Seq<char>> {
    if include_cached && given(cached) is Some {
        given(cached)
    } else if first_given(variables) is Some {
        first_given(variables)
    } else {
        match given(configured) {
            Some(s) => if is_unset(s) {
                None
            } else {
                Some(s)
            },
            None => None,
        }
    }
}

fn find_given(list: &Vec<Option<String>>) -> (r: Option<String>)
    ensures
        text::opt(r) == first_given(opts(list@)),
{
    let ghost all = opts(list@);
    let ghost p = |k: int| given(all[k]) is None;
    let mut i: usize = 0;
    while i < list.len()
        invariant
            i <= list@.len(),
            all == opts(list@),
            forall|k: int| 0 <= k < i ==> #[trigger] p(k),
        decreases list@.len() - i,
    {
        assert(all[i as int] == text::opt(list@[i as int]));
        let found = nonempty_string(&list[i]);
        if found.is_some() {
            proof {
                assert(!p(i as int));
                lemma_first_failing(p, all.len(), 0, i as int);
            }
            return found;
        }
        assert(p(i as int));
        i = i + 1;
    }
    proof {
        lemma_first_failing(p, all.len(), 0, all.len() as int);
    }
    None
}

/// The project that is used. `variables` are the values of the project
/// variables, and `configured` is what `gcloud` printed, where it succeeded.
pub fn detect_project(
    cached_project: Option<&str>,
    include_cached: bool,
    variables: &Vec<Option<String>>,
    configured: &Option<String>,
) -> (r: Option<String>)
    ensures
        text::opt(r) == project(
            chars_of(cached_project),
            include_cached,
            opts(variables@),
            text::opt(*configured),
        ),
{
    if include_cached {
        let cached = nonempty(cached_project);
        if cached.is_some() {
            return cached;
        }
    }
    let named = find_given(variables);
    if named.is_some() {
        return named;
    }
    match nonempty_string(configured) {
        Some(value) => if says_unset(value.as_str()) {
            None
        } else {
            Some(value)
        },
        None => None,
    }
}

/// The credential files that are looked for, in their order.
pub open spec fn credential_candidates(
    cached: Option<Seq<char>>,
    include_cached: bool,
    variable: Option<Seq<char>>,
    home: Option<Seq<char>>,
) -> Seq<Seq<char>> {
    let kept = match given(cached) {
        Some(p) => if include_cached {
            seq![p]
        } else {
            seq![]
        },
        None => seq![],
    };
    let named = match given(variable) {
        Some(p) => seq![p],
        None => seq![],
    };
    let usual = match home {
        Some(h) => seq![
            unix_path::joined(h, ".config/gcloud/application_default_credentials.json"@),
        ],
        None => seq![],
    };
    kept + named + usual
}

/// The credential files that are looked for, in their order; the first that is
/// there is used.
pub fn detect_credentials_path(
    cached_path: Option<&str>,
    include_cached: bool,
    variable: &Option<String>,
    home: &Option<String>,
) -> (r: Vec<String>)
    ensures
        texts(r@) == credential_candidates(
            chars_of(cached_path),
            include_cached,
            text::opt(*variable),
            text::opt(*home),
        ),
{
    let mut out: Vec<String> = Vec::new();
    if include_cached {
        if let Some(p) = nonempty(cached_path) {
            out.push(p);
        }
    }
    if let Some(p) = nonempty_string(variable) {
        out.push(p);
    }
    if let Some(h) = home {
        out.push(
            unix_path::join(h.as_str(), ".config/gcloud/application_default_credentials.json"),
        );
    }
    assert(texts(out@) =~= credential_candidates(
        chars_of(cached_path),
        include_cached,
        text::opt(*variable),
        text::opt(*home),
    ));
    out
}

/// The credential file that is used: the first of the candidates that is there.
pub fn choose_credentials(candidates: &Vec<String>, present: &Vec<bool>) -> (r: Option<String>)
    requires
        candidates@.len() == present@.len(),
    ensures
        ({
            let i = first_failing(|k: int| !present@[k], present@.len(), 0);
            r == if i < present@.len() {
                Some(candidates@[i])
            } else {
                None
            }
        }),
{
    let ghost p = |k: int| !present@[k];
    let mut i: usize = 0;
    while i < candidates.len()
        invariant
            i <= candidates@.len(),
            candidates@.len() == present@.len(),
            forall|k: int| 0 <= k < i ==> #[trigger] p(k),
        decreases candidates@.len() - i,
    {
        if present[i] {
            proof {
                assert(!p(i as int));
                lemma_first_failing(p, present@.len(), 0, i as int);
            }
            return Some(candidates[i].clone());
        }
        assert(p(i as int));
        i = i + 1;
    }
    proof {
        lemma_first_failing(p, present@.len(), 0, present@.len() as int);
    }
    None
}

/// The account that a list of accounts begins with: its first line that is not
/// blank.
pub open spec fn listed_account(stdout: Seq<char>) -> Option<Seq<char>> {
    let lines = text::lines(stdout);
    let i = first_failing(|k: int| text::trimmed(lines[k]).len() == 0, lines.len(), 0);
    if i < lines.len() {
        Some(text::trimmed(lines[i]))
    } else {
        None
    }
}

/// The active account, from what `gcloud auth list` came to.
pub fn active_account(success: bool, stdout: &str) -> (r: Option<String>)
    ensures
        text::opt(r) == if success {
            listed_account(stdout@)
        } else {
            None
        },
{
    if !success {
        return None;
    }
    let lines = text::split_lines(stdout);
    let ghost all = texts(lines@);
    let ghost p = |k: int| text::trimmed(all[k]).len() == 0;
    let mut i: usize = 0;
    while i < lines.len()
        invariant
            i <= lines@.len(),
            all == texts(lines@),
            forall|k: int| 0 <= k < i ==> #[trigger] p(k),
        decreases lines@.len() - i,
    {
        assert(all[i as int] == lines@[i as int]@);
        let trimmed = text::trim(lines[i].as_str());
        if !trimmed.as_str().is_empty() {
            proof {
                assert(!p(i as int));
                lemma_first_failing(p, all.len(), 0, i as int);
            }
            return Some(trimmed);
        }
        assert(p(i as int));
        i = i + 1;
    }
    proof {
        lemma_first_failing(p, all.len(), 0, all.len() as int);
    }
    None
}

/// Whether there is an active account, from what `gcloud auth list` came to.
pub fn has_active_account(success: bool, stdout: &str) -> (r: bool)
    ensures
        r == (success && listed_account(stdout@) is Some),
{
    active_account(success, stdout).is_some()
}

/// The command that runs `gcloud` with the configured credentials, where there
/// are some.
pub fn command(configured_credentials_path: Option<&str>) -> (r: CommandLine)
    ensures
        r@ == (CommandLineView {
            program: "gcloud"@,
            arguments: Seq::empty(),
            environment: match given(chars_of(configured_credentials_path)) {
                Some(p) => seq![("GOOGLE_APPLICATION_CREDENTIALS"@, p)],
                None => Seq::empty(),
            },
        }),
{
    let mut command = CommandLine::new("gcloud");
    if let Some(p) = nonempty(configured_credentials_path) {
        command.env("GOOGLE_APPLICATION_CREDENTIALS", p.as_str());
        assert(command@.environment =~= seq![("GOOGLE_APPLICATION_CREDENTIALS"@, p@)]);
    }
    command
}

impl CredentialSource {
    /// The text that identifies the source.
    pub open spec fn identity(self) -> Seq<char> {
        match self {
            CredentialSource::ActiveAccount(account) => "account:"@ + account@,
            CredentialSource::ApplicationDefault(path) => "adc:"@ + path@,
        }
    }

    /// The text that identifies the source.
    pub fn key(&self) -> (out: String)
        ensures
            out@ == self.identity(),
    {
        match self {
            CredentialSource::ActiveAccount(account) => "account:".to_owned().concat(
                account.as_str(),
            ),
            CredentialSource::ApplicationDefault(path) => "adc:".to_owned().concat(path.as_str()),
        }
    }

    /// The arguments that make `gcloud` print a token of the source.
    pub open spec fn arguments(self) -> Seq<Seq<char>> {
        match self {
            CredentialSource::ActiveAccount(_) => seq![
                "auth"@,
                "print-access-token"@,
                "--format=json"@,
            ],
            CredentialSource::ApplicationDefault(_) => seq![
                "auth"@,
                "application-default"@,
                "print-access-token"@,
                "--format=json"@,
            ],
        }
    }

    /// The arguments that make `gcloud` print a token of the source.
    pub fn command_args(&self) -> (r: Vec<String>)
        ensures
            texts(r@) == self.arguments(),
    {
        let mut out: Vec<String> = Vec::new();
        out.push("auth".to_owned());
        if let CredentialSource::ApplicationDefault(_) = self {
            out.push("application-default".to_owned());
        }
        out.push("print-access-token".to_owned());
        out.push("--format=json".to_owned());
        assert(texts(out@) =~= self.arguments());
        out
    }

    /// The source that is used: the configured credentials, else the active
    /// account, else the credentials that were found.
    pub fn choose_source(
        configured_credentials_path: Option<&str>,
        account: Option<String>,
        found: Option<String>,
    ) -> (r: Result<CredentialSource, GcpError>)
        ensures
            match given(chars_of(configured_credentials_path)) {
                Some(p) => r matches Ok(CredentialSource::ApplicationDefault(s)) && s@ == p,
                None => r == match (account, found) {
                    (Some(a), _) => Ok::<CredentialSource, GcpError>(
                        CredentialSource::ActiveAccount(a),
                    ),
                    (None, Some(p)) => Ok::<CredentialSource, GcpError>(
                        CredentialSource::ApplicationDefault(p),
                    ),
                    (None, None) => Err::<CredentialSource, GcpError>(GcpError::NoCredentials),
                },
            },
    {
        if let Some(p) = nonempty(configured_credentials_path) {
            return Ok(CredentialSource::ApplicationDefault(p));
        }
        if let Some(account) = account {
            return Ok(CredentialSource::ActiveAccount(account));
        }
        if let Some(p) = found {
            return Ok(CredentialSource::ApplicationDefault(p));
        }
        Err(GcpError::NoCredentials)
    }
}

/// The sum of two times, or the latest time where it is beyond that.
pub open spec fn later(now: u128, span: u128) -> int {
    if now + span > u128::MAX {
        u128::MAX as int
    } else {
        now + span
    }
}

fn add_span(now: u128, span: u128) -> (r: u128)
    ensures
        r == later(now, span),
{
    if now > u128::MAX - span {
        u128::MAX
    } else {
        now + span
    }
}

/// Whether a kept token can still be used: it is not blank, comes from the same
/// source, and does not expire too soon.
pub open spec fn usable(cached: CachedAccessToken, source: CredentialSource, now: u128) -> bool {
    &&& text::trimmed(cached.token@).len() > 0
    &&& cached.credential_source@ == source.identity()
    &&& later(now, ACCESS_TOKEN_REFRESH_SKEW_MS) < cached.expires_at_epoch_ms
}

/// The kept token, where it can still be used.
pub fn load_cached_access_token(
    cached: Option<CachedAccessToken>,
    source: &CredentialSource,
    now_epoch_ms: u128,
) -> (r: Option<String>)
    ensures
        match cached {
            Some(kept) => if usable(kept, *source, now_epoch_ms) {
                r == Some(kept.token)
            } else {
                r is None
            },
            None => r is None,
        },
{
    let cached = match cached {
        Some(cached) => cached,
        None => return None,
    };
    let trimmed = text::trim(cached.token.as_str());
    let key = source.key();
    if trimmed.as_str().is_empty() || cached.credential_source != key || add_span(
        now_epoch_ms,
        ACCESS_TOKEN_REFRESH_SKEW_MS,
    ) >= cached.expires_at_epoch_ms {
        return None;
    }
    Some(cached.token)
}

/// The time in nanoseconds since 1970 that `time` reads from a text in the
/// format of RFC 3339, where it reads one.
pub uninterp spec fn rfc3339_nanos(text: Seq<char>) -> Option<i128>;

/// `time::OffsetDateTime::parse` with `Rfc3339`, and `unix_timestamp_nanos`: a
/// time that depends on the text alone.
#[verifier::external_body]
fn parse_rfc3339(text: &str) -> (r: Option<i128>)
    ensures
        r == rfc3339_nanos(text@),
{
    let format = &time::format_description::well_known::Rfc3339;
    let moment = time::OffsetDateTime::parse(text, format).ok()?;
    Some(moment.unix_timestamp_nanos())
}

/// A time in nanoseconds as whole milliseconds. One before 1970 counts from the
/// end of the range of times.
pub open spec fn epoch_ms(nanos: i128) -> int {
    if nanos < 0 {
        (nanos + 0x1_0000_0000_0000_0000_0000_0000_0000_0000) / 1_000_000
    } else {
        nanos as int / 1_000_000
    }
}

/// A time in nanoseconds as whole milliseconds.
pub fn epoch_ms_from_nanos(nanos: i128) -> (r: u128)
    ensures
        r == epoch_ms(nanos),
{
    let unsigned: u128 = if nanos < 0 {
        u128::MAX - ((-(nanos + 1)) as u128)
    } else {
        nanos as u128
    };
    unsigned / 1_000_000
}

/// When a token expires: at the time that was read from its expiry, else after
/// the usual lifetime.
pub fn expiry_from(read: Option<i128>, now_epoch_ms: u128) -> (r: u128)
    ensures
        r == match read {
            Some(nanos) => epoch_ms(nanos),
            None => later(now_epoch_ms, DEFAULT_ACCESS_TOKEN_LIFETIME_MS),
        },
{
    match read {
        Some(nanos) => epoch_ms_from_nanos(nanos),
        None => add_span(now_epoch_ms, DEFAULT_ACCESS_TOKEN_LIFETIME_MS),
    }
}

/// When a token with the given expiry text expires.
pub open spec fn expiry(token_expiry: Option<Seq<char>>, now: u128) -> int {
    let read = match token_expiry {
        Some(s) => rfc3339_nanos(text::trimmed(s)),
        None => None,
    };
    match read {
        Some(nanos) => epoch_ms(nanos),
        None => later(now, DEFAULT_ACCESS_TOKEN_LIFETIME_MS),
    }
}

/// When a token with the given expiry text expires.
pub fn expires_at_epoch_ms(token_expiry: Option<&str>, now_epoch_ms: u128) -> (r: u128)
    ensures
        r == expiry(chars_of(token_expiry), now_epoch_ms),
{
    let read: Option<i128> = match token_expiry {
        Some(s) => {
            let trimmed = text::trim(s);
            parse_rfc3339(trimmed.as_str())
        },
        None => None,
    };
    expiry_from(read, now_epoch_ms)
}

/// The token in a reply, and what is kept of it. A reply with a blank token is
/// an error.
pub fn access_token(reply: &AccessTokenReply, source: &CredentialSource, now_epoch_ms: u128) -> (r:
    Result<(String, CachedAccessToken), GcpError>)
    ensures
        ({
            let token = text::trimmed(reply.token@);
            if token.len() == 0 {
                r == Err::<(String, CachedAccessToken), GcpError>(GcpError::EmptyToken)
            } else {
                r matches Ok(pair) && pair.0@ == token && pair.1.token@ == token
                    && pair.1.expires_at_epoch_ms == expiry(
                    text::opt(reply.token_expiry),
                    now_epoch_ms,
                ) && pair.1.credential_source@ == source.identity()
            }
        }),
{
    let token = text::trim(reply.token.as_str());
    if token.as_str().is_empty() {
        return Err(GcpError::EmptyToken);
    }
    let expires_at_epoch_ms: u128 = match &reply.token_expiry {
        Some(s) => expires_at_epoch_ms(Some(s.as_str()), now_epoch_ms),
        None => expires_at_epoch_ms(None, now_epoch_ms),
    };
    let cached = CachedAccessToken {
        token: token.clone(),
        expires_at_epoch_ms,
        credential_source: source.key(),
    };
    Ok((token, cached))
}

/// A token that is kept is used again for the same source until a minute before
/// its expiry, and no longer.
pub proof fn law_kept_token_is_used_until_it_expires(
    cached: CachedAccessToken,
    source: CredentialSource,
    now: u128,
)
    requires
        text::trimmed(cached.token@).len() > 0,
        cached.credential_source@ == source.identity(),
        now + ACCESS_TOKEN_REFRESH_SKEW_MS <= u128::MAX,
    ensures
        usable(cached, source, now) <==> now + ACCESS_TOKEN_REFRESH_SKEW_MS
            < cached.expires_at_epoch_ms,
{
}

} // verus!
