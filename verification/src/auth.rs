//! Authentication: API keys and JWTs.
//!
//! - An API key is a static secret for agents and services, sent in the
//!   `X-API-Key` header.
//! - A JWT is a signed token for the web studio, sent as
//!   `Authorization: Bearer <token>`, or as a `token=<jwt>` query parameter
//!   (for WebSockets).
//!
//! A request is accepted with the API key first, then with the bearer
//! token, then with each query token in order.  Tokens are HS256 JWTs made
//! and checked by the jsonwebtoken crate; whether a token is still valid
//! depends on the clock.

use crate::clock::{LATEST_SECOND, utc_now};
use crate::error::ForgeError;
use crate::text::str_eq;
use vstd::prelude::*;
use vstd::string::{StrSliceExecFns, StringSliceAdditionalSpecFns};
use vstd::utf8::encode_utf8;

verus! {

/// The largest number of hours a token may live: chrono's `TimeDelta`
/// holds at most `i64::MAX` milliseconds.
pub const MAX_EXPIRE_HOURS: i64 = 2562047788015i64;

/// Authentication settings.
#[derive(Debug, Clone)]
pub struct AuthConfig {
    /// The static API key for agent calls.
    pub api_key: String,
    /// The secret JWTs are signed with.
    pub jwt_secret: String,
    /// How many hours a JWT lives.
    pub jwt_expire_hours: i64,
}

/// The value of a run of decimal digit bytes.
pub open spec fn digits_value(ds: Seq<u8>) -> int
    decreases ds.len(),
{
    if ds.len() == 0 {
        0
    } else {
        digits_value(ds.drop_last()) * 10 + (ds.last() - 48)
    }
}

/// Every byte is a decimal digit.
pub open spec fn all_digits(ds: Seq<u8>) -> bool {
    forall|i: int| 0 <= i < ds.len() ==> 48 <= #[trigger] ds[i] <= 57
}

/// Reading text as an `i64` the way `str::parse::<i64>` does: an optional
/// `+` or `-`, then one or more decimal digits, the value in range.
pub open spec fn parse_i64_spec(b: Seq<u8>) -> Option<i64> {
    let neg = b.len() > 0 && b[0] == 45u8;
    let signed = b.len() > 0 && (b[0] == 43u8 || b[0] == 45u8);
    let ds = if signed {
        b.drop_first()
    } else {
        b
    };
    if ds.len() == 0 || !all_digits(ds) {
        None
    } else {
        let v = if neg {
            -digits_value(ds)
        } else {
            digits_value(ds)
        };
        if i64::MIN <= v <= i64::MAX {
            Some(v as i64)
        } else {
            None
        }
    }
}

proof fn lemma_digits_value_nonneg(ds: Seq<u8>)
    requires
        all_digits(ds),
    ensures
        digits_value(ds) >= 0,
    decreases ds.len(),
{
    if ds.len() > 0 {
        lemma_digits_value_nonneg(ds.drop_last());
    }
}

proof fn lemma_digits_value_grows(ds: Seq<u8>, j: int)
    requires
        all_digits(ds),
        0 <= j <= ds.len(),
    ensures
        digits_value(ds.take(j)) <= digits_value(ds),
    decreases ds.len(),
{
    if j < ds.len() {
        assert(ds.take(j) =~= ds.drop_last().take(j));
        lemma_digits_value_grows(ds.drop_last(), j);
        lemma_digits_value_nonneg(ds.drop_last());
    } else {
        assert(ds.take(j) =~= ds);
    }
}

/// Reads text as an `i64`, as `str::parse::<i64>` does.
pub fn parse_i64(s: &str) -> (r: Option<i64>)
    ensures
        r == parse_i64_spec(s.spec_bytes()),
{
    let b = s.as_bytes();
    let n = b.len();
    if n == 0 {
        return None;
    }
    let neg = b[0] == 45u8;
    let start: usize = if b[0] == 43u8 || b[0] == 45u8 {
        1
    } else {
        0
    };
    let ghost ds = if start == 1 {
        b@.drop_first()
    } else {
        b@
    };
    assert(ds =~= b@.skip(start as int));
    if start == n {
        return None;
    }
    let limit: i128 = 9223372036854775808i128;
    let mut acc: i128 = 0;
    let mut i: usize = start;
    while i < n
        invariant
            start <= i <= n,
            n == b@.len(),
            ds == b@.skip(start as int),
            0 <= acc <= limit,
            acc == digits_value(ds.take(i - start)),
            all_digits(ds.take(i - start)),
            limit == 9223372036854775808i128,
            b@ == s.spec_bytes(),
            n > 0,
            ds.len() > 0,
            neg == (b@[0] == 45u8),
            (start == 1) == (b@[0] == 43u8 || b@[0] == 45u8),
            start <= 1,
        decreases n - i,
    {
        let c = b[i];
        assert(ds.take(i - start + 1).drop_last() =~= ds.take(i - start));
        assert(ds.take(i - start + 1).last() == c);
        if c < 48u8 || c > 57u8 {
            proof {
                assert(!all_digits(ds)) by {
                    assert(ds[i - start] == c);
                }
            }
            return None;
        }
        acc = acc * 10 + ((c - 48u8) as i128);
        assert(all_digits(ds.take(i - start + 1)));
        assert(acc == digits_value(ds.take(i - start + 1)));
        if acc > limit {
            proof {
                if all_digits(ds) {
                    lemma_digits_value_grows(ds, i - start + 1);
                    assert(digits_value(ds) > 9223372036854775808);
                }
                if start == 1 {
                    assert(b@.skip(1) =~= b@.drop_first());
                } else {
                    assert(b@.skip(0) =~= b@);
                }
                assert(parse_i64_spec(b@) is None);
            }
            return None;
        }
        i = i + 1;
    }
    assert(ds.take(i - start) =~= ds);
    if neg {
        Some((0 - acc) as i64)
    } else if acc > 9223372036854775807i128 {
        None
    } else {
        Some(acc as i64)
    }
}

impl AuthConfig {
    /// The settings from the values of `FORGE_API_KEY`, `FORGE_JWT_SECRET`
    /// and `FORGE_JWT_EXPIRE_HOURS` (each `None` when unset): development
    /// defaults stand for the unset secrets, and 24 hours for an unset or
    /// unreadable lifetime.
    pub fn from_settings(
        api_key: Option<String>,
        jwt_secret: Option<String>,
        expire_hours: Option<String>,
    ) -> (c: Self)
        ensures
            c.api_key@ == match api_key {
                Some(k) => k@,
                None => "forge-dev-api-key-change-in-production"@,
            },
            c.jwt_secret@ == match jwt_secret {
                Some(k) => k@,
                None => "forge-dev-jwt-secret-change-in-production"@,
            },
            c.jwt_expire_hours == match expire_hours {
                Some(h) => match parse_i64_spec(encode_utf8(h@)) {
                    Some(v) => v,
                    None => 24,
                },
                None => 24,
            },
    {
        let api_key = match api_key {
            Some(k) => k,
            None => String::from_str("forge-dev-api-key-change-in-production"),
        };
        let jwt_secret = match jwt_secret {
            Some(k) => k,
            None => String::from_str("forge-dev-jwt-secret-change-in-production"),
        };
        let jwt_expire_hours = match expire_hours {
            Some(h) => match parse_i64(h.as_str()) {
                Some(v) => v,
                None => 24,
            },
            None => 24,
        };
        AuthConfig { api_key, jwt_secret, jwt_expire_hours }
    }
}

/// The claims a token carries.
#[derive(Debug, Clone)]
pub struct JwtClaims {
    /// The subject (user or agent id).
    pub sub: String,
    /// Issued at (Unix seconds).
    pub iat: i64,
    /// Expires at (Unix seconds).
    pub exp: i64,
}

/// jsonwebtoken's error type, carried opaquely.
#[verifier::external_type_specification]
#[verifier::external_body]
pub struct ExJwtError(jsonwebtoken::errors::Error);

/// The HS256 token that `jsonwebtoken::encode` makes with the default
/// header, the claims `{"sub", "iat", "exp"}` in that order and the secret;
/// `None` when it reports an error.
pub uninterp spec fn hs256_token(sub: Seq<char>, iat: i64, exp: i64, secret: Seq<u8>) -> Option<Seq<char>>;

/// `jsonwebtoken::encode` with `Header::default()` (HS256), the claims
/// `sub`, `iat`, `exp` in that order, and `EncodingKey::from_secret`.
/// The token is a function of these values, named `hs256_token`.  It
/// never fails: the key is of the HS256 family, a map of a text and two
/// integers always serializes, and HMAC signing always succeeds.
#[verifier::external_body]
fn jwt_encode(sub: &str, iat: i64, exp: i64, secret: &[u8]) -> (r: Result<String, jsonwebtoken::errors::Error>)
    ensures
        r is Ok,
        match r {
            Ok(t) => hs256_token(sub@, iat, exp, secret@) == Some(t@),
            Err(_) => hs256_token(sub@, iat, exp, secret@) is None,
        },
        exp >= 0 ==> (r matches Ok(t) ==> hs256_claims(t@, secret@) == Some((sub@, iat, exp))),
{
    let mut claims = serde_json::Map::new();
    claims.insert("sub".to_string(), serde_json::Value::from(sub));
    claims.insert("iat".to_string(), serde_json::Value::from(iat));
    claims.insert("exp".to_string(), serde_json::Value::from(exp));
    let key = jsonwebtoken::EncodingKey::from_secret(secret);
    jsonwebtoken::encode(&jsonwebtoken::Header::default(), &claims, &key)
}

/// The text of a jsonwebtoken error (its `Display`).  Nothing is claimed of it.
#[verifier::external_body]
fn jwt_error_text(e: &jsonwebtoken::errors::Error) -> String {
    e.to_string()
}

/// The claims `(sub, iat, exp)` that `jsonwebtoken::decode` reads from
/// `token` with the HS256 key made from `secret` when the expiry is not
/// checked against the clock; `None` when it refuses the token (a bad
/// signature, another algorithm, no `exp` of at least 0) or a claim is
/// missing or not of its type.
pub uninterp spec fn hs256_claims(token: Seq<char>, secret: Seq<u8>) -> Option<(Seq<char>, i64, i64)>;

/// `jsonwebtoken::decode` with `DecodingKey::from_secret` and
/// `Validation::default()` (HS256, `exp` required) with its expiry check
/// switched off, reading the claims `sub` (text), `iat` and `exp`
/// (integers): these are `hs256_claims`.  The library checks the expiry
/// itself, against a time it is given.
#[verifier::external_body]
fn jwt_decode(token: &str, secret: &[u8]) -> (r: Option<(String, i64, i64)>)
    ensures
        match r {
            Some(c) => hs256_claims(token@, secret@) == Some((c.0@, c.1, c.2)),
            None => hs256_claims(token@, secret@) is None,
        },
{
    let key = jsonwebtoken::DecodingKey::from_secret(secret);
    let mut validation = jsonwebtoken::Validation::default();
    validation.validate_exp = false;
    let data = jsonwebtoken::decode::<serde_json::Map<String, serde_json::Value>>(token, &key, &validation).ok()?;
    let c = data.claims;
    Some((c.get("sub")?.as_str()?.to_string(), c.get("iat")?.as_i64()?, c.get("exp")?.as_i64()?))
}

/// The claims of `token`, signed with `secret`, that are still valid at
/// `now` (Unix seconds): like jsonwebtoken's default validation, an `exp`
/// up to 60 seconds past is accepted.
pub open spec fn fresh_claims(token: Seq<char>, secret: Seq<u8>, now: i64) -> Option<(Seq<char>, i64, i64)> {
    match hs256_claims(token, secret) {
        Some(c) => if c.2 >= now - 60 {
            Some(c)
        } else {
            None
        },
        None => None,
    }
}

/// `r` is the outcome of checking `token` against `secret` at `now`: the
/// claims when they are fresh, else `Unauthorized`.
pub open spec fn verified_at(r: Result<JwtClaims, ForgeError>, token: Seq<char>, secret: Seq<u8>, now: i64) -> bool {
    match fresh_claims(token, secret, now) {
        Some(c) => r matches Ok(cl) && cl.sub@ == c.0 && cl.iat == c.1 && cl.exp == c.2,
        None => r matches Err(ForgeError::Unauthorized),
    }
}

/// The token for `sub` issued at `now` (Unix seconds) that lives `hours`
/// hours, signed with `secret`.
pub open spec fn issued_token(sub: Seq<char>, now: i64, hours: i64, secret: Seq<u8>) -> Option<Seq<char>> {
    hs256_token(sub, now, (now + hours * 3600) as i64, secret)
}

/// `t` is the token for `sub` issued at `now` that lives `hours` hours,
/// signed with `secret`; when it expires at or after the epoch, decoding
/// it gives back those claims.
pub open spec fn is_issued(t: Seq<char>, sub: Seq<char>, now: i64, hours: i64, secret: Seq<u8>) -> bool {
    &&& issued_token(sub, now, hours, secret) == Some(t)
    &&& now + hours * 3600 >= 0 ==> hs256_claims(t, secret) == Some((sub, now, (now + hours * 3600) as i64))
}

/// `t` is the token for `sub` issued at a time `now` the clock can read,
/// living `hours` hours, signed with `secret`.
pub open spec fn issued_on_clock(t: Seq<char>, sub: Seq<char>, now: i64, hours: i64, secret: Seq<u8>) -> bool {
    &&& 0 <= now <= LATEST_SECOND
    &&& is_issued(t, sub, now, hours, secret)
}

/// Makes a token for `subject`, issued at `now` (Unix seconds), expiring
/// after the configured number of hours.
pub fn create_jwt_at(config: &AuthConfig, subject: &str, now: i64) -> (r: Result<String, ForgeError>)
    requires
        -MAX_EXPIRE_HOURS <= config.jwt_expire_hours <= MAX_EXPIRE_HOURS,
        -4611686018427387904 <= now <= 4611686018427387904,
    ensures
        r matches Ok(t) && is_issued(t@, subject@, now, config.jwt_expire_hours, encode_utf8(config.jwt_secret@)),
{
    let exp = now + config.jwt_expire_hours * 3600;
    match jwt_encode(subject, now, exp, config.jwt_secret.as_str().as_bytes()) {
        Ok(t) => Ok(t),
        Err(e) => {
            let text = jwt_error_text(&e);
            Err(ForgeError::Internal(String::from_str("JWT encode failed: ").concat(text.as_str())))
        },
    }
}

/// Makes a token for `subject`, issued now, expiring after the configured
/// number of hours.
pub fn create_jwt(config: &AuthConfig, subject: &str) -> (r: Result<String, ForgeError>)
    requires
        -MAX_EXPIRE_HOURS <= config.jwt_expire_hours <= MAX_EXPIRE_HOURS,
    ensures
        r matches Ok(t) && exists|now: i64|
            #[trigger] issued_on_clock(t@, subject@, now, config.jwt_expire_hours, encode_utf8(config.jwt_secret@)),
{
    let now = utc_now().secs;
    let r = create_jwt_at(config, subject, now);
    assert(r matches Ok(t) && issued_on_clock(t@, subject@, now, config.jwt_expire_hours, encode_utf8(config.jwt_secret@)));
    r
}

/// Checks a token against the configured secret at time `now` (Unix
/// seconds): the claims it carries when it is signed with the secret and
/// not expired more than 60 seconds ago, else `Unauthorized`.
pub fn verify_jwt_at(config: &AuthConfig, token: &str, now: i64) -> (r: Result<JwtClaims, ForgeError>)
    ensures
        verified_at(r, token@, encode_utf8(config.jwt_secret@), now),
{
    match jwt_decode(token, config.jwt_secret.as_str().as_bytes()) {
        Some((sub, iat, exp)) => {
            if (exp as i128) >= (now as i128) - 60 {
                Ok(JwtClaims { sub, iat, exp })
            } else {
                Err(ForgeError::Unauthorized)
            }
        },
        None => Err(ForgeError::Unauthorized),
    }
}

/// Checks a token against the configured secret and the clock: the claims
/// it carries, or `Unauthorized` when it does not pass.
pub fn verify_jwt(config: &AuthConfig, token: &str) -> (r: Result<JwtClaims, ForgeError>)
    ensures
        exists|now: i64|
            0 <= now <= LATEST_SECOND && #[trigger] verified_at(r, token@, encode_utf8(config.jwt_secret@), now),
{
    let now = utc_now().secs;
    verify_jwt_at(config, token, now)
}

/// Who made an authenticated request, and how.
#[derive(Debug, Clone)]
pub struct AuthSubject {
    pub id: String,
    pub auth_type: AuthType,
}

/// How a request was authenticated.
#[derive(Debug, Clone, Copy, PartialEq, Eq, Structural)]
pub enum AuthType {
    ApiKey,
    Jwt,
}

/// A request that could not be authenticated.
#[derive(Debug)]
pub struct AuthError;

impl AuthError {
    /// The error code of the refusal.
    pub fn code(&self) -> (c: &'static str)
        ensures
            c@ == "UNAUTHORIZED"@,
    {
        "UNAUTHORIZED"
    }

    /// The message of the refusal.
    pub fn message(&self) -> (m: &'static str)
        ensures
            m@ == "Valid API key or JWT token required"@,
    {
        "Valid API key or JWT token required"
    }

    /// The HTTP status of the refusal.
    pub fn status(&self) -> (s: u16)
        ensures
            s == 401,
    {
        401
    }
}

/// What of a request authentication reads: the `X-API-Key` and
/// `Authorization` headers (when present and readable as text) and the
/// query string.
#[derive(Debug)]
pub struct AuthRequest {
    pub api_key: Option<String>,
    pub authorization: Option<String>,
    pub query: Option<String>,
}

/// `s` without the prefix `p`, when it starts with it.
pub open spec fn strip_prefix(s: Seq<char>, p: Seq<char>) -> Option<Seq<char>> {
    if s.len() >= p.len() && s.subrange(0, p.len() as int) == p {
        Some(s.subrange(p.len() as int, s.len() as int))
    } else {
        None
    }
}

/// The pieces of `s` between `&` characters (one empty piece for empty text).
pub open spec fn split_amp(s: Seq<char>) -> Seq<Seq<char>>
    decreases s.len(),
{
    if s.len() == 0 {
        seq![Seq::<char>::empty()]
    } else if s.last() == '&' {
        split_amp(s.drop_last()).push(Seq::<char>::empty())
    } else {
        let p = split_amp(s.drop_last());
        p.update(p.len() - 1, p.last().push(s.last()))
    }
}

/// The values of the `token=` pieces, in order.
pub open spec fn token_values(pieces: Seq<Seq<char>>) -> Seq<Seq<char>>
    decreases pieces.len(),
{
    if pieces.len() == 0 {
        Seq::empty()
    } else {
        let rest = token_values(pieces.drop_last());
        match strip_prefix(pieces.last(), "token="@) {
            Some(t) => rest.push(t),
            None => rest,
        }
    }
}

/// The tokens a request offers, in the order they are tried: the bearer
/// token, then each `token=` query parameter.
pub open spec fn candidate_tokens(req: AuthRequest) -> Seq<Seq<char>> {
    let bearer = match req.authorization {
        Some(h) => match strip_prefix(h@, "Bearer "@) {
            Some(t) => seq![t],
            None => Seq::empty(),
        },
        None => Seq::empty(),
    };
    bearer + token_values(split_amp(query_text(req)))
}

/// The request's query string (empty when it has none).
pub open spec fn query_text(req: AuthRequest) -> Seq<char> {
    match req.query {
        Some(q) => q@,
        None => Seq::empty(),
    }
}

/// `s` without the prefix `p`, when it starts with it.
fn strip_prefix_exec(s: &str, p: &str) -> (r: Option<String>)
    ensures
        match r {
            Some(t) => strip_prefix(s@, p@) == Some(t@),
            None => strip_prefix(s@, p@) is None,
        },
{
    let n = s.unicode_len();
    let m = p.unicode_len();
    if n < m {
        return None;
    }
    let head = s.substring_char(0, m);
    if !str_eq(head, p) {
        return None;
    }
    Some(String::from_str(s.substring_char(m, n)))
}

/// The pieces of `s` between `&` characters.
fn split_amp_exec(s: &str) -> (r: Vec<String>)
    ensures
        r@.map_values(|x: String| x@) == split_amp(s@),
{
    let n = s.unicode_len();
    let mut out: Vec<String> = Vec::new();
    let mut start: usize = 0;
    let mut i: usize = 0;
    assert(s@.take(0) =~= Seq::<char>::empty());
    assert(s@.subrange(0, 0) =~= Seq::<char>::empty());
    assert(out@.map_values(|x: String| x@).push(s@.subrange(0, 0)) =~= seq![Seq::<char>::empty()]);
    while i < n
        invariant
            n == s@.len(),
            start <= i <= n,
            out@.map_values(|x: String| x@).push(s@.subrange(start as int, i as int)) == split_amp(
                s@.take(i as int),
            ),
        decreases n - i,
    {
        let c = s.get_char(i);
        proof {
            assert(s@.take(i + 1).drop_last() =~= s@.take(i as int));
            assert(s@.take(i + 1).last() == c);
        }
        if c == '&' {
            let piece = String::from_str(s.substring_char(start, i));
            let ghost before = out@.map_values(|x: String| x@);
            out.push(piece);
            assert(out@.map_values(|x: String| x@) =~= before.push(s@.subrange(start as int, i as int)));
            assert(s@.subrange(i + 1, i + 1) =~= Seq::<char>::empty());
            start = i + 1;
        } else {
            assert(s@.subrange(start as int, i + 1) =~= s@.subrange(start as int, i as int).push(c));
        }
        i = i + 1;
    }
    let last = String::from_str(s.substring_char(start, n));
    out.push(last);
    assert(s@.take(n as int) =~= s@);
    out
}

/// The tokens a request offers, in the order they are tried.
pub fn candidate_tokens_exec(req: &AuthRequest) -> (r: Vec<String>)
    ensures
        r@.map_values(|x: String| x@) == candidate_tokens(*req),
{
    let mut out: Vec<String> = Vec::new();
    match &req.authorization {
        Some(h) => match strip_prefix_exec(h.as_str(), "Bearer ") {
            Some(t) => {
                out.push(t);
            },
            None => {},
        },
        None => {},
    }
    let ghost bearer = out@.map_values(|x: String| x@);
    let pieces = match &req.query {
        Some(q) => split_amp_exec(q.as_str()),
        None => split_amp_exec(""),
    };
    proof {
        reveal_strlit("");
        assert(pieces@.map_values(|x: String| x@) == split_amp(query_text(*req)));
    }
    let ghost ps = pieces@.map_values(|x: String| x@);
    let mut i: usize = 0;
    while i < pieces.len()
        invariant
            i <= pieces@.len(),
            ps == pieces@.map_values(|x: String| x@),
            out@.map_values(|x: String| x@) == bearer + token_values(ps.take(i as int)),
        decreases pieces@.len() - i,
    {
        assert(ps.take(i + 1).drop_last() =~= ps.take(i as int));
        assert(ps.take(i + 1).last() == pieces@[i as int]@);
        match strip_prefix_exec(pieces[i].as_str(), "token=") {
            Some(t) => {
                let ghost before = out@.map_values(|x: String| x@);
                out.push(t);
                assert(out@.map_values(|x: String| x@) =~= before.push(t@));
            },
            None => {},
        }
        i = i + 1;
    }
    assert(ps.take(i as int) =~= ps);
    out
}

/// The text of an optional string.
pub open spec fn opt_view(v: Option<String>) -> Option<Seq<char>> {
    match v {
        Some(x) => Some(x@),
        None => None,
    }
}

/// The first subject among the verification outcomes of the candidate tokens.
pub open spec fn first_subject(verdicts: Seq<Option<Seq<char>>>) -> Option<Seq<char>>
    decreases verdicts.len(),
{
    if verdicts.len() == 0 {
        None
    } else {
        match verdicts[0] {
            Some(s) => Some(s),
            None => first_subject(verdicts.drop_first()),
        }
    }
}

/// Decides who made a request, given the subject each candidate token was
/// verified for (`None` for a token that did not pass): the API key when
/// it matches, else the subject of the first token that passed.
pub fn extract_auth_with(req: &AuthRequest, config: &AuthConfig, verdicts: &Vec<Option<String>>) -> (r:
    Result<AuthSubject, AuthError>)
    ensures
        (req.api_key matches Some(k) && k@ == config.api_key@) ==> (r matches Ok(s) && s.id@
            == "api-agent"@ && s.auth_type == AuthType::ApiKey),
        !(req.api_key matches Some(k) && k@ == config.api_key@) ==> match first_subject(
            verdicts@.map_values(|v: Option<String>| opt_view(v)),
        ) {
            Some(sub) => r matches Ok(s) && s.id@ == sub && s.auth_type == AuthType::Jwt,
            None => r is Err,
        },
{
    match &req.api_key {
        Some(k) => {
            if str_eq(k.as_str(), config.api_key.as_str()) {
                return Ok(AuthSubject { id: String::from_str("api-agent"), auth_type: AuthType::ApiKey });
            }
        },
        None => {},
    }
    let ghost vs = verdicts@.map_values(|v: Option<String>| opt_view(v));
    let mut i: usize = 0;
    assert(vs.skip(0) =~= vs);
    while i < verdicts.len()
        invariant
            i <= verdicts@.len(),
            vs == verdicts@.map_values(|v: Option<String>| opt_view(v)),
            first_subject(vs) == first_subject(vs.skip(i as int)),
            !(req.api_key matches Some(k) && k@ == config.api_key@),
        decreases verdicts@.len() - i,
    {
        assert(vs.skip(i as int).drop_first() =~= vs.skip(i + 1));
        assert(vs.skip(i as int)[0] == vs[i as int]);
        match &verdicts[i] {
            Some(sub) => {
                return Ok(AuthSubject { id: sub.clone(), auth_type: AuthType::Jwt });
            },
            None => {},
        }
        i = i + 1;
    }
    Err(AuthError)
}

/// The subject of `t` when it is signed with `secret` and still valid at `now`.
pub open spec fn fresh_subject(t: Seq<char>, secret: Seq<u8>, now: i64) -> Option<Seq<char>> {
    match fresh_claims(t, secret, now) {
        Some(c) => Some(c.0),
        None => None,
    }
}

/// What each candidate token is verified for at `now`.
pub open spec fn token_verdicts(ts: Seq<Seq<char>>, secret: Seq<u8>, now: i64) -> Seq<Option<Seq<char>>> {
    ts.map_values(|t: Seq<char>| fresh_subject(t, secret, now))
}

/// The request carries the configured API key.
pub open spec fn api_key_matches(req: AuthRequest, config: AuthConfig) -> bool {
    match req.api_key {
        Some(k) => k@ == config.api_key@,
        None => false,
    }
}

/// `r` is how a request is authenticated at `now`: by the API key when it
/// matches; else as the subject of the first candidate token (the bearer
/// token, then each `token=` query parameter) that is signed with the
/// secret and still valid; else refused.
pub open spec fn authenticated_at(
    req: AuthRequest,
    config: AuthConfig,
    now: i64,
    r: Result<AuthSubject, AuthError>,
) -> bool {
    if api_key_matches(req, config) {
        r matches Ok(s) && s.id@ == "api-agent"@ && s.auth_type == AuthType::ApiKey
    } else {
        match first_subject(token_verdicts(candidate_tokens(req), encode_utf8(config.jwt_secret@), now)) {
            Some(sub) => r matches Ok(s) && s.id@ == sub && s.auth_type == AuthType::Jwt,
            None => r is Err,
        }
    }
}

/// Authenticates a request at time `now`: the API key, else the first
/// candidate token that verifies at `now`.
pub fn extract_auth_at(req: &AuthRequest, config: &AuthConfig, now: i64) -> (r: Result<AuthSubject, AuthError>)
    ensures
        authenticated_at(*req, *config, now, r),
{
    let tokens = candidate_tokens_exec(req);
    let ghost ts = tokens@.map_values(|x: String| x@);
    let ghost secret = encode_utf8(config.jwt_secret@);
    let mut verdicts: Vec<Option<String>> = Vec::new();
    let mut i: usize = 0;
    while i < tokens.len()
        invariant
            i <= tokens@.len(),
            ts == tokens@.map_values(|x: String| x@),
            secret == encode_utf8(config.jwt_secret@),
            verdicts@.map_values(|v: Option<String>| opt_view(v)) == token_verdicts(ts.take(i as int), secret, now),
        decreases tokens@.len() - i,
    {
        let ghost before = verdicts@.map_values(|v: Option<String>| opt_view(v));
        let v = match verify_jwt_at(config, tokens[i].as_str(), now) {
            Ok(claims) => Some(claims.sub),
            Err(_) => None,
        };
        verdicts.push(v);
        assert(ts[i as int] == tokens@[i as int]@);
        assert(verdicts@.map_values(|v: Option<String>| opt_view(v)) =~= before.push(opt_view(v)));
        assert(token_verdicts(ts.take(i + 1), secret, now) =~= token_verdicts(ts.take(i as int), secret, now).push(
            fresh_subject(ts[i as int], secret, now),
        ));
        i = i + 1;
    }
    assert(ts.take(i as int) =~= ts);
    extract_auth_with(req, config, &verdicts)
}

/// Authenticates a request: the API key, else the first candidate token
/// that passes verification against the clock.
pub fn extract_auth(req: &AuthRequest, config: &AuthConfig) -> (r: Result<AuthSubject, AuthError>)
    ensures
        exists|now: i64| 0 <= now <= LATEST_SECOND && #[trigger] authenticated_at(*req, *config, now, r),
{
    let now = utc_now().secs;
    extract_auth_at(req, config, now)
}

/// A request to exchange the API key for a token.
#[derive(Debug)]
pub struct TokenRequest {
    /// The API key.
    pub api_key: String,
    /// The subject of the token (`web-studio` when absent).
    pub subject: Option<String>,
}

/// A token and how long it lives.
#[derive(Debug)]
pub struct TokenResponse {
    pub token: String,
    /// Lifetime in seconds.
    pub expires_in: i64,
    pub token_type: String,
}

/// The subject a token request asks for: its own, else `web-studio`.
pub open spec fn requested_subject(req: TokenRequest) -> Seq<char> {
    match req.subject {
        Some(s) => s@,
        None => "web-studio"@,
    }
}

/// Exchanges the API key for a token: a wrong key is `Unauthorized`; the
/// token is for the requested subject, else `web-studio`.
pub fn exchange_token(config: &AuthConfig, req: TokenRequest) -> (r: Result<TokenResponse, ForgeError>)
    requires
        req.api_key@ == config.api_key@ ==> -MAX_EXPIRE_HOURS <= config.jwt_expire_hours <= MAX_EXPIRE_HOURS,
    ensures
        req.api_key@ != config.api_key@ ==> (r matches Err(e) && e is Unauthorized),
        req.api_key@ == config.api_key@ ==> (r matches Ok(resp) && resp.expires_in == config.jwt_expire_hours
            * 3600 && resp.token_type@ == "Bearer"@ && exists|now: i64|
            #![trigger issued_token(requested_subject(req), now, config.jwt_expire_hours, encode_utf8(config.jwt_secret@))]
            issued_on_clock(
                resp.token@,
                requested_subject(req),
                now,
                config.jwt_expire_hours,
                encode_utf8(config.jwt_secret@),
            )),
{
    if !str_eq(req.api_key.as_str(), config.api_key.as_str()) {
        return Err(ForgeError::Unauthorized);
    }
    let ghost wanted = requested_subject(req);
    let subject = match req.subject {
        Some(s) => s,
        None => String::from_str("web-studio"),
    };
    assert(subject@ == wanted);
    let token = match create_jwt(config, subject.as_str()) {
        Ok(t) => t,
        Err(e) => {
            return Err(e);
        },
    };
    let ghost secret = encode_utf8(config.jwt_secret@);
    let ghost now = choose|now: i64| #[trigger] issued_on_clock(token@, subject@, now, config.jwt_expire_hours, secret);
    let resp = TokenResponse {
        token,
        expires_in: config.jwt_expire_hours * 3600,
        token_type: String::from_str("Bearer"),
    };
    assert(issued_on_clock(resp.token@, requested_subject(req), now, config.jwt_expire_hours, secret));
    Ok(resp)
}

} // verus!
