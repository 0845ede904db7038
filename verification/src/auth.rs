//! Who a request comes from: passwords, tokens and the cookie that carries them.

use crate::assets;
use crate::headers;
use crate::records::FIRST_SECOND;
use crate::records::LAST_SECOND;
use crate::refusal::Lookup;
use crate::refusal::Refusal;
use crate::text;
use crate::throttle;
use crate::throttle::LoginGuard;
use jsonwebtoken::decode;
use jsonwebtoken::encode;
use jsonwebtoken::Algorithm;
use jsonwebtoken::DecodingKey;
use jsonwebtoken::EncodingKey;
use jsonwebtoken::Header;
use jsonwebtoken::Validation;
use serde_json::Value;
use std::cmp::Reverse;
use std::collections::BTreeMap;
use vstd::prelude::*;
use vstd::string::*;

verus! {

// ---------------------------------------------------------------------------
// Passwords
// ---------------------------------------------------------------------------

/// `bcrypt::BcryptError`, why a password could not be hashed or checked.
#[verifier::external_type_specification]
#[verifier::external_body]
pub struct ExBcryptError(bcrypt::BcryptError);

/// What `bcrypt::verify` says of a password and a hash: whether they match, or
/// nothing where the hash is none.
pub uninterp spec fn password_matches(password: Seq<char>, hash: Seq<char>) -> Option<bool>;

/// The form of a hash of the default cost: version and cost, then salt and digest in
/// one.
pub open spec fn hash_form(hash: Seq<char>) -> bool {
    "$2b$12$"@.is_prefix_of(hash) && hash.len() == 60
}

/// Calls `bcrypt::hash` with the default cost. The salt is random; every hash that it
/// gives matches the password and has the form of that cost. It fails only where the
/// system has no random bytes to give, of which nothing is said.
#[verifier::external_body]
fn bcrypt_hash(password: &str) -> (r: Result<String, bcrypt::BcryptError>)
    ensures
        match r {
            Ok(hash) => password_matches(password@, hash@) == Some(true) && hash_form(hash@),
            Err(_) => true,
        },
{
    bcrypt::hash(password, bcrypt::DEFAULT_COST)
}

/// Calls `bcrypt::verify`.
#[verifier::external_body]
fn bcrypt_verify(password: &str, hash: &str) -> (r: Result<bool, bcrypt::BcryptError>)
    ensures
        match r {
            Ok(matches) => password_matches(password@, hash@) == Some(matches),
            Err(_) => password_matches(password@, hash@) is None,
        },
{
    bcrypt::verify(password, hash)
}

/// A hash to keep of a password; whether one can be made is up to the system's
/// source of random bytes.
pub fn hash_password(password: &str) -> (r: Option<String>)
    ensures
        r is Some ==> password_matches(password@, r->0@) == Some(true) && hash_form(r->0@),
{
    match bcrypt_hash(password) {
        Ok(hash) => Some(hash),
        Err(_) => None,
    }
}

/// Whether a password matches a hash; none where the hash is none.
pub fn verify_password(password: &str, hash: &str) -> (r: Option<bool>)
    ensures
        r == password_matches(password@, hash@),
{
    match bcrypt_verify(password, hash) {
        Ok(matches) => Some(matches),
        Err(_) => None,
    }
}

/// Why a user cannot be registered, if they cannot. Lengths are in characters.
pub open spec fn registration_refusal(username: Seq<char>, password: Seq<char>) -> Option<Refusal> {
    if text::blank(username) || password.len() == 0 {
        Some(Refusal::EmptyCredentials)
    } else if username.len() > 64 {
        Some(Refusal::UsernameTooLong)
    } else if password.len() < 6 {
        Some(Refusal::PasswordTooShort)
    } else {
        None
    }
}

/// Whether a user can be registered.
pub fn check_registration(username: &str, password: &str) -> (r: Result<(), Refusal>)
    ensures
        r == (match registration_refusal(username@, password@) {
            Some(e) => Err::<(), Refusal>(e),
            None => Ok(()),
        }),
{
    if text::is_blank(username) || password.is_empty() {
        return Err(Refusal::EmptyCredentials);
    }
    if text::chars_of(username).len() > 64 {
        return Err(Refusal::UsernameTooLong);
    }
    if text::chars_of(password).len() < 6 {
        return Err(Refusal::PasswordTooShort);
    }
    Ok(())
}

/// What came of a registration, step by step: the hash that was made, whether the
/// user was recorded, and the token that was issued.
pub fn finish_registration(hashed: bool, recorded: bool, issued: bool) -> (r: Result<(), Refusal>)
    ensures
        r == (if !hashed {
            Err::<(), Refusal>(Refusal::Internal)
        } else if !recorded {
            Err(Refusal::UserExists)
        } else if !issued {
            Err(Refusal::Internal)
        } else {
            Ok(())
        }),
{
    if !hashed {
        Err(Refusal::Internal)
    } else if !recorded {
        Err(Refusal::UserExists)
    } else if !issued {
        Err(Refusal::Internal)
    } else {
        Ok(())
    }
}

/// An attempt to log in: refused where too many were made within the window.
pub fn start_login(
    guard: &mut LoginGuard,
    username: &str,
    now: u64,
    window_secs: u64,
    max_attempts: usize,
) -> (r: Result<(), Refusal>)
    ensures
        final(guard)@ == throttle::after_attempt(
            old(guard)@,
            text::lowercase(username@),
            now,
            window_secs,
            max_attempts as nat,
        ),
        r == (if throttle::recent_under(
            old(guard)@,
            text::lowercase(username@),
            now,
            window_secs,
        ).len() < max_attempts {
            Ok::<(), Refusal>(())
        } else {
            Err(Refusal::TooManyAttempts { window_secs })
        }),
{
    if guard.try_attempt(username, now, window_secs, max_attempts) {
        Ok(())
    } else {
        Err(Refusal::TooManyAttempts { window_secs })
    }
}

/// The end of an attempt to log in: success clears what counts against the name.
pub fn end_login(guard: &mut LoginGuard, username: &str, result: &Result<(), Refusal>)
    ensures
        final(guard)@ == (if *result is Ok {
            old(guard)@.remove(text::lowercase(username@))
        } else {
            old(guard)@
        }),
{
    if result.is_ok() {
        guard.clear(username);
    }
}

/// Whether a login succeeds, where the user's hash was looked for. An unknown user
/// and a wrong password are answered alike.
pub open spec fn login_result(
    hash: Lookup<Seq<char>>,
    password: Seq<char>,
) -> Result<(), Refusal> {
    match hash {
        Lookup::Found(h) => match password_matches(password, h) {
            None => Err(Refusal::Internal),
            Some(matches) => if matches {
                Ok(())
            } else {
                Err(Refusal::BadCredentials)
            },
        },
        _ => Err(Refusal::BadCredentials),
    }
}

/// Whether a login succeeds, where the user was looked for and the password checked.
pub fn judge_login(found: bool, check: Option<bool>) -> (r: Result<(), Refusal>)
    ensures
        r == (if !found {
            Err::<(), Refusal>(Refusal::BadCredentials)
        } else {
            match check {
                None => Err(Refusal::Internal),
                Some(matches) => if matches {
                    Ok(())
                } else {
                    Err(Refusal::BadCredentials)
                },
            }
        }),
{
    if !found {
        return Err(Refusal::BadCredentials);
    }
    match check {
        None => Err(Refusal::Internal),
        Some(matches) => if matches {
            Ok(())
        } else {
            Err(Refusal::BadCredentials)
        },
    }
}

/// Whether a login succeeds, where the user's hash was looked for.
pub fn check_login(hash: &Lookup<String>, password: &str) -> (r: Result<(), Refusal>)
    ensures
        r == login_result(
            (match *hash {
                Lookup::Failed => Lookup::Failed,
                Lookup::Missing => Lookup::Missing,
                Lookup::Found(h) => Lookup::Found(h@),
            }),
            password@,
        ),
{
    match hash {
        Lookup::Found(h) => judge_login(true, verify_password(password, h.as_str())),
        _ => judge_login(false, None),
    }
}

// ---------------------------------------------------------------------------
// Tokens
// ---------------------------------------------------------------------------

/// `jsonwebtoken::errors::Error`, why a token could not be made or taken.
#[verifier::external_type_specification]
#[verifier::external_body]
pub struct ExTokenError(jsonwebtoken::errors::Error);

/// The token that `jsonwebtoken::encode` makes, by HS256 under a secret, of a subject
/// and the second at which it expires.
pub uninterp spec fn signed_token(subject: Seq<char>, expires: u64, secret: Seq<u8>) -> Option<Seq<char>>;

/// The subject and the expiry that `jsonwebtoken::decode` reads from a token, if it is
/// one that is signed by HS256 under a secret, expired or not.
pub uninterp spec fn token_claims(token: Seq<char>, secret: Seq<u8>) -> Option<(Seq<char>, u64)>;

/// The form of a token: parts in the alphabet of URL-safe base64, with dots between
/// them.
pub open spec fn token_form(token: Seq<char>) -> bool {
    token.len() > 0 && forall|i: int|
        0 <= i < token.len() ==> text::ascii_alphanumeric(#[trigger] token[i]) || token[i] == '-'
            || token[i] == '_' || token[i] == '.'
}

/// Calls `jsonwebtoken::encode` with the default header, which is HS256, on the subject
/// and then the expiry: the claims are held in the reverse order of their names. The
/// token carries what it was made of, and has the form of one.
#[verifier::external_body]
fn sign_token(subject: &str, expires: u64, secret: &[u8]) -> (r: Result<
    String,
    jsonwebtoken::errors::Error,
>)
    ensures
        match r {
            Ok(token) => signed_token(subject@, expires, secret@) == Some(token@) && token_claims(
                token@,
                secret@,
            ) == Some((subject@, expires)) && token_form(token@),
            Err(_) => signed_token(subject@, expires, secret@) is None,
        },
{
    let mut claims: BTreeMap<Reverse<&str>, Value> = BTreeMap::new();
    claims.insert(Reverse("sub"), Value::from(subject));
    claims.insert(Reverse("exp"), Value::from(expires));
    encode(&Header::default(), &claims, &EncodingKey::from_secret(secret))
}

/// Calls `jsonwebtoken::decode` for HS256, with the crate's own rules for what a token
/// has to be like, but for the one that looks at the clock: whether the token expired
/// is left open. What is read is a function of the token and the secret.
#[verifier::external_body]
fn read_token(token: &str, secret: &[u8]) -> (r: Option<(String, u64)>)
    ensures
        match r {
            Some(claims) => token_claims(token@, secret@) == Some((claims.0@, claims.1)),
            None => token_claims(token@, secret@) is None,
        },
{
    let key = DecodingKey::from_secret(secret);
    let mut rules = Validation::new(Algorithm::HS256);
    rules.validate_exp = false;
    let data = decode::<Value>(token, &key, &rules).ok()?;
    let subject = data.claims["sub"].as_str()?.to_string();
    Some((subject, data.claims["exp"].as_u64()?))
}

/// How many seconds a token is good for: a week.
pub const TOKEN_SECS: i64 = 604_800;

/// The second at which a token expires that is issued at a second. A second before
/// the epoch wraps around.
pub open spec fn expiry_of(now: i64) -> int {
    let at = now + TOKEN_SECS;
    if at >= 0 {
        at
    } else {
        at + 0x1_0000_0000_0000_0000
    }
}

fn token_expiry(now: i64) -> (r: u64)
    requires
        FIRST_SECOND <= now <= LAST_SECOND - TOKEN_SECS,
    ensures
        r == expiry_of(now),
{
    let at: i64 = now + TOKEN_SECS;
    if at >= 0 {
        at as u64
    } else {
        let back: u64 = (-at) as u64;
        u64::MAX - back + 1
    }
}

/// Whether a token can be issued at a second.
pub fn can_issue_at(now: i64) -> (r: bool)
    ensures
        r == (FIRST_SECOND <= now <= LAST_SECOND - TOKEN_SECS),
{
    FIRST_SECOND <= now && now <= LAST_SECOND - TOKEN_SECS
}

/// What a client gets who logged in.
#[derive(Debug)]
pub struct AuthResponse {
    pub token: String,
    pub username: String,
}

/// Whether a token is what a user is issued at a second: it is signed for the user and
/// for a week, and carries both.
pub open spec fn issued(username: Seq<char>, secret: Seq<u8>, now: i64, token: Seq<char>) -> bool {
    let expires = expiry_of(now) as u64;
    &&& signed_token(username, expires, secret) == Some(token)
    &&& token_claims(token, secret) == Some((username, expires))
    &&& token_form(token)
}

/// A token for a user that is good for a week; it carries the user's name.
pub fn issue_auth_response(username: &str, secret: &Vec<u8>, now: i64) -> (r: Result<
    AuthResponse,
    Refusal,
>)
    requires
        FIRST_SECOND <= now <= LAST_SECOND - TOKEN_SECS,
    ensures
        match r {
            Ok(auth) => auth.username@ == username@ && issued(
                username@,
                secret@,
                now,
                auth.token@,
            ),
            Err(e) => e == Refusal::Internal && signed_token(
                username@,
                expiry_of(now) as u64,
                secret@,
            ) is None,
        },
{
    match sign_token(username, token_expiry(now), secret.as_slice()) {
        Ok(token) => Ok(AuthResponse { token, username: username.to_string() }),
        Err(_) => Err(Refusal::Internal),
    }
}

/// The cookie that carries a token.
pub open spec fn cookie_text(token: Seq<char>, secure: bool) -> Seq<char> {
    "zali_auth="@ + token + "; Path=/; HttpOnly; SameSite=Lax; Max-Age=604800"@ + (if secure {
        "; Secure"@
    } else {
        ""@
    })
}

/// The cookie that carries a token, if it can stand in a header.
pub fn auth_cookie_value(token: &str, secure: bool) -> (r: Option<String>)
    ensures
        match r {
            Some(cookie) => cookie@ == cookie_text(token@, secure) && headers::header_text(cookie@),
            None => !headers::header_text(cookie_text(token@, secure)),
        },
{
    let mut cookie = text::join3(
        "zali_auth=",
        token,
        "; Path=/; HttpOnly; SameSite=Lax; Max-Age=604800",
    );
    cookie.append(
        if secure {
            "; Secure"
        } else {
            ""
        },
    );
    if headers::is_header_value(cookie.as_str()) {
        Some(cookie)
    } else {
        None
    }
}

// ---------------------------------------------------------------------------
// Tokens in requests
// ---------------------------------------------------------------------------

/// The token in an `Authorization` header.
pub open spec fn bearer_token(header: Option<Seq<char>>) -> Option<Seq<char>> {
    if header is Some && "Bearer "@.is_prefix_of(header->0) {
        Some(header->0.skip("Bearer "@.len() as int))
    } else {
        None
    }
}

/// The token in one part of a `Cookie` header.
pub open spec fn token_in_part(part: Seq<char>) -> Option<Seq<char>> {
    let t = text::trimmed(part);
    if "zali_auth="@.is_prefix_of(t) {
        Some(t.skip("zali_auth="@.len() as int))
    } else {
        None
    }
}

/// The first token in the parts of a `Cookie` header.
pub open spec fn token_in_parts(parts: Seq<Seq<char>>) -> Option<Seq<char>>
    decreases parts.len(),
{
    if parts.len() == 0 {
        None
    } else if token_in_part(parts[0]) is Some {
        token_in_part(parts[0])
    } else {
        token_in_parts(parts.drop_first())
    }
}

/// The token in a `Cookie` header.
pub open spec fn cookie_token(header: Option<Seq<char>>) -> Option<Seq<char>> {
    match header {
        Some(h) => token_in_parts(text::split_on(h, ';')),
        None => None,
    }
}

/// The token in one pair of an address's query: under one of three names, and not
/// blank.
pub open spec fn token_in_pair(pair: Seq<char>) -> Option<Seq<char>> {
    match assets::split_first(pair, '=') {
        Some((key, value)) => if (key == "token"@ || key == "auth"@ || key == "access_token"@)
            && !text::blank(value) {
            Some(value)
        } else {
            None
        },
        None => None,
    }
}

/// The first token in the pairs of an address's query.
pub open spec fn token_in_pairs(pairs: Seq<Seq<char>>) -> Option<Seq<char>>
    decreases pairs.len(),
{
    if pairs.len() == 0 {
        None
    } else if token_in_pair(pairs[0]) is Some {
        token_in_pair(pairs[0])
    } else {
        token_in_pairs(pairs.drop_first())
    }
}

/// The token in an address's query.
pub open spec fn query_token(query: Option<Seq<char>>) -> Option<Seq<char>> {
    match query {
        Some(q) => token_in_pairs(text::split_on(q, '&')),
        None => None,
    }
}

/// The token of a request: in the `Authorization` header, else in the cookie, else in
/// the query.
pub open spec fn request_token(
    authorization: Option<Seq<char>>,
    cookie: Option<Seq<char>>,
    query: Option<Seq<char>>,
) -> Option<Seq<char>> {
    if bearer_token(authorization) is Some {
        bearer_token(authorization)
    } else if cookie_token(cookie) is Some {
        cookie_token(cookie)
    } else {
        query_token(query)
    }
}

fn read_cookie(header: &str) -> (r: Option<String>)
    ensures
        text::opt_text(r) == cookie_token(Some(header@)),
{
    let parts = text::split(header, ';');
    let ghost all = text::texts(parts@);
    let mut i: usize = 0;
    proof {
        assert(all.skip(0) == all);
    }
    while i < parts.len()
        invariant
            i <= parts@.len(),
            all == text::texts(parts@),
            all == text::split_on(header@, ';'),
            token_in_parts(all) == token_in_parts(all.skip(i as int)),
        decreases parts@.len() - i,
    {
        proof {
            assert(all.skip(i as int).drop_first() =~= all.skip(i as int + 1));
            assert(all.skip(i as int)[0] == parts@[i as int]@);
        }
        if let Some(token) = text::strip_prefix(text::trim(parts[i].as_str()), "zali_auth=") {
            proof {
                text::prefix_then_skip("zali_auth="@, token@);
            }
            return Some(token.to_string());
        }
        i += 1;
    }
    None
}

fn read_query(query: &str) -> (r: Option<String>)
    ensures
        text::opt_text(r) == query_token(Some(query@)),
{
    let pairs = text::split(query, '&');
    let ghost all = text::texts(pairs@);
    let mut i: usize = 0;
    proof {
        assert(all.skip(0) == all);
    }
    while i < pairs.len()
        invariant
            i <= pairs@.len(),
            all == text::texts(pairs@),
            all == text::split_on(query@, '&'),
            token_in_pairs(all) == token_in_pairs(all.skip(i as int)),
        decreases pairs@.len() - i,
    {
        proof {
            assert(all.skip(i as int).drop_first() =~= all.skip(i as int + 1));
            assert(all.skip(i as int)[0] == pairs@[i as int]@);
        }
        match text::split_once(pairs[i].as_str(), '=') {
            Some((key, value)) => {
                proof {
                    assets::split_first_found(key@, '=', value@);
                }
                if (text::str_eq(key, "token") || text::str_eq(key, "auth") || text::str_eq(
                    key,
                    "access_token",
                )) && !text::is_blank(value) {
                    return Some(value.to_string());
                }
            },
            None => {
                proof {
                    assets::split_first_missing(pairs@[i as int]@, '=');
                }
            },
        }
        i += 1;
    }
    None
}

/// The token of a request.
pub fn find_token(
    authorization: Option<&str>,
    cookie: Option<&str>,
    query: Option<&str>,
) -> (r: Option<String>)
    ensures
        text::opt_text(r) == request_token(
            text::opt_str(authorization),
            text::opt_str(cookie),
            text::opt_str(query),
        ),
{
    if let Some(header) = authorization {
        if let Some(token) = text::strip_prefix(header, "Bearer ") {
            proof {
                text::prefix_then_skip("Bearer "@, token@);
            }
            return Some(token.to_string());
        }
    }
    if let Some(header) = cookie {
        if let Some(token) = read_cookie(header) {
            return Some(token);
        }
    }
    match query {
        Some(q) => read_query(q),
        None => None,
    }
}

/// Who a request comes from. `token` says whether it has a token, and if so what user
/// that was taken to be of, if it was taken. A request without a token comes from the
/// guest, where guests are let in.
pub fn identify(token: Option<Option<String>>, allow_guest: bool) -> (r: Result<String, Refusal>)
    ensures
        match r {
            Ok(user) => match token {
                Some(taken) => taken == Some(user),
                None => allow_guest && user@ == "Zalikus"@,
            },
            Err(e) => match token {
                Some(taken) => taken is None && e == Refusal::InvalidToken,
                None => !allow_guest && e == Refusal::AuthenticationRequired,
            },
        },
{
    match token {
        Some(Some(user)) => Ok(user),
        Some(None) => Err(Refusal::InvalidToken),
        None => if allow_guest {
            Ok("Zalikus".to_string())
        } else {
            Err(Refusal::AuthenticationRequired)
        },
    }
}

/// How many seconds past its expiry a token is still taken, as clocks differ.
pub const LEEWAY_SECS: u64 = 60;

/// Whether a token that expires at a second has expired at another.
pub open spec fn expired(expires: u64, now: u64) -> bool {
    expires + LEEWAY_SECS < now
}

/// The user that a token is taken to be of, by what it carries: its subject, until it
/// expires.
pub open spec fn taken_for(claims: Option<(Seq<char>, u64)>, now: u64) -> Option<Seq<char>> {
    match claims {
        Some((subject, expires)) => if expired(expires, now) {
            None
        } else {
            Some(subject)
        },
        None => None,
    }
}

/// The user that a token is taken to be of, by what was read from it.
pub fn take_token(claims: Option<(String, u64)>, now: u64) -> (r: Option<String>)
    ensures
        text::opt_text(r) == taken_for(
            (match claims {
                Some(c) => Some((c.0@, c.1)),
                None => None,
            }),
            now,
        ),
{
    match claims {
        Some((subject, expires)) => if now > LEEWAY_SECS && expires < now - LEEWAY_SECS {
            None
        } else {
            Some(subject)
        },
        None => None,
    }
}

/// Who a request comes from: the user that its token is taken to be of; without a
/// token, the guest where guests are let in.
pub open spec fn requester(
    token: Option<Seq<char>>,
    secret: Seq<u8>,
    allow_guest: bool,
    now: u64,
) -> Result<Seq<char>, Refusal> {
    match token {
        Some(token) => match taken_for(token_claims(token, secret), now) {
            Some(user) => Ok(user),
            None => Err(Refusal::InvalidToken),
        },
        None => if allow_guest {
            Ok("Zalikus"@)
        } else {
            Err(Refusal::AuthenticationRequired)
        },
    }
}

/// Who a request comes from that is made at a second. A token that is given has to be
/// good: a bad one is refused even where guests are let in.
pub fn authenticate(
    authorization: Option<&str>,
    cookie: Option<&str>,
    query: Option<&str>,
    secret: &Vec<u8>,
    allow_guest: bool,
    now: u64,
) -> (r: Result<String, Refusal>)
    ensures
        (match r {
            Ok(user) => Ok(user@),
            Err(e) => Err(e),
        }) == requester(
            request_token(
                text::opt_str(authorization),
                text::opt_str(cookie),
                text::opt_str(query),
            ),
            secret@,
            allow_guest,
            now,
        ),
{
    let token = match find_token(authorization, cookie, query) {
        Some(token) => Some(take_token(read_token(token.as_str(), secret.as_slice()), now)),
        None => None,
    };
    identify(token, allow_guest)
}

// ---------------------------------------------------------------------------
// Laws
// ---------------------------------------------------------------------------

/// A password matches the hash that was made of it, so that who registered can log
/// in with the password they gave.
pub proof fn registered_passwords_log_in(password: Seq<char>, hash: Seq<char>)
    requires
        password_matches(password, hash) == Some(true),
    ensures
        login_result(Lookup::Found(hash), password) == Ok::<(), Refusal>(()),
{
}

/// A login that fails on the password is answered as one that fails on the name.
pub proof fn unknown_users_look_like_wrong_passwords(password: Seq<char>, hash: Seq<char>)
    requires
        password_matches(password, hash) == Some(false),
    ensures
        login_result(Lookup::Found(hash), password) == login_result(Lookup::Missing, password),
{
}

/// The cookie that a login sets is the one that a request's token is read from: sent
/// back by a client as name and value, it gives the token.
pub proof fn cookies_carry_their_token(token: Seq<char>)
    requires
        !token.contains(';'),
        token.len() > 0 ==> !text::white_space(token.last()),
    ensures
        cookie_token(Some("zali_auth="@ + token)) == Some(token),
        request_token(None, Some("zali_auth="@ + token), None) == Some(token),
{
    reveal_strlit("zali_auth=");
    let header = "zali_auth="@ + token;
    assert forall|i: int| 0 <= i < header.len() implies #[trigger] header[i] != ';' by {
        if i >= 10 {
            assert(header[i] == token[i - 10]);
        }
    }
    unsplit(header, ';');
    assert(header[0] == 'z');
    assert(header[9] == '=');
    assert(token.len() > 0 ==> header.last() == token.last());
    text::trimmed_of_tight(header);
    text::prefix_then_skip("zali_auth="@, token);
    assert(text::split_on(header, ';')[0] == header);
}

proof fn unsplit(s: Seq<char>, sep: char)
    requires
        forall|i: int| 0 <= i < s.len() ==> #[trigger] s[i] != sep,
    ensures
        text::split_on(s, sep) == seq![s],
    decreases s.len(),
{
    if s.len() == 0 {
        assert(s =~= Seq::<char>::empty());
    } else {
        let init = s.drop_last();
        assert(forall|i: int| 0 <= i < init.len() ==> init[i] == s[i]);
        unsplit(init, sep);
        assert(s[s.len() - 1] != sep);
        assert(init.push(s.last()) =~= s);
        assert(text::split_on(s, sep) =~= seq![s]);
    }
}

/// A token in the `Authorization` header comes before any other.
pub proof fn bearer_comes_first(
    token: Seq<char>,
    cookie: Option<Seq<char>>,
    query: Option<Seq<char>>,
)
    ensures
        request_token(Some("Bearer "@ + token), cookie, query) == Some(token),
{
    text::prefix_then_skip("Bearer "@, token);
}

/// A token that was issued can be sent in the header or in the cookie, and is read
/// back from there.
pub proof fn issued_tokens_can_be_sent(
    username: Seq<char>,
    secret: Seq<u8>,
    now: i64,
    token: Seq<char>,
    cookie: Option<Seq<char>>,
    query: Option<Seq<char>>,
)
    requires
        issued(username, secret, now, token),
    ensures
        request_token(Some("Bearer "@ + token), cookie, query) == Some(token),
        request_token(None, Some("zali_auth="@ + token), query) == Some(token),
{
    bearer_comes_first(token, cookie, query);
    assert(!token.contains(';'));
    assert(!text::white_space(token.last()));
    cookies_carry_their_token(token);
}

/// A request that carries a token, however it is sent, comes from the user that the
/// token was issued to, for a week; once the week and the leeway are over it is refused.
pub proof fn issued_tokens_are_taken_for_a_week(
    username: Seq<char>,
    secret: Seq<u8>,
    issued_at: i64,
    token: Seq<char>,
    authorization: Option<Seq<char>>,
    cookie: Option<Seq<char>>,
    query: Option<Seq<char>>,
    allow_guest: bool,
    now: u64,
)
    requires
        issued(username, secret, issued_at, token),
        -TOKEN_SECS <= issued_at <= LAST_SECOND - TOKEN_SECS,
        request_token(authorization, cookie, query) == Some(token),
    ensures
        ({
            let r = requester(
                request_token(authorization, cookie, query),
                secret,
                allow_guest,
                now,
            );
            &&& now <= issued_at + TOKEN_SECS ==> r == Ok::<Seq<char>, Refusal>(username)
            &&& now > issued_at + TOKEN_SECS + LEEWAY_SECS ==> r == Err::<Seq<char>, Refusal>(
                Refusal::InvalidToken,
            )
        }),
{
}

/// A request that carries a token that was issued never comes from another user.
pub proof fn issued_tokens_are_for_their_user(
    username: Seq<char>,
    secret: Seq<u8>,
    issued_at: i64,
    token: Seq<char>,
    allow_guest: bool,
    now: u64,
)
    requires
        issued(username, secret, issued_at, token),
    ensures
        ({
            let r = requester(Some(token), secret, allow_guest, now);
            r == Ok::<Seq<char>, Refusal>(username) || r == Err::<Seq<char>, Refusal>(
                Refusal::InvalidToken,
            )
        }),
{
}

/// A user can be registered exactly if the name is not blank and has at most 64
/// characters, and the password at least 6.
pub proof fn who_can_be_registered(username: Seq<char>, password: Seq<char>)
    ensures
        ({
            let r = registration_refusal(username, password);
            &&& r is None <==> text::trimmed(username).len() > 0 && username.len() <= 64
                && password.len() >= 6
            &&& r == Some(Refusal::EmptyCredentials) <==> text::trimmed(username).len() == 0
                || password.len() == 0
            &&& r == Some(Refusal::UsernameTooLong) <==> text::trimmed(username).len() > 0
                && password.len() > 0 && username.len() > 64
            &&& r == Some(Refusal::PasswordTooShort) <==> text::trimmed(username).len() > 0
                && username.len() <= 64 && 0 < password.len() < 6
        }),
{
}

/// A login succeeds exactly if the user is known and the password matches; it fails on
/// the server's side exactly if the user's hash cannot be read.
pub proof fn when_a_login_succeeds(hash: Lookup<Seq<char>>, password: Seq<char>)
    ensures
        ({
            let r = login_result(hash, password);
            let known = hash is Found;
            let check = password_matches(password, hash->Found_0);
            &&& r is Ok <==> known && check == Some(true)
            &&& r == Err::<(), Refusal>(Refusal::Internal) <==> known && check is None
            &&& r == Err::<(), Refusal>(Refusal::BadCredentials) <==> !known || check == Some(false)
        }),
{
}

/// A token expires seven days after it is issued.
pub proof fn tokens_expire_after_a_week(now: i64)
    ensures
        now >= -604_800 ==> expiry_of(now) == now + 7 * 24 * 60 * 60,
        now < -604_800 ==> expiry_of(now) == now + 7 * 24 * 60 * 60 + 0x1_0000_0000_0000_0000,
{
}

/// What is issued is signed for the user who logged in, under the server's secret, and
/// expires after a week.
pub proof fn tokens_are_signed_for_their_user(
    username: Seq<char>,
    secret: Seq<u8>,
    now: i64,
    token: Seq<char>,
)
    requires
        issued(username, secret, now, token),
        0 <= now <= LAST_SECOND - TOKEN_SECS,
    ensures
        signed_token(username, (now + 604_800) as u64, secret) == Some(token),
        token_claims(token, secret) == Some((username, (now + 604_800) as u64)),
{
}

/// A cookie names its token, is kept for a week, and is for secure connections only if
/// that is asked for.
pub proof fn what_a_cookie_says(token: Seq<char>)
    ensures
        cookie_text(token, true) == cookie_text(token, false) + "; Secure"@,
        cookie_text(token, false) == "zali_auth="@ + token
            + "; Path=/; HttpOnly; SameSite=Lax; Max-Age=604800"@,
{
    reveal_strlit("");
    assert(cookie_text(token, false) =~= "zali_auth="@ + token
        + "; Path=/; HttpOnly; SameSite=Lax; Max-Age=604800"@);
    assert(cookie_text(token, true) =~= cookie_text(token, false) + "; Secure"@);
}

/// The first part of a `Cookie` header that carries a token is the one that counts,
/// whatever stands around it.
pub proof fn the_first_cookie_counts(parts: Seq<Seq<char>>, at: int, token: Seq<char>)
    requires
        0 <= at < parts.len(),
        text::trimmed(parts[at]) == "zali_auth="@ + token,
        forall|i: int| 0 <= i < at ==> !"zali_auth="@.is_prefix_of(text::trimmed(#[trigger] parts[i])),
    ensures
        token_in_parts(parts) == Some(token),
    decreases at,
{
    if at == 0 {
        text::prefix_then_skip("zali_auth="@, token);
    } else {
        assert(!"zali_auth="@.is_prefix_of(text::trimmed(parts[0])));
        assert(forall|i: int|
            0 <= i < parts.drop_first().len() ==> parts.drop_first()[i] == parts[i + 1]);
        the_first_cookie_counts(parts.drop_first(), at - 1, token);
    }
}

/// Cookies of other names carry no token.
pub proof fn other_cookies_carry_no_token(parts: Seq<Seq<char>>)
    requires
        forall|i: int|
            0 <= i < parts.len() ==> !"zali_auth="@.is_prefix_of(text::trimmed(#[trigger] parts[i])),
    ensures
        token_in_parts(parts) is None,
    decreases parts.len(),
{
    if parts.len() > 0 {
        assert(!"zali_auth="@.is_prefix_of(text::trimmed(parts[0])));
        assert(forall|i: int|
            0 <= i < parts.drop_first().len() ==> parts.drop_first()[i] == parts[i + 1]);
        other_cookies_carry_no_token(parts.drop_first());
    }
}

/// A token is read from a `Cookie` header that has other cookies before it.
pub proof fn cookies_stand_between_semicolons(before: Seq<char>, token: Seq<char>)
    requires
        !token.contains(';'),
        token.len() > 0 ==> !text::white_space(token.last()),
        forall|i: int|
            0 <= i < text::split_on(before, ';').len() ==> !"zali_auth="@.is_prefix_of(
                text::trimmed(#[trigger] text::split_on(before, ';')[i]),
            ),
    ensures
        cookie_token(Some(before.push(';') + (seq![' '] + "zali_auth="@ + token))) == Some(token),
{
    reveal_strlit("zali_auth=");
    let own = "zali_auth="@ + token;
    let part = seq![' '] + "zali_auth="@ + token;
    let empty = Seq::<char>::empty();
    assert(part =~= seq![' '] + own + empty);
    assert(own[0] == 'z' && own[9] == '=');
    assert(token.len() > 0 ==> own.last() == token.last());
    text::only_outer_white_space_goes(seq![' '], own, empty);
    assert(!part.contains(';')) by {
        if part.contains(';') {
            let i = choose|i: int| 0 <= i < part.len() && part[i] == ';';
            if i >= 11 {
                assert(token[i - 11] == ';');
            }
        }
    }
    text::a_separator_ends_a_part(before, ';', part);
    let parts = text::split_on(before, ';');
    assert(forall|i: int| 0 <= i < parts.len() ==> parts.push(part)[i] == parts[i]);
    the_first_cookie_counts(parts.push(part), parts.len() as int, token);
}

/// A pair of a query carries a token exactly under the names `token`, `auth` and
/// `access_token`, and only one that is not blank: all that stands after the first `=`.
pub proof fn pairs_carry_tokens_under_three_names(key: Seq<char>, value: Seq<char>)
    requires
        !key.contains('='),
    ensures
        ({
            let named = key == "token"@ || key == "auth"@ || key == "access_token"@;
            let r = token_in_pair(key + seq!['='] + value);
            &&& named && text::trimmed(value).len() > 0 ==> r == Some(value)
            &&& !named || text::trimmed(value).len() == 0 ==> r is None
            &&& token_in_pair(key) is None
        }),
{
    assets::split_first_found(key, '=', value);
    assets::split_first_missing(key, '=');
}

/// The first pair of a query that carries a token is the one that counts.
pub proof fn the_first_pair_counts(pairs: Seq<Seq<char>>, at: int)
    requires
        0 <= at < pairs.len(),
        token_in_pair(pairs[at]) is Some,
        forall|i: int| 0 <= i < at ==> token_in_pair(#[trigger] pairs[i]) is None,
    ensures
        token_in_pairs(pairs) == token_in_pair(pairs[at]),
    decreases at,
{
    if at > 0 {
        assert(token_in_pair(pairs[0]) is None);
        assert(forall|i: int|
            0 <= i < pairs.drop_first().len() ==> pairs.drop_first()[i] == pairs[i + 1]);
        the_first_pair_counts(pairs.drop_first(), at - 1);
    }
}

/// A query none of whose pairs carries a token carries none.
pub proof fn other_pairs_carry_no_token(pairs: Seq<Seq<char>>)
    requires
        forall|i: int| 0 <= i < pairs.len() ==> token_in_pair(#[trigger] pairs[i]) is None,
    ensures
        token_in_pairs(pairs) is None,
    decreases pairs.len(),
{
    if pairs.len() > 0 {
        assert(token_in_pair(pairs[0]) is None);
        assert(forall|i: int|
            0 <= i < pairs.drop_first().len() ==> pairs.drop_first()[i] == pairs[i + 1]);
        other_pairs_carry_no_token(pairs.drop_first());
    }
}

/// A token is read from a query that has other pairs before it.
pub proof fn pairs_stand_between_ampersands(before: Seq<char>, key: Seq<char>, token: Seq<char>)
    requires
        key == "token"@ || key == "auth"@ || key == "access_token"@,
        !token.contains('&'),
        text::trimmed(token).len() > 0,
        forall|i: int|
            0 <= i < text::split_on(before, '&').len() ==> token_in_pair(
                #[trigger] text::split_on(before, '&')[i],
            ) is None,
    ensures
        query_token(Some(before.push('&') + (key + seq!['='] + token))) == Some(token),
        query_token(Some(key + seq!['='] + token)) == Some(token),
{
    reveal_strlit("token");
    reveal_strlit("auth");
    reveal_strlit("access_token");
    let pair = key + seq!['='] + token;
    assert(!key.contains('='));
    assert(!key.contains('&'));
    assert(!pair.contains('&')) by {
        if pair.contains('&') {
            let i = choose|i: int| 0 <= i < pair.len() && pair[i] == '&';
            if i < key.len() {
                assert(key[i] == '&');
            } else if i > key.len() {
                assert(token[i - key.len() - 1] == '&');
            }
        }
    }
    pairs_carry_tokens_under_three_names(key, token);
    text::a_separator_ends_a_part(before, '&', pair);
    let pairs = text::split_on(before, '&');
    assert(forall|i: int| 0 <= i < pairs.len() ==> pairs.push(pair)[i] == pairs[i]);
    the_first_pair_counts(pairs.push(pair), pairs.len() as int);
    text::a_text_without_separator_is_one_part(pair, '&');
    the_first_pair_counts(seq![pair], 0);
}

/// Where the header carries no token the cookie's counts, and where that carries none
/// either, the query's.
pub proof fn where_a_token_is_looked_for(
    authorization: Option<Seq<char>>,
    cookie: Option<Seq<char>>,
    query: Option<Seq<char>>,
)
    requires
        authorization is None || !"Bearer "@.is_prefix_of(authorization->0),
    ensures
        cookie_token(cookie) is Some ==> request_token(authorization, cookie, query)
            == cookie_token(cookie),
        cookie_token(cookie) is None ==> request_token(authorization, cookie, query)
            == query_token(query),
        request_token(authorization, None, None) is None,
{
}

/// A request with a token comes from the subject of the token if the token was signed
/// under the secret and expired no more than a minute ago, and is refused otherwise; one
/// without a token comes from the guest where guests are let in.
pub proof fn who_a_request_comes_from(
    token: Seq<char>,
    secret: Seq<u8>,
    allow_guest: bool,
    now: u64,
)
    ensures
        ({
            let claims = token_claims(token, secret);
            let r = requester(Some(token), secret, allow_guest, now);
            &&& claims is None ==> r == Err::<Seq<char>, Refusal>(Refusal::InvalidToken)
            &&& claims is Some ==> {
                let (subject, expires) = claims->0;
                r == if now <= expires + 60 {
                    Ok::<Seq<char>, Refusal>(subject)
                } else {
                    Err(Refusal::InvalidToken)
                }
            }
        }),
        requester(None, secret, true, now) == Ok::<Seq<char>, Refusal>("Zalikus"@),
        requester(None, secret, false, now) == Err::<Seq<char>, Refusal>(
            Refusal::AuthenticationRequired,
        ),
{
}

/// A registration is taken exactly if the name is not blank and has at most 64
/// characters, and the password at least 6; what is wrong is said in that order.
pub proof fn which_registrations_are_taken(username: &str, password: &str, r: Result<(), Refusal>)
    requires
        call_ensures(check_registration, (username, password), r),
    ensures
        ({
            let empty = text::trimmed(username@).len() == 0 || password@.len() == 0;
            &&& r is Ok <==> !empty && username@.len() <= 64 && password@.len() >= 6
            &&& empty ==> r->Err_0 == Refusal::EmptyCredentials
            &&& !empty && username@.len() > 64 ==> r->Err_0 == Refusal::UsernameTooLong
            &&& !empty && username@.len() <= 64 && password@.len() < 6 ==> r->Err_0
                == Refusal::PasswordTooShort
        }),
{
}

/// A registration succeeds exactly if every step of it worked; a name that cannot be
/// recorded is one that exists.
pub proof fn when_a_registration_succeeds(
    hashed: bool,
    recorded: bool,
    token_made: bool,
    r: Result<(), Refusal>,
)
    requires
        call_ensures(finish_registration, (hashed, recorded, token_made), r),
    ensures
        r is Ok <==> hashed && recorded && token_made,
        r == Err::<(), Refusal>(Refusal::UserExists) <==> hashed && !recorded,
        r == Err::<(), Refusal>(Refusal::Internal) <==> !hashed || recorded && !token_made,
{
}

/// A login is judged by whether the user was found and the password matched.
pub proof fn how_logins_are_judged(found: bool, check: Option<bool>, r: Result<(), Refusal>)
    requires
        call_ensures(judge_login, (found, check), r),
    ensures
        r is Ok <==> found && check == Some(true),
        r == Err::<(), Refusal>(Refusal::Internal) <==> found && check is None,
        r == Err::<(), Refusal>(Refusal::BadCredentials) <==> !found || check == Some(false),
{
}

/// A password is checked against the hash of the user who logs in.
pub proof fn which_logins_succeed(hash: &Lookup<String>, password: &str, r: Result<(), Refusal>)
    requires
        call_ensures(check_login, (hash, password), r),
    ensures
        r is Ok <==> hash is Found && password_matches(password@, hash->Found_0@) == Some(true),
        r == Err::<(), Refusal>(Refusal::Internal) <==> hash is Found && password_matches(
            password@,
            hash->Found_0@,
        ) is None,
        r == Err::<(), Refusal>(Refusal::BadCredentials) <==> !(hash is Found) || password_matches(
            password@,
            hash->Found_0@,
        ) == Some(false),
{
}

/// An attempt under a name that has attempts on record goes on exactly if fewer than the
/// limit were made within the window, and is noted exactly if it goes on. Whether letters
/// of the name are large or small makes no difference.
pub proof fn which_attempts_go_on(
    guard: &mut LoginGuard,
    username: &str,
    now: u64,
    window_secs: u64,
    max_attempts: usize,
    r: Result<(), Refusal>,
)
    requires
        call_ensures(start_login, (guard, username, now, window_secs, max_attempts), r),
        window_secs > 0,
        old(guard)@.contains_key(text::lowercase(username@)),
    ensures
        ({
            let key = text::lowercase(username@);
            let counted = old(guard)@[key].filter(
                |at: u64| now - at < window_secs * 1_000_000_000,
            );
            &&& r == if counted.len() < max_attempts {
                Ok::<(), Refusal>(())
            } else {
                Err(Refusal::TooManyAttempts { window_secs })
            }
            &&& final(guard)@.contains_key(key)
            &&& final(guard)@[key] == if r is Ok {
                counted.push(now)
            } else {
                counted
            }
        }),
{
    throttle::attempts_in_the_window_are_kept(
        old(guard)@[text::lowercase(username@)],
        now,
        window_secs,
    );
}

/// The first attempt under a name goes on and is noted, unless none is allowed.
pub proof fn first_attempts_go_on(
    guard: &mut LoginGuard,
    username: &str,
    now: u64,
    window_secs: u64,
    max_attempts: usize,
    r: Result<(), Refusal>,
)
    requires
        call_ensures(start_login, (guard, username, now, window_secs, max_attempts), r),
        !old(guard)@.contains_key(text::lowercase(username@)),
        max_attempts > 0,
    ensures
        r is Ok,
        final(guard)@.contains_key(text::lowercase(username@)),
        final(guard)@[text::lowercase(username@)] == seq![now],
{
    throttle::first_attempts_are_noted(
        old(guard)@,
        text::lowercase(username@),
        now,
        window_secs,
        max_attempts as nat,
    );
}

/// A login that succeeds clears what is on record under its name, and one that fails
/// leaves it; what is under other names stays either way.
pub proof fn logins_clear_their_own_attempts(
    guard: &mut LoginGuard,
    username: &str,
    result: &Result<(), Refusal>,
    other: Seq<char>,
)
    requires
        call_ensures(end_login, (guard, username, result), ()),
    ensures
        result is Ok ==> !final(guard)@.contains_key(text::lowercase(username@)),
        result is Err || other != text::lowercase(username@) ==> {
            &&& final(guard)@.contains_key(other) <==> old(guard)@.contains_key(other)
            &&& old(guard)@.contains_key(other) ==> final(guard)@[other] == old(guard)@[other]
        },
{
}

/// Who logged in gets a token that carries their own name and expires after a week.
pub proof fn what_a_login_gives(
    username: &str,
    secret: &Vec<u8>,
    now: i64,
    r: Result<AuthResponse, Refusal>,
)
    requires
        call_ensures(issue_auth_response, (username, secret, now), r),
        0 <= now <= LAST_SECOND - TOKEN_SECS,
    ensures
        r is Ok ==> r->Ok_0.username@ == username@ && token_claims(r->Ok_0.token@, secret@) == Some(
            (username@, (now + 7 * 24 * 60 * 60) as u64),
        ),
        r is Ok <==> signed_token(username@, (now + 7 * 24 * 60 * 60) as u64, secret@) is Some,
        r is Err ==> r->Err_0 == Refusal::Internal,
{
}

/// A cookie is set exactly if it can stand in a header; it holds the token, and asks for
/// secure connections exactly if it is meant to.
pub proof fn what_cookies_are_set(token: &str, secure: bool, r: Option<String>)
    requires
        call_ensures(auth_cookie_value, (token, secure), r),
    ensures
        ({
            let plain = "zali_auth="@ + token@
                + "; Path=/; HttpOnly; SameSite=Lax; Max-Age=604800"@;
            let cookie = if secure {
                plain + "; Secure"@
            } else {
                plain
            };
            &&& r is Some <==> headers::header_text(cookie)
            &&& r is Some ==> r->0@ == cookie
        }),
{
    what_a_cookie_says(token@);
}

/// A token is found in the header, else in the cookie, else in the query.
pub proof fn where_tokens_are_found(
    authorization: Option<&str>,
    cookie: Option<&str>,
    query: Option<&str>,
    r: Option<String>,
)
    requires
        call_ensures(find_token, (authorization, cookie, query), r),
    ensures
        ({
            let in_header = authorization is Some && "Bearer "@.is_prefix_of(authorization->0@);
            let in_cookie = cookie is Some && cookie_token(Some(cookie->0@)) is Some;
            let in_query = query is Some && query_token(Some(query->0@)) is Some;
            &&& r is Some <==> in_header || in_cookie || in_query
            &&& in_header ==> authorization->0@ == "Bearer "@ + r->0@
            &&& !in_header && in_cookie ==> cookie_token(Some(cookie->0@)) == Some(r->0@)
            &&& !in_header && !in_cookie && in_query ==> query_token(Some(query->0@)) == Some(
                r->0@,
            )
        }),
{
    if authorization is Some && "Bearer "@.is_prefix_of(authorization->0@) {
        assert(authorization->0@ =~= "Bearer "@ + r->0@);
    }
}

/// A request comes from the user whom its token is taken for; a token that is not taken
/// is refused even where guests are let in, and one is needed where they are not.
pub proof fn how_requests_are_identified(
    token: Option<Option<String>>,
    allow_guest: bool,
    r: Result<String, Refusal>,
)
    requires
        call_ensures(identify, (token, allow_guest), r),
    ensures
        token is Some && token->0 is Some ==> r is Ok && r->Ok_0@ == token->0->0@,
        token is Some && token->0 is None ==> r == Err::<String, Refusal>(Refusal::InvalidToken),
        token is None && allow_guest ==> r is Ok && r->Ok_0@ == "Zalikus"@,
        token is None && !allow_guest ==> r == Err::<String, Refusal>(
            Refusal::AuthenticationRequired,
        ),
{
}

/// A token is taken for its subject until a minute after it expires.
pub proof fn how_long_tokens_are_taken(subject: String, expires: u64, now: u64, r: Option<String>)
    requires
        call_ensures(take_token, (Some((subject, expires)), now), r),
    ensures
        r is Some <==> now <= expires + 60,
        r is Some ==> r->0@ == subject@,
{
}

/// A token that cannot be read is not taken.
pub proof fn unread_tokens_are_not_taken(now: u64, r: Option<String>)
    requires
        call_ensures(take_token, (None, now), r),
    ensures
        r is None,
{
}

/// A request comes from the subject of the token that is found in it, if that is signed
/// under the secret and not long expired.
pub proof fn whom_requests_are_taken_for(
    authorization: Option<&str>,
    cookie: Option<&str>,
    query: Option<&str>,
    secret: &Vec<u8>,
    allow_guest: bool,
    now: u64,
    token: Option<String>,
    r: Result<String, Refusal>,
)
    requires
        call_ensures(find_token, (authorization, cookie, query), token),
        call_ensures(
            authenticate,
            (authorization, cookie, query, secret, allow_guest, now),
            r,
        ),
    ensures
        token is Some ==> {
            let claims = token_claims(token->0@, secret@);
            let (subject, expires) = claims->0;
            let good = claims is Some && now <= expires + 60;
            &&& good ==> r is Ok && r->Ok_0@ == subject
            &&& !good ==> r == Err::<String, Refusal>(Refusal::InvalidToken)
        },
        token is None && allow_guest ==> r is Ok && r->Ok_0@ == "Zalikus"@,
        token is None && !allow_guest ==> r == Err::<String, Refusal>(
            Refusal::AuthenticationRequired,
        ),
{
}

/// A hash that is made of a password matches it, and has the form and the cost of one.
pub proof fn what_a_hash_is(password: &str, r: Option<String>)
    requires
        call_ensures(hash_password, (password,), r),
        r is Some,
    ensures
        password_matches(password@, r->0@) == Some(true),
        "$2b$12$"@.is_prefix_of(r->0@),
        r->0@.len() == 60,
{
}

} // verus!
