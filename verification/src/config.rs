//! The server's settings.

use crate::headers;
use crate::text;
use vstd::prelude::*;

verus! {

/// The settings as they are given, each as text if it is given.
#[derive(Debug)]
pub struct Settings {
    pub jwt_secret: Option<String>,
    pub allowed_origins: Option<String>,
    pub max_upload_bytes: Option<String>,
    pub allow_guest_mode: Option<String>,
    pub auth_cookie_secure: Option<String>,
    pub rate_limit_window_secs: Option<String>,
    pub rate_limit_max_attempts: Option<String>,
    pub ws_channel_capacity: Option<String>,
}

/// The settings of a running server.
#[derive(Debug)]
pub struct Config {
    pub jwt_secret: Vec<u8>,
    pub allowed_origins: Vec<String>,
    pub max_upload_bytes: usize,
    pub allow_guest_mode: bool,
    pub auth_cookie_secure: bool,
    pub rate_limit_window_secs: u64,
    pub rate_limit_max_attempts: usize,
    pub ws_channel_capacity: usize,
}

/// The secret that tokens are signed under: one of at least 32 characters, not counting
/// white space at its ends. A server for development takes any that is not blank, and
/// has one of its own.
pub open spec fn secret_text(given: Option<Seq<char>>, development: bool) -> Option<Seq<char>> {
    if given is Some && text::trimmed(given->0).len() >= 32 {
        given
    } else if !development {
        None
    } else if given is Some && !text::blank(given->0) {
        given
    } else {
        Some("CHANGE_ME_IN_PRODUCTION_ZALI_SECRET_KEY_MIN32CH"@)
    }
}

/// The origins that are let in: a list with commas, white space around them left out.
pub open spec fn origin_list(given: Option<Seq<char>>) -> Seq<Seq<char>> {
    let list = match given {
        Some(s) => s,
        None =>
            "https://msgs.zalikus.org,http://localhost:3000,http://localhost,http://127.0.0.1:3000,http://127.0.0.1,zali://localhost,null"@,
    };
    text::split_on(list, ',').map_values(|s: Seq<char>| text::trimmed(s))
}

/// A number that is given, or else a default.
pub open spec fn number_or(given: Option<Seq<char>>, max: nat, default: nat) -> nat {
    match given {
        Some(s) => match text::unsigned_value(s, max) {
            Some(n) => n,
            None => default,
        },
        None => default,
    }
}

/// Whether guests are let in: if that is set to `true` in any case; where it is not
/// set, on a server for development.
pub open spec fn guests_allowed(given: Option<Seq<char>>, development: bool) -> bool {
    match given {
        Some(s) => text::lowercase(s) == "true"@,
        None => development,
    }
}

/// A word that means yes.
pub open spec fn means_yes(word: Seq<char>) -> bool {
    word == "1"@ || word == "true"@ || word == "yes"@ || word == "on"@
}

/// A word that means no.
pub open spec fn means_no(word: Seq<char>) -> bool {
    word == "0"@ || word == "false"@ || word == "no"@ || word == "off"@
}

/// Whether the cookie is for secure connections only; where that is not said in so
/// many words, on any but a server for development.
pub open spec fn cookie_secure(given: Option<Seq<char>>, development: bool) -> bool {
    match given {
        Some(s) => {
            let word = text::lowercase(text::trimmed(s));
            if means_yes(word) {
                true
            } else if means_no(word) {
                false
            } else {
                !development
            }
        },
        None => !development,
    }
}

fn choose_secret(given: &Option<String>, development: bool) -> (r: Option<String>)
    ensures
        text::opt_text(r) == secret_text(text::opt_text(*given), development),
{
    match given {
        Some(secret) => {
            let word = text::trim(secret.as_str());
            if text::chars_of(word).len() >= 32 {
                return Some(secret.clone());
            }
            if !development {
                return None;
            }
            if !word.is_empty() {
                return Some(secret.clone());
            }
        },
        None => {
            if !development {
                return None;
            }
        },
    }
    Some("CHANGE_ME_IN_PRODUCTION_ZALI_SECRET_KEY_MIN32CH".to_string())
}

fn read_origins(given: &Option<String>) -> (r: Vec<String>)
    ensures
        text::texts(r@) == origin_list(text::opt_text(*given)),
{
    let list = match given {
        Some(s) => s.clone(),
        None =>
            "https://msgs.zalikus.org,http://localhost:3000,http://localhost,http://127.0.0.1:3000,http://127.0.0.1,zali://localhost,null".to_string(),
    };
    let parts = text::split(list.as_str(), ',');
    let ghost all = origin_list(text::opt_text(*given));
    let mut out: Vec<String> = Vec::new();
    let mut i: usize = 0;
    while i < parts.len()
        invariant
            i <= parts@.len(),
            all == text::texts(parts@).map_values(|s: Seq<char>| text::trimmed(s)),
            text::texts(out@) =~= all.take(i as int),
        decreases parts@.len() - i,
    {
        let ghost before = text::texts(out@);
        out.push(text::trim(parts[i].as_str()).to_string());
        i += 1;
        proof {
            assert(text::texts(out@) =~= before.push(all[i as int - 1]));
            assert(all.take(i as int) =~= before.push(all[i as int - 1]));
        }
    }
    proof {
        assert(all.take(all.len() as int) == all);
    }
    out
}

fn usize_or(given: &Option<String>, default: usize) -> (r: usize)
    ensures
        r == number_or(text::opt_text(*given), usize::MAX as nat, default as nat),
{
    match given {
        Some(s) => match text::parse_usize(s.as_str()) {
            Some(n) => n,
            None => default,
        },
        None => default,
    }
}

fn u64_or(given: &Option<String>, default: u64) -> (r: u64)
    ensures
        r == number_or(text::opt_text(*given), u64::MAX as nat, default as nat),
{
    match given {
        Some(s) => match text::parse_u64(s.as_str()) {
            Some(n) => n,
            None => default,
        },
        None => default,
    }
}

fn read_guest_mode(given: &Option<String>, development: bool) -> (r: bool)
    ensures
        r == guests_allowed(text::opt_text(*given), development),
{
    match given {
        Some(s) => text::str_eq(text::to_lowercase(s.as_str()).as_str(), "true"),
        None => development,
    }
}

fn read_cookie_secure(given: &Option<String>, development: bool) -> (r: bool)
    ensures
        r == cookie_secure(text::opt_text(*given), development),
{
    match given {
        Some(s) => {
            let word = text::to_lowercase(text::trim(s.as_str()));
            let word = word.as_str();
            if text::str_eq(word, "1") || text::str_eq(word, "true") || text::str_eq(word, "yes")
                || text::str_eq(word, "on") {
                true
            } else if text::str_eq(word, "0") || text::str_eq(word, "false") || text::str_eq(
                word,
                "no",
            ) || text::str_eq(word, "off") {
                false
            } else {
                !development
            }
        },
        None => !development,
    }
}

/// The bytes of a text.
fn bytes_of(s: &str) -> (r: Vec<u8>)
    ensures
        r@ == vstd::utf8::encode_utf8(s@),
{
    let bytes = s.as_bytes();
    let mut out: Vec<u8> = Vec::new();
    let mut i: usize = 0;
    while i < bytes.len()
        invariant
            i <= bytes@.len(),
            out@ =~= bytes@.take(i as int),
        decreases bytes@.len() - i,
    {
        out.push(bytes[i]);
        i += 1;
    }
    proof {
        assert(bytes@.take(bytes@.len() as int) == bytes@);
    }
    out
}

impl Config {
    /// The settings of a server, from what is given. There are none without a secret
    /// that tokens can be signed under.
    pub fn from_settings(settings: &Settings, development: bool) -> (r: Option<Config>)
        ensures
            r is Some <==> secret_text(text::opt_text(settings.jwt_secret), development) is Some,
            r is Some ==> {
                let c = r->0;
                &&& c.jwt_secret@ == vstd::utf8::encode_utf8(
                    secret_text(text::opt_text(settings.jwt_secret), development)->0,
                )
                &&& text::texts(c.allowed_origins@) == origin_list(
                    text::opt_text(settings.allowed_origins),
                )
                &&& c.max_upload_bytes == number_or(
                    text::opt_text(settings.max_upload_bytes),
                    usize::MAX as nat,
                    10_485_760,
                )
                &&& c.allow_guest_mode == guests_allowed(
                    text::opt_text(settings.allow_guest_mode),
                    development,
                )
                &&& c.auth_cookie_secure == cookie_secure(
                    text::opt_text(settings.auth_cookie_secure),
                    development,
                )
                &&& c.rate_limit_window_secs == number_or(
                    text::opt_text(settings.rate_limit_window_secs),
                    u64::MAX as nat,
                    60,
                )
                &&& c.rate_limit_max_attempts == number_or(
                    text::opt_text(settings.rate_limit_max_attempts),
                    usize::MAX as nat,
                    10,
                )
                &&& c.ws_channel_capacity == number_or(
                    text::opt_text(settings.ws_channel_capacity),
                    usize::MAX as nat,
                    64,
                )
            },
    {
        match choose_secret(&settings.jwt_secret, development) {
            Some(secret) => Some(
                Config {
                    jwt_secret: bytes_of(secret.as_str()),
                    allowed_origins: read_origins(&settings.allowed_origins),
                    max_upload_bytes: usize_or(&settings.max_upload_bytes, 10_485_760),
                    allow_guest_mode: read_guest_mode(&settings.allow_guest_mode, development),
                    auth_cookie_secure: read_cookie_secure(
                        &settings.auth_cookie_secure,
                        development,
                    ),
                    rate_limit_window_secs: u64_or(&settings.rate_limit_window_secs, 60),
                    rate_limit_max_attempts: usize_or(&settings.rate_limit_max_attempts, 10),
                    ws_channel_capacity: usize_or(&settings.ws_channel_capacity, 64),
                },
            ),
            None => None,
        }
    }
}

/// The names of a list that can stand in a header.
pub open spec fn header_texts(s: Seq<Seq<char>>) -> Seq<Seq<char>>
    decreases s.len(),
{
    if s.len() == 0 {
        s
    } else {
        let rest = header_texts(s.drop_last());
        if headers::header_text(s.last()) {
            rest.push(s.last())
        } else {
            rest
        }
    }
}

/// The origins that are let in, of those that are set: the ones that can stand in a
/// header.
pub fn usable_origins(origins: &Vec<String>) -> (r: Vec<String>)
    ensures
        text::texts(r@) == header_texts(text::texts(origins@)),
{
    let ghost all = text::texts(origins@);
    let mut out: Vec<String> = Vec::new();
    let mut i: usize = 0;
    proof {
        assert(text::texts(out@) =~= header_texts(all.take(0)));
    }
    while i < origins.len()
        invariant
            i <= origins@.len(),
            all == text::texts(origins@),
            text::texts(out@) == header_texts(all.take(i as int)),
        decreases origins@.len() - i,
    {
        proof {
            assert(all.take(i as int + 1).drop_last() =~= all.take(i as int));
        }
        let ghost before = text::texts(out@);
        if headers::is_header_value(origins[i].as_str()) {
            out.push(origins[i].clone());
            proof {
                assert(text::texts(out@) =~= before.push(all[i as int]));
            }
        }
        i += 1;
    }
    proof {
        assert(all.take(all.len() as int) == all);
    }
    out
}

/// A server that is not for development never signs under a short secret.
pub proof fn production_secrets_are_long(given: Option<Seq<char>>)
    requires
        secret_text(given, false) is Some,
    ensures
        text::trimmed(secret_text(given, false)->0).len() >= 32,
{
}

/// A server for development always has a secret.
pub proof fn development_has_a_secret(given: Option<Seq<char>>)
    ensures
        secret_text(given, true) is Some,
{
}

/// A server runs exactly if it is for development or is given a secret of at least 32
/// characters, white space at the ends not counted. It signs under the secret that it
/// is given, whole; where it is given none, or a blank one, under its own.
pub proof fn which_secret_a_server_signs_under(
    settings: &Settings,
    development: bool,
    r: Option<Config>,
)
    requires
        call_ensures(Config::from_settings, (settings, development), r),
    ensures
        ({
            let given = settings.jwt_secret;
            let long = given is Some && text::trimmed(given->0@).len() >= 32;
            let blank = given is None || text::trimmed(given->0@).len() == 0;
            &&& r is Some <==> development || long
            &&& r is Some && !blank ==> r->0.jwt_secret@ == vstd::utf8::encode_utf8(given->0@)
            &&& r is Some && blank ==> r->0.jwt_secret@ == vstd::utf8::encode_utf8(
                "CHANGE_ME_IN_PRODUCTION_ZALI_SECRET_KEY_MIN32CH"@,
            )
        }),
{
}

/// A setting that is a number is taken as it is given.
pub proof fn given_numbers_are_taken(
    settings: &Settings,
    development: bool,
    r: Option<Config>,
    n: nat,
)
    requires
        call_ensures(Config::from_settings, (settings, development), r),
        r is Some,
    ensures
        settings.max_upload_bytes is Some && settings.max_upload_bytes->0@ == text::decimal_text(n)
            && n <= usize::MAX ==> r->0.max_upload_bytes == n,
        settings.rate_limit_window_secs is Some && settings.rate_limit_window_secs->0@
            == text::decimal_text(n) && n <= u64::MAX ==> r->0.rate_limit_window_secs == n,
        settings.rate_limit_max_attempts is Some && settings.rate_limit_max_attempts->0@
            == text::decimal_text(n) && n <= usize::MAX ==> r->0.rate_limit_max_attempts == n,
        settings.ws_channel_capacity is Some && settings.ws_channel_capacity->0@
            == text::decimal_text(n) && n <= usize::MAX ==> r->0.ws_channel_capacity == n,
{
    text::decimal_round_trip(n);
    let digits = text::decimal_text(n);
    assert(text::ascii_digit(digits[0]));
    assert(text::unsigned_digits(digits) == digits);
}

/// A setting that is not given, or is not a number, has its default: ten megabytes for
/// an upload, ten attempts in a minute, and 64 messages that wait for a client.
pub proof fn other_numbers_have_their_default(
    settings: &Settings,
    development: bool,
    r: Option<Config>,
)
    requires
        call_ensures(Config::from_settings, (settings, development), r),
        r is Some,
    ensures
        settings.max_upload_bytes is None || text::unsigned_value(
            settings.max_upload_bytes->0@,
            usize::MAX as nat,
        ) is None ==> r->0.max_upload_bytes == 10 * 1024 * 1024,
        settings.rate_limit_window_secs is None || text::unsigned_value(
            settings.rate_limit_window_secs->0@,
            u64::MAX as nat,
        ) is None ==> r->0.rate_limit_window_secs == 60,
        settings.rate_limit_max_attempts is None || text::unsigned_value(
            settings.rate_limit_max_attempts->0@,
            usize::MAX as nat,
        ) is None ==> r->0.rate_limit_max_attempts == 10,
        settings.ws_channel_capacity is None || text::unsigned_value(
            settings.ws_channel_capacity->0@,
            usize::MAX as nat,
        ) is None ==> r->0.ws_channel_capacity == 64,
{
}

/// Guests are let in if that is set to `true`, in any case, and not if it is set to
/// anything else; where it is not set, only on a server for development.
pub proof fn when_guests_are_let_in(settings: &Settings, development: bool, r: Option<Config>)
    requires
        call_ensures(Config::from_settings, (settings, development), r),
        r is Some,
    ensures
        settings.allow_guest_mode is Some ==> (r->0.allow_guest_mode <==> text::lowercase(
            settings.allow_guest_mode->0@,
        ) == "true"@),
        settings.allow_guest_mode is None ==> (r->0.allow_guest_mode <==> development),
{
}

/// The cookie is for secure connections only where that is set to a word for yes, and
/// is not where it is set to one for no; where it is set to neither, it is unless the
/// server is for development.
pub proof fn when_cookies_are_for_secure_connections(
    settings: &Settings,
    development: bool,
    r: Option<Config>,
)
    requires
        call_ensures(Config::from_settings, (settings, development), r),
        r is Some,
    ensures
        ({
            let set = settings.auth_cookie_secure is Some;
            let word = text::lowercase(text::trimmed(settings.auth_cookie_secure->0@));
            let yes = word == "1"@ || word == "true"@ || word == "yes"@ || word == "on"@;
            let no = word == "0"@ || word == "false"@ || word == "no"@ || word == "off"@;
            &&& set && yes ==> r->0.auth_cookie_secure
            &&& set && no ==> !r->0.auth_cookie_secure
            &&& !set || !yes && !no ==> (r->0.auth_cookie_secure <==> !development)
        }),
{
    reveal_strlit("1");
    reveal_strlit("true");
    reveal_strlit("yes");
    reveal_strlit("on");
    reveal_strlit("0");
    reveal_strlit("false");
    reveal_strlit("no");
    reveal_strlit("off");
    assert("1"@[0] != "0"@[0]);
    assert("true"@[0] == 't' && "false"@[0] == 'f');
    assert("yes"@[0] == 'y' && "no"@[0] == 'n' && "on"@[0] == 'o' && "off"@[0] == 'o');
    assert("on"@.len() == 2 && "off"@.len() == 3);
}

/// The origins are the parts of the setting between commas, each without the white
/// space around it.
pub proof fn origins_stand_between_commas(settings: &Settings, development: bool, r: Option<Config>)
    requires
        call_ensures(Config::from_settings, (settings, development), r),
        r is Some,
        settings.allowed_origins is Some,
    ensures
        ({
            let parts = text::split_on(settings.allowed_origins->0@, ',');
            let origins = r->0.allowed_origins@;
            &&& origins.len() == parts.len()
            &&& forall|i: int|
                0 <= i < parts.len() ==> (#[trigger] origins[i])@ == text::trimmed(parts[i])
        }),
{
    let parts = text::split_on(settings.allowed_origins->0@, ',');
    let origins = r->0.allowed_origins@;
    assert(text::texts(origins).len() == parts.len());
    assert forall|i: int| 0 <= i < parts.len() implies (#[trigger] origins[i])@ == text::trimmed(
        parts[i],
    ) by {
        assert(text::texts(origins)[i] == origins[i]@);
    }
}

/// Of the origins that are set, those that can stand in a header are let in, in their
/// order.
pub proof fn which_origins_are_let_in(origins: &Vec<String>, r: Vec<String>)
    requires
        call_ensures(usable_origins, (origins,), r),
    ensures
        text::texts(r@) == text::texts(origins@).filter(|s: Seq<char>| headers::header_text(s)),
{
    header_texts_are_kept(text::texts(origins@));
}

proof fn header_texts_are_kept(s: Seq<Seq<char>>)
    ensures
        header_texts(s) == s.filter(|s: Seq<char>| headers::header_text(s)),
    decreases s.len(),
{
    reveal(Seq::filter);
    if s.len() > 0 {
        header_texts_are_kept(s.drop_last());
    } else {
        assert(s =~= Seq::<Seq<char>>::empty());
    }
}

/// Where no origins are set, those are let in that would be if this list were.
pub proof fn which_origins_are_let_in_unset(
    settings: &Settings,
    development: bool,
    r: Option<Config>,
)
    requires
        call_ensures(Config::from_settings, (settings, development), r),
        r is Some,
        settings.allowed_origins is None,
    ensures
        ({
            let parts = text::split_on(
                "https://msgs.zalikus.org,http://localhost:3000,http://localhost,http://127.0.0.1:3000,http://127.0.0.1,zali://localhost,null"@,
                ',',
            );
            let origins = r->0.allowed_origins@;
            &&& origins.len() == parts.len()
            &&& forall|i: int|
                0 <= i < parts.len() ==> (#[trigger] origins[i])@ == text::trimmed(parts[i])
        }),
{
    let origins = r->0.allowed_origins@;
    let all = text::texts(origins);
    assert(all.len() == origins.len());
    assert(forall|i: int| 0 <= i < all.len() ==> all[i] == (#[trigger] origins[i])@);
}

} // verus!
