use base64::engine::general_purpose::URL_SAFE_NO_PAD;
use base64::Engine;
use zali_server::auth::{
    auth_cookie_value, authenticate, can_issue_at, check_login, check_registration, end_login,
    find_token, finish_registration, hash_password, identify, issue_auth_response, judge_login,
    start_login, take_token, verify_password,
};
use zali_server::config::{usable_origins, Config, Settings};
use zali_server::refusal::{Lookup, Refusal};
use zali_server::throttle::{too_many_attempts, LoginGuard};

const SECOND: u64 = 1_000_000_000;

fn now_secs() -> i64 {
    let now = std::time::SystemTime::now();
    now.duration_since(std::time::UNIX_EPOCH).unwrap().as_secs() as i64
}

fn secret() -> Vec<u8> {
    b"a secret of more than thirty-two bytes".to_vec()
}

fn settings() -> Settings {
    Settings {
        jwt_secret: Some("0123456789abcdef0123456789abcdef".to_string()),
        allowed_origins: None,
        max_upload_bytes: None,
        allow_guest_mode: None,
        auth_cookie_secure: None,
        rate_limit_window_secs: None,
        rate_limit_max_attempts: None,
        ws_channel_capacity: None,
    }
}

#[test]
fn registrations() {
    assert_eq!(check_registration("ann", "secret"), Ok(()));
    assert_eq!(check_registration("  ", "secret"), Err(Refusal::EmptyCredentials));
    assert_eq!(check_registration("ann", ""), Err(Refusal::EmptyCredentials));
    assert_eq!(check_registration(&"a".repeat(64), "secret"), Ok(()));
    assert_eq!(check_registration(&"a".repeat(65), "secret"), Err(Refusal::UsernameTooLong));
    assert_eq!(check_registration(&"я".repeat(64), "secret"), Ok(()));
    assert_eq!(check_registration(&"я".repeat(65), "secret"), Err(Refusal::UsernameTooLong));
    assert_eq!(check_registration("ann", "12345"), Err(Refusal::PasswordTooShort));
    assert_eq!(check_registration("alice", "при"), Err(Refusal::PasswordTooShort));
    assert_eq!(check_registration("alice", "пароль"), Ok(()));
    assert_eq!(finish_registration(true, true, true), Ok(()));
    assert_eq!(finish_registration(false, true, true), Err(Refusal::Internal));
    assert_eq!(finish_registration(true, false, true), Err(Refusal::UserExists));
    assert_eq!(finish_registration(true, true, false), Err(Refusal::Internal));
}

#[test]
fn passwords_match_their_hash() {
    let known = "$2b$04$EGdrhbKUv8Oc9vGiXX0HQOxSg445d458Muh7DAHskb6QbtCvdxcie";
    assert_eq!(verify_password("correctbatteryhorsestapler", known), Some(true));
    assert_eq!(verify_password("wrong", known), Some(false));
    assert_eq!(verify_password("x", "no hash"), None);
    assert_eq!(
        check_login(&Lookup::Found(known.to_string()), "correctbatteryhorsestapler"),
        Ok(())
    );
    assert_eq!(
        check_login(&Lookup::Found(known.to_string()), "wrong"),
        Err(Refusal::BadCredentials)
    );
    assert_eq!(
        check_login(&Lookup::Found("no hash".to_string()), "x"),
        Err(Refusal::Internal)
    );
    assert_eq!(check_login(&Lookup::Missing, "x"), Err(Refusal::BadCredentials));
    assert_eq!(check_login(&Lookup::Failed, "x"), Err(Refusal::BadCredentials));
    assert_eq!(judge_login(true, Some(true)), Ok(()));
    assert_eq!(judge_login(false, Some(true)), Err(Refusal::BadCredentials));
}

#[test]
fn a_new_hash_matches() {
    let hash = hash_password("пароль").unwrap();
    assert_ne!(hash, "пароль");
    assert!(hash.starts_with("$2b$12$"));
    assert_eq!(hash.chars().count(), 60);
    assert_eq!(check_login(&Lookup::Found(hash), "пароль"), Ok(()));
}

#[test]
fn tokens_name_the_subject_first() {
    let auth = issue_auth_response("ann", &secret(), 0).unwrap();
    let parts: Vec<&str> = auth.token.split('.').collect();
    assert_eq!(parts.len(), 3);
    let claims = URL_SAFE_NO_PAD.decode(parts[1]).unwrap();
    assert_eq!(claims, b"{\"sub\":\"ann\",\"exp\":604800}".to_vec());
    let plain = |c: char| c.is_ascii_alphanumeric() || c == '-' || c == '_' || c == '.';
    assert!(auth.token.chars().all(plain));
}

#[test]
fn tokens_are_taken_for_their_user() {
    let at = 1_700_000_000u64;
    let auth = issue_auth_response("ann", &secret(), at as i64).unwrap();
    assert_eq!(auth.username, "ann");
    let header = format!("Bearer {}", auth.token);
    let take = |now: u64| authenticate(Some(&header), None, None, &secret(), true, now);
    assert_eq!(take(at).unwrap(), "ann");
    assert_eq!(take(0).unwrap(), "ann");
    assert_eq!(take(at + 604_800).unwrap(), "ann");
    assert_eq!(take(at + 604_860).unwrap(), "ann");
    assert_eq!(take(at + 604_861).unwrap_err(), Refusal::InvalidToken);
    assert_eq!(take(u64::MAX).unwrap_err(), Refusal::InvalidToken);
    let cookie = format!("a=b; zali_auth={}", auth.token);
    assert_eq!(authenticate(None, Some(&cookie), None, &secret(), false, at).unwrap(), "ann");
    let query = format!("x=1&token={}", auth.token);
    assert_eq!(authenticate(None, None, Some(&query), &secret(), false, at).unwrap(), "ann");
    let other = b"another secret that is long enough too".to_vec();
    assert_eq!(
        authenticate(Some(&header), None, None, &other, true, at).unwrap_err(),
        Refusal::InvalidToken
    );
    assert!(can_issue_at(0));
    assert!(!can_issue_at(i64::MAX));
}

#[test]
fn expiry_of_what_a_token_carries() {
    let claims = |expires: u64| Some(("ann".to_string(), expires));
    assert_eq!(take_token(claims(100), 160).as_deref(), Some("ann"));
    assert_eq!(take_token(claims(100), 161), None);
    assert_eq!(take_token(claims(0), 60).as_deref(), Some("ann"));
    assert_eq!(take_token(claims(u64::MAX), u64::MAX).as_deref(), Some("ann"));
    assert_eq!(take_token(None, 0), None);
}

#[test]
fn tokens_need_a_subject_and_an_expiry() {
    let key = jsonwebtoken::EncodingKey::from_secret(&secret());
    let sign = |claims: &str| {
        let claims: serde_json::Value = serde_json::from_str(claims).unwrap();
        jsonwebtoken::encode(&jsonwebtoken::Header::default(), &claims, &key).unwrap()
    };
    let take = |claims: &str| {
        let header = format!("Bearer {}", sign(claims));
        authenticate(Some(&header), None, None, &secret(), true, 50)
    };
    assert_eq!(take("{\"sub\":\"ann\",\"exp\":100}").unwrap(), "ann");
    assert_eq!(take("{\"sub\":\"ann\"}").unwrap_err(), Refusal::InvalidToken);
    assert_eq!(take("{\"exp\":100}").unwrap_err(), Refusal::InvalidToken);
    assert_eq!(take("{\"sub\":1,\"exp\":100}").unwrap_err(), Refusal::InvalidToken);
    assert_eq!(take("{\"sub\":\"ann\",\"exp\":\"x\"}").unwrap_err(), Refusal::InvalidToken);
    let with_audience = "{\"sub\":\"ann\",\"exp\":100,\"aud\":\"x\"}";
    assert_eq!(take(with_audience).unwrap_err(), Refusal::InvalidToken);
}

#[test]
fn guests() {
    assert_eq!(authenticate(None, None, None, &secret(), true, 9).unwrap(), "Zalikus");
    assert_eq!(
        authenticate(Some("Basic x"), None, None, &secret(), false, 9).unwrap_err(),
        Refusal::AuthenticationRequired
    );
    assert_eq!(
        authenticate(Some("Bearer bad"), None, None, &secret(), true, 9).unwrap_err(),
        Refusal::InvalidToken
    );
    assert_eq!(identify(Some(Some("ann".to_string())), false).unwrap(), "ann");
    assert_eq!(identify(Some(None), true).unwrap_err(), Refusal::InvalidToken);
    assert_eq!(identify(None, false).unwrap_err(), Refusal::AuthenticationRequired);
}

#[test]
fn where_tokens_are_found() {
    let found = |a: Option<&str>, c: Option<&str>, q: Option<&str>| find_token(a, c, q);
    assert_eq!(found(Some("Bearer t"), Some("zali_auth=c"), None).as_deref(), Some("t"));
    assert_eq!(found(Some("bearer t"), Some("zali_auth=c"), None).as_deref(), Some("c"));
    assert_eq!(found(None, Some("x=1;  zali_auth=c ; zali_auth=d"), None).as_deref(), Some("c"));
    assert_eq!(found(None, Some("zali_authx=c"), Some("auth=q")).as_deref(), Some("q"));
    assert_eq!(found(None, None, Some("token=&access_token=a")).as_deref(), Some("a"));
    assert_eq!(found(None, None, Some("token= &other=a")), None);
    assert_eq!(found(None, None, Some("token=a=b")).as_deref(), Some("a=b"));
    assert_eq!(found(None, Some("zali_auth="), None).as_deref(), Some(""));
    assert_eq!(found(None, None, None), None);
}

#[test]
fn cookies() {
    assert_eq!(
        auth_cookie_value("t", false).unwrap(),
        "zali_auth=t; Path=/; HttpOnly; SameSite=Lax; Max-Age=604800"
    );
    assert_eq!(
        auth_cookie_value("t", true).unwrap(),
        "zali_auth=t; Path=/; HttpOnly; SameSite=Lax; Max-Age=604800; Secure"
    );
    assert!(auth_cookie_value("a\nb", false).is_none());
    let auth = issue_auth_response("ann", &secret(), now_secs()).unwrap();
    let cookie = auth_cookie_value(&auth.token, true).unwrap();
    let sent_back = cookie.split(';').next().unwrap();
    assert_eq!(find_token(None, Some(sent_back), None), Some(auth.token));
}

#[test]
fn attempts_are_limited() {
    let mut guard = LoginGuard::new();
    for i in 0..3 {
        assert_eq!(start_login(&mut guard, "Ann", i * SECOND, 10, 3), Ok(()));
    }
    assert_eq!(
        start_login(&mut guard, "aNN", 3 * SECOND, 10, 3),
        Err(Refusal::TooManyAttempts { window_secs: 10 })
    );
    assert_eq!(start_login(&mut guard, "bob", 3 * SECOND, 10, 3), Ok(()));
    assert_eq!(start_login(&mut guard, "ann", 10 * SECOND - 1, 10, 3).is_ok(), false);
    assert_eq!(start_login(&mut guard, "ann", 10 * SECOND, 10, 3), Ok(()));
    assert_eq!(start_login(&mut guard, "ann", 10 * SECOND, 10, 3).is_ok(), false);
}

#[test]
fn success_clears_attempts() {
    let mut guard = LoginGuard::new();
    assert!(start_login(&mut guard, "ann", 5, 10, 1).is_ok());
    end_login(&mut guard, "ANN", &Err(Refusal::BadCredentials));
    assert!(start_login(&mut guard, "ann", 6, 10, 1).is_err());
    end_login(&mut guard, "ANN", &Ok(()));
    assert!(start_login(&mut guard, "ann", 7, 10, 1).is_ok());
    assert!(start_login(&mut guard, "bob", 7, 10, 0).is_err());
    assert!(start_login(&mut guard, "joe", 7, 0, 1).is_ok());
    assert!(start_login(&mut guard, "joe", 7, 0, 1).is_ok());
}

#[test]
fn lower_case_of_other_scripts() {
    let mut guard = LoginGuard::new();
    assert!(start_login(&mut guard, "ЁЖИК", 5, 10, 1).is_ok());
    assert!(start_login(&mut guard, "ёжик", 6, 10, 1).is_err());
}

#[test]
fn refusals_have_words() {
    assert_eq!(
        too_many_attempts(60),
        "Слишком много попыток. Повторите через 60 секунд."
    );
    let r = Refusal::TooManyAttempts { window_secs: 1205 };
    assert_eq!(r.status(), 429);
    assert_eq!(r.message(), "Слишком много попыток. Повторите через 1205 секунд.");
    assert_eq!(Refusal::InviteExpired.status(), 410);
    assert_eq!(Refusal::InviteExpired.message(), "Срок действия инвайта истёк");
    assert_eq!(Refusal::AvatarTooLarge.status(), 413);
    assert_eq!(Refusal::UserExists.status(), 409);
    assert_eq!(Refusal::BadCredentials.status(), 401);
    assert_eq!(Refusal::Forbidden.status(), 403);
    assert_eq!(Refusal::Forbidden.message(), "");
    assert_eq!(Refusal::ServerNotFound.status(), 404);
    assert_eq!(Refusal::Internal.status(), 500);
}

#[test]
fn settings_have_defaults() {
    let c = Config::from_settings(&settings(), false).unwrap();
    assert_eq!(c.jwt_secret, b"0123456789abcdef0123456789abcdef".to_vec());
    assert_eq!(c.allowed_origins.len(), 7);
    assert_eq!(c.allowed_origins[0], "https://msgs.zalikus.org");
    assert_eq!(c.allowed_origins[6], "null");
    assert_eq!(c.max_upload_bytes, 10 * 1024 * 1024);
    assert!(!c.allow_guest_mode);
    assert!(c.auth_cookie_secure);
    assert_eq!(c.rate_limit_window_secs, 60);
    assert_eq!(c.rate_limit_max_attempts, 10);
    assert_eq!(c.ws_channel_capacity, 64);
    let c = Config::from_settings(&settings(), true).unwrap();
    assert!(c.allow_guest_mode);
    assert!(!c.auth_cookie_secure);
}

#[test]
fn settings_are_read() {
    let mut s = settings();
    s.allowed_origins = Some(" a , b,,c\u{1}".to_string());
    s.max_upload_bytes = Some("+12".to_string());
    s.allow_guest_mode = Some("TRUE".to_string());
    s.auth_cookie_secure = Some(" Off ".to_string());
    s.rate_limit_window_secs = Some("18446744073709551615".to_string());
    s.rate_limit_max_attempts = Some(" 3".to_string());
    s.ws_channel_capacity = Some("007".to_string());
    let c = Config::from_settings(&s, false).unwrap();
    assert_eq!(c.allowed_origins, vec!["a", "b", "", "c\u{1}"]);
    assert_eq!(usable_origins(&c.allowed_origins), vec!["a", "b", ""]);
    assert_eq!(c.max_upload_bytes, 12);
    assert!(c.allow_guest_mode);
    assert!(!c.auth_cookie_secure);
    assert_eq!(c.rate_limit_window_secs, u64::MAX);
    assert_eq!(c.rate_limit_max_attempts, 10);
    assert_eq!(c.ws_channel_capacity, 7);
    s.rate_limit_window_secs = Some("18446744073709551616".to_string());
    s.allow_guest_mode = Some(" true".to_string());
    s.auth_cookie_secure = Some("maybe".to_string());
    let c = Config::from_settings(&s, true).unwrap();
    assert_eq!(c.rate_limit_window_secs, 60);
    assert!(!c.allow_guest_mode);
    assert!(!c.auth_cookie_secure);
    for (word, secure) in [("1", true), ("yes", true), ("ON", true), ("0", false), ("no", false)] {
        s.auth_cookie_secure = Some(word.to_string());
        assert_eq!(Config::from_settings(&s, true).unwrap().auth_cookie_secure, secure);
    }
}

#[test]
fn secrets() {
    let with = |secret: Option<&str>, development: bool| {
        let mut s = settings();
        s.jwt_secret = secret.map(|x| x.to_string());
        Config::from_settings(&s, development).map(|c| c.jwt_secret)
    };
    assert!(with(None, false).is_none());
    assert!(with(Some("short"), false).is_none());
    assert!(with(Some(&format!("{:40}", "short")), false).is_none());
    assert_eq!(with(Some("short"), true).unwrap(), b"short".to_vec());
    let default = b"CHANGE_ME_IN_PRODUCTION_ZALI_SECRET_KEY_MIN32CH".to_vec();
    assert_eq!(with(None, true).unwrap(), default);
    assert_eq!(with(Some("  "), true).unwrap(), default);
    assert!(with(Some(&"я".repeat(31)), false).is_none());
    assert_eq!(with(Some(&"я".repeat(32)), false).unwrap().len(), 64);
}
