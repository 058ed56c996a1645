use info_screen::config::{parse_u64, AppConfig};
use info_screen::oauth::{
    callback_code, token_from_exchange, token_from_refresh, token_request_redirect_uri,
    GoogleOAuthCallbackQuery, OAuthExchangeResponse, OAuthToken, OAuthTokenRequest,
};
use info_screen::text::{blank, string_to_static_str};

fn config(id: &str, secret: &str) -> AppConfig {
    AppConfig::from_settings(None, None, None, Some(id.to_string()), Some(secret.to_string()), None, None, None)
}

fn pairs(form: &[(String, String)]) -> Vec<(&str, &str)> {
    form.iter().map(|(a, b)| (a.as_str(), b.as_str())).collect()
}

#[test]
fn settings_fall_back_to_defaults() {
    let c = AppConfig::from_settings(None, None, None, None, None, None, None, None);
    assert_eq!(c.weather_latitude, "58.14574000943632");
    assert_eq!(c.weather_longitude, "8.06137337891726");
    assert_eq!(
        c.calendar_id,
        "f2469c230e7c5d747c481a395b71f16b70f6b4c8d20d2bcb4348bc4e34eb814f@group.calendar.google.com"
    );
    assert_eq!(c.google_client_id, "");
    assert_eq!(c.google_client_secret, "");
    assert_eq!(c.google_redirect_uri, "http://localhost:8080/oauth/callback");
    assert_eq!(c.slideshow_directory, "static/slideshow");
    assert_eq!(c.slideshow_interval_seconds, 30);
    let set = AppConfig::from_settings(
        Some("1".into()),
        Some("2".into()),
        Some("cal".into()),
        Some("id".into()),
        Some("secret".into()),
        Some("uri".into()),
        Some("dir".into()),
        Some("45".into()),
    );
    assert_eq!(
        (set.weather_latitude.as_str(), set.weather_longitude.as_str(), set.calendar_id.as_str()),
        ("1", "2", "cal")
    );
    assert_eq!((set.google_redirect_uri.as_str(), set.slideshow_directory.as_str()), ("uri", "dir"));
    assert_eq!(set.slideshow_interval_seconds, 45);
}

#[test]
fn the_slideshow_interval_must_be_a_positive_number() {
    let interval = |v: &str| {
        AppConfig::from_settings(None, None, None, None, None, None, None, Some(v.to_string()))
            .slideshow_interval_seconds
    };
    assert_eq!(interval("0"), 30);
    assert_eq!(interval("-5"), 30);
    assert_eq!(interval("ten"), 30);
    assert_eq!(interval(""), 30);
    assert_eq!(interval(" 5"), 30);
    assert_eq!(interval("+15"), 15);
    assert_eq!(interval("18446744073709551616"), 30);
    assert_eq!(interval("18446744073709551615"), u64::MAX);
}

#[test]
fn numbers_parse_as_std_parses_them() {
    for text in ["", "+", "-", "0", "+0", "007", "-1", "1a", "18446744073709551615", "18446744073709551616", "++1", "٣"] {
        assert_eq!(parse_u64(text), text.parse::<u64>().ok(), "{text:?}");
    }
}

#[test]
fn blank_settings_are_missing() {
    assert!(blank(""));
    assert!(blank(" \t\n\u{3000}"));
    assert!(!blank(" x "));
    assert!(config("id", "secret").has_google_oauth_config());
    assert!(!config("  ", "secret").has_google_oauth_config());
    assert!(!config("id", "\n").has_google_oauth_config());
}

#[test]
fn the_oauth_configuration_names_what_is_missing() {
    let ok = config("id", "secret").google_oauth_config().ok().unwrap();
    assert_eq!(ok.client_id, "id");
    assert_eq!(ok.redirect_uri, "http://localhost:8080/oauth/callback");
    assert_eq!(ok.scope, "https://www.googleapis.com/auth/calendar.readonly");
    let both = config("", " ").google_oauth_config().err().unwrap();
    assert_eq!(both.status, 503);
    assert_eq!(
        both.message,
        "Google OAuth is unavailable because the server is missing GOOGLE_CLIENT_ID, GOOGLE_CLIENT_SECRET. Configure the variable(s) and restart the service."
    );
    let secret = config("id", "").google_oauth_config().err().unwrap();
    assert_eq!(
        secret.message,
        "Google OAuth is unavailable because the server is missing GOOGLE_CLIENT_SECRET. Configure the variable(s) and restart the service."
    );
    let id = config("", "secret").google_oauth_config().err().unwrap();
    assert_eq!(
        id.message,
        "Google OAuth is unavailable because the server is missing GOOGLE_CLIENT_ID. Configure the variable(s) and restart the service."
    );
}

#[test]
fn token_forms_carry_the_client_credentials() {
    let c = config("id", "secret");
    let form = c.authorization_code_form("the-code", "back").ok().unwrap();
    assert_eq!(
        pairs(&form),
        vec![
            ("code", "the-code"),
            ("client_id", "id"),
            ("client_secret", "secret"),
            ("redirect_uri", "back"),
            ("grant_type", "authorization_code")
        ]
    );
    let refresh = c.refresh_token_form("r").ok().unwrap();
    assert_eq!(
        pairs(&refresh),
        vec![("client_id", "id"), ("client_secret", "secret"), ("refresh_token", "r"), ("grant_type", "refresh_token")]
    );
    let missing = config("", "").authorization_code_form("c", "r").err().unwrap();
    assert_eq!((missing.status, missing.message.as_str()), (400, "Google OAuth is not configured on the server."));
    let missing = config("", "").refresh_token_form("r").err().unwrap();
    assert_eq!((missing.status, missing.message.as_str()), (400, "Google OAuth is not configured on the server."));
}

#[test]
fn redirects_default_to_the_configured_address() {
    let c = config("id", "secret");
    let own = OAuthTokenRequest { code: "c".into(), redirect_uri: Some("mine".into()) };
    assert_eq!(token_request_redirect_uri(&own, &c), "mine");
    let none = OAuthTokenRequest { code: "c".into(), redirect_uri: None };
    assert_eq!(token_request_redirect_uri(&none, &c), "http://localhost:8080/oauth/callback");
}

#[test]
fn callbacks_yield_the_code_or_an_error() {
    let denied = callback_code(GoogleOAuthCallbackQuery { code: Some("c".into()), error: Some("access_denied".into()) });
    let e = denied.err().unwrap();
    assert_eq!((e.status, e.message.as_str()), (400, "Google OAuth denied: access_denied"));
    let missing = callback_code(GoogleOAuthCallbackQuery { code: None, error: None }).err().unwrap();
    assert_eq!((missing.status, missing.message.as_str()), (400, "Missing Google OAuth code."));
    assert_eq!(callback_code(GoogleOAuthCallbackQuery { code: Some("c".into()), error: None }).ok(), Some("c".to_string()));
}

fn answer(expires_in: Option<u64>) -> OAuthExchangeResponse {
    OAuthExchangeResponse {
        access_token: "a".into(),
        refresh_token: Some("new".into()),
        expires_in,
        token_type: "Bearer".into(),
    }
}

#[test]
fn tokens_expire_after_their_lifetime() {
    let t = token_from_exchange(answer(Some(100)), 1000);
    assert_eq!((t.access_token.as_str(), t.token_type.as_str()), ("a", "Bearer"));
    assert_eq!(t.refresh_token.as_deref(), Some("new"));
    assert_eq!(t.expires_at_unix, 1100);
    assert!(!t.is_expired_at(1099));
    assert!(t.is_expired_at(1100));
    assert_eq!(token_from_exchange(answer(None), 1000).expires_at_unix, 4600);
    assert_eq!(token_from_exchange(answer(Some(10)), u64::MAX - 5).expires_at_unix, u64::MAX);
    let r = token_from_refresh(answer(Some(5)), "kept".into(), 10);
    assert_eq!(r.refresh_token.as_deref(), Some("kept"));
    assert_eq!(r.expires_at_unix, 15);
    let old = OAuthToken { access_token: "a".into(), refresh_token: None, token_type: "B".into(), expires_at_unix: 0 };
    assert!(old.is_expired());
    let far = OAuthToken { access_token: "a".into(), refresh_token: None, token_type: "B".into(), expires_at_unix: u64::MAX };
    assert!(!far.is_expired());
}

#[test]
fn leaked_strings_keep_their_text() {
    assert_eq!(string_to_static_str(String::from("<html></html>")), "<html></html>");
}
