//! Google OAuth: whether the service is configured for it, the forms it
//! posts to Google's token endpoint, and the tokens it keeps.

use vstd::prelude::*;
use crate::clock::now_unix_seconds;
use crate::config::AppConfig;
use crate::http_error::{HttpError, BAD_REQUEST, SERVICE_UNAVAILABLE};
use crate::text::{blank, is_blank};

verus! {

/// An access token kept for the Google Calendar API.
#[derive(Clone, Debug)]
pub struct OAuthToken {
    pub access_token: String,
    pub refresh_token: Option<String>,
    pub token_type: String,
    pub expires_at_unix: u64,
}

/// A request to exchange an authorization code for a token.
#[derive(Clone, Debug)]
pub struct OAuthTokenRequest {
    pub code: String,
    pub redirect_uri: Option<String>,
}

/// What the browser is told to use for Google's consent screen.
#[derive(Clone, Debug)]
pub struct GoogleOAuthConfigResponse {
    pub client_id: String,
    pub redirect_uri: String,
    pub scope: String,
}

/// The query of Google's redirect back to the service.
#[derive(Clone, Debug)]
pub struct GoogleOAuthCallbackQuery {
    pub code: Option<String>,
    pub error: Option<String>,
}

/// A request to refresh an access token.
#[derive(Clone, Debug)]
pub struct OAuthRefreshRequest {
    pub refresh_token: String,
}

/// Google's answer from its token endpoint.
#[derive(Clone, Debug)]
pub struct OAuthExchangeResponse {
    pub access_token: String,
    pub refresh_token: Option<String>,
    pub expires_in: Option<u64>,
    pub token_type: String,
}

/// The fields of a form, as pairs of name and value.
pub open spec fn form_view(form: Seq<(String, String)>) -> Seq<(Seq<char>, Seq<char>)> {
    form.map_values(|p: (String, String)| (p.0@, p.1@))
}

/// Both the Google client id and secret hold more than white space.
pub open spec fn has_oauth_settings(config: AppConfig) -> bool {
    !is_blank(config.google_client_id@) && !is_blank(config.google_client_secret@)
}

/// The names of the variables whose Google setting is missing, joined by
/// `", "`.
pub open spec fn missing_variables_text(config: AppConfig) -> Seq<char> {
    if is_blank(config.google_client_id@) && is_blank(config.google_client_secret@) {
        "GOOGLE_CLIENT_ID"@ + ", "@ + "GOOGLE_CLIENT_SECRET"@
    } else if is_blank(config.google_client_id@) {
        "GOOGLE_CLIENT_ID"@
    } else {
        "GOOGLE_CLIENT_SECRET"@
    }
}

/// The time at which a token that lives `expires_in` seconds from `now`
/// expires (an hour when Google does not say), at most `u64::MAX`.
pub open spec fn expiry_time(now: u64, expires_in: Option<u64>) -> u64 {
    let lifetime: u64 = match expires_in {
        Some(s) => s,
        None => 3600,
    };
    if now + lifetime > u64::MAX {
        u64::MAX
    } else {
        (now + lifetime) as u64
    }
}

fn text_pair(name: &str, value: &str) -> (pair: (String, String))
    ensures
        pair.0@ == name@,
        pair.1@ == value@,
{
    (String::from_str(name), String::from_str(value))
}

impl AppConfig {
    /// Whether both the Google client id and secret are set to more than
    /// white space.
    pub fn has_google_oauth_config(&self) -> (configured: bool)
        ensures
            configured == has_oauth_settings(*self),
    {
        !blank(self.google_client_id.as_str()) && !blank(self.google_client_secret.as_str())
    }

    /// What the browser needs for Google's consent screen, or, when the
    /// client id or secret is missing, a 503 naming the missing variables.
    pub fn google_oauth_config(&self) -> (answer: Result<GoogleOAuthConfigResponse, HttpError>)
        ensures
            answer is Ok <==> has_oauth_settings(*self),
            answer matches Ok(r) ==> {
                &&& r.client_id@ == self.google_client_id@
                &&& r.redirect_uri@ == self.google_redirect_uri@
                &&& r.scope@ == "https://www.googleapis.com/auth/calendar.readonly"@
            },
            answer matches Err(e) ==> {
                &&& e.status == SERVICE_UNAVAILABLE
                &&& e.message@ == "Google OAuth is unavailable because the server is missing "@
                    + missing_variables_text(*self)
                    + ". Configure the variable(s) and restart the service."@
            },
    {
        if !self.has_google_oauth_config() {
            let id_missing = blank(self.google_client_id.as_str());
            let secret_missing = blank(self.google_client_secret.as_str());
            let mut missing = String::new();
            if id_missing {
                missing.append("GOOGLE_CLIENT_ID");
            }
            if secret_missing {
                if id_missing {
                    missing.append(", ");
                }
                missing.append("GOOGLE_CLIENT_SECRET");
            }
            let mut message = String::from_str(
                "Google OAuth is unavailable because the server is missing ",
            );
            message.append(missing.as_str());
            message.append(". Configure the variable(s) and restart the service.");
            proof {
                if id_missing && secret_missing {
                    assert(missing@ =~= "GOOGLE_CLIENT_ID"@ + ", "@ + "GOOGLE_CLIENT_SECRET"@);
                } else if id_missing {
                    assert(missing@ =~= "GOOGLE_CLIENT_ID"@);
                } else {
                    assert(missing@ =~= "GOOGLE_CLIENT_SECRET"@);
                }
            }
            return Err(HttpError { status: SERVICE_UNAVAILABLE, message });
        }
        Ok(
            GoogleOAuthConfigResponse {
                client_id: self.google_client_id.clone(),
                redirect_uri: self.google_redirect_uri.clone(),
                scope: String::from_str("https://www.googleapis.com/auth/calendar.readonly"),
            },
        )
    }

    /// The form that exchanges an authorization code for a token, or a 400
    /// when the client id or secret is missing.
    pub fn authorization_code_form(&self, code: &str, redirect_uri: &str) -> (form: Result<
        Vec<(String, String)>,
        HttpError,
    >)
        ensures
            form is Ok <==> has_oauth_settings(*self),
            form matches Ok(f) ==> form_view(f@) == seq![
                ("code"@, code@),
                ("client_id"@, self.google_client_id@),
                ("client_secret"@, self.google_client_secret@),
                ("redirect_uri"@, redirect_uri@),
                ("grant_type"@, "authorization_code"@),
            ],
            form matches Err(e) ==> e.status == BAD_REQUEST && e.message@
                == "Google OAuth is not configured on the server."@,
    {
        if !self.has_google_oauth_config() {
            return Err(HttpError::new(BAD_REQUEST, "Google OAuth is not configured on the server."));
        }
        let mut form: Vec<(String, String)> = Vec::new();
        form.push(text_pair("code", code));
        form.push(text_pair("client_id", self.google_client_id.as_str()));
        form.push(text_pair("client_secret", self.google_client_secret.as_str()));
        form.push(text_pair("redirect_uri", redirect_uri));
        form.push(text_pair("grant_type", "authorization_code"));
        assert(form_view(form@) =~= seq![
            ("code"@, code@),
            ("client_id"@, self.google_client_id@),
            ("client_secret"@, self.google_client_secret@),
            ("redirect_uri"@, redirect_uri@),
            ("grant_type"@, "authorization_code"@),
        ]);
        Ok(form)
    }

    /// The form that refreshes an access token, or a 400 when the client id
    /// or secret is missing.
    pub fn refresh_token_form(&self, refresh_token: &str) -> (form: Result<
        Vec<(String, String)>,
        HttpError,
    >)
        ensures
            form is Ok <==> has_oauth_settings(*self),
            form matches Ok(f) ==> form_view(f@) == seq![
                ("client_id"@, self.google_client_id@),
                ("client_secret"@, self.google_client_secret@),
                ("refresh_token"@, refresh_token@),
                ("grant_type"@, "refresh_token"@),
            ],
            form matches Err(e) ==> e.status == BAD_REQUEST && e.message@
                == "Google OAuth is not configured on the server."@,
    {
        if !self.has_google_oauth_config() {
            return Err(HttpError::new(BAD_REQUEST, "Google OAuth is not configured on the server."));
        }
        let mut form: Vec<(String, String)> = Vec::new();
        form.push(text_pair("client_id", self.google_client_id.as_str()));
        form.push(text_pair("client_secret", self.google_client_secret.as_str()));
        form.push(text_pair("refresh_token", refresh_token));
        form.push(text_pair("grant_type", "refresh_token"));
        assert(form_view(form@) =~= seq![
            ("client_id"@, self.google_client_id@),
            ("client_secret"@, self.google_client_secret@),
            ("refresh_token"@, refresh_token@),
            ("grant_type"@, "refresh_token"@),
        ]);
        Ok(form)
    }
}

/// The redirect address for a code exchange: the request's own, or the
/// configured one.
pub fn token_request_redirect_uri(request: &OAuthTokenRequest, config: &AppConfig) -> (uri: String)
    ensures
        uri@ == match request.redirect_uri {
            Some(r) => r@,
            None => config.google_redirect_uri@,
        },
{
    match &request.redirect_uri {
        Some(r) => r.clone(),
        None => config.google_redirect_uri.clone(),
    }
}

/// The authorization code from Google's redirect: a 400 saying that Google
/// denied access when the redirect carries an error, a 400 when it carries
/// no code.
pub fn callback_code(query: GoogleOAuthCallbackQuery) -> (code: Result<String, HttpError>)
    ensures
        match query.error {
            Some(err) => code matches Err(e) && e.status == BAD_REQUEST && e.message@
                == "Google OAuth denied: "@ + err@,
            None => match query.code {
                Some(c) => code matches Ok(x) && x@ == c@,
                None => code matches Err(e) && e.status == BAD_REQUEST && e.message@
                    == "Missing Google OAuth code."@,
            },
        },
{
    if let Some(err) = query.error {
        let mut message = String::from_str("Google OAuth denied: ");
        message.append(err.as_str());
        return Err(HttpError { status: BAD_REQUEST, message });
    }
    match query.code {
        Some(c) => Ok(c),
        None => Err(HttpError::new(BAD_REQUEST, "Missing Google OAuth code.")),
    }
}

/// The token made from Google's answer to a code exchange at time `now`.
pub fn token_from_exchange(response: OAuthExchangeResponse, now: u64) -> (token: OAuthToken)
    ensures
        token.access_token@ == response.access_token@,
        token.refresh_token.deep_view() == response.refresh_token.deep_view(),
        token.token_type@ == response.token_type@,
        token.expires_at_unix == expiry_time(now, response.expires_in),
{
    let expires_in = match response.expires_in {
        Some(s) => s,
        None => 3600,
    };
    OAuthToken {
        access_token: response.access_token,
        refresh_token: response.refresh_token,
        token_type: response.token_type,
        expires_at_unix: now.saturating_add(expires_in),
    }
}

/// The token made from Google's answer to a refresh at time `now`: it keeps
/// the refresh token that was used.
pub fn token_from_refresh(response: OAuthExchangeResponse, refresh_token: String, now: u64) -> (token:
    OAuthToken)
    ensures
        token.access_token@ == response.access_token@,
        token.refresh_token.deep_view() == Some(refresh_token@),
        token.token_type@ == response.token_type@,
        token.expires_at_unix == expiry_time(now, response.expires_in),
{
    let expires_in = match response.expires_in {
        Some(s) => s,
        None => 3600,
    };
    OAuthToken {
        access_token: response.access_token,
        refresh_token: Some(refresh_token),
        token_type: response.token_type,
        expires_at_unix: now.saturating_add(expires_in),
    }
}

impl OAuthToken {
    /// The token has expired at time `now`.
    pub open spec fn expired_at(self, now: u64) -> bool {
        now >= self.expires_at_unix
    }

    /// Whether the token has expired at time `now`.
    pub fn is_expired_at(&self, now: u64) -> (expired: bool)
        ensures
            expired == self.expired_at(now),
    {
        now >= self.expires_at_unix
    }

    /// Whether the token has expired now: at the time the clock reads.  What
    /// the clock reads is not known here; whatever it reads, a token that
    /// expires at time 0 has expired.
    pub fn is_expired(&self) -> (expired: bool)
        ensures
            exists|now: u64| expired == #[trigger] self.expired_at(now),
            self.expires_at_unix == 0 ==> expired,
    {
        self.is_expired_at(now_unix_seconds())
    }
}

/// A token is expired exactly from its lifetime after it was made on (an
/// hour when Google gives no lifetime); so a token with a positive lifetime
/// is not expired when it is made, unless the clock reads its largest value.
pub proof fn tokens_expire_after_their_lifetime(now: u64, expires_in: Option<u64>, later: u64)
    ensures
        ({
            let lifetime: int = match expires_in {
                Some(s) => s as int,
                None => 3600,
            };
            &&& now + lifetime <= u64::MAX ==> (later >= expiry_time(now, expires_in) <==> later
                >= now + lifetime)
            &&& now < u64::MAX && lifetime > 0 ==> now < expiry_time(now, expires_in)
        }),
{
}

} // verus!
