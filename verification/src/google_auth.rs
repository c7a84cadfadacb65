//! Google OAuth credentials and the access-token cache.
//!
//! The token cache is a small state machine: a request for a token is either
//! answered from the cache, or turned into a refresh request whose outcome
//! the caller reports back. Times are milliseconds on one clock of the
//! caller's choosing.

use vstd::prelude::*;

verus! {

/// Credentials for the Google APIs; any field may be unset.
#[derive(Debug, Clone)]
pub struct GoogleAuthConfig {
    pub client_id: Option<String>,
    pub client_secret: Option<String>,
    pub refresh_token: Option<String>,
    pub service_account_json: Option<String>,
    pub access_token: Option<String>,
}

impl Default for GoogleAuthConfig {
    fn default() -> (r: Self)
        ensures
            r.client_id is None,
            r.client_secret is None,
            r.refresh_token is None,
            r.service_account_json is None,
            r.access_token is None,
    {
        GoogleAuthConfig {
            client_id: None,
            client_secret: None,
            refresh_token: None,
            service_account_json: None,
            access_token: None,
        }
    }
}

/// A configuration can authenticate: a ready token, a service account, or
/// the full OAuth triple.
pub open spec fn config_valid(c: GoogleAuthConfig) -> bool {
    c.access_token is Some || c.service_account_json is Some || (c.client_id is Some
        && c.client_secret is Some && c.refresh_token is Some)
}

/// What `str::to_uppercase` makes of a text (full Unicode upper-casing).
pub uninterp spec fn unicode_upper(s: Seq<char>) -> Seq<char>;

/// `str::to_uppercase`.
#[verifier::external_body]
pub(crate) fn upper(s: &str) -> (r: String)
    ensures
        r@ == unicode_upper(s@),
{
    s.to_uppercase()
}

impl GoogleAuthConfig {
    /// Whether the configuration has credentials it can authenticate with.
    pub fn is_valid(&self) -> (r: bool)
        ensures
            r == config_valid(*self),
    {
        self.access_token.is_some() || self.service_account_json.is_some() || (
        self.client_id.is_some() && self.client_secret.is_some() && self.refresh_token.is_some())
    }

    /// Name of the setting that holds an employee's own refresh token.
    pub fn employee_refresh_token_key(employee_id: &str) -> (r: String)
        ensures
            r@ == "GOOGLE_REFRESH_TOKEN_"@ + unicode_upper(employee_id@),
    {
        let u = upper(employee_id);
        crate::text::concat2("GOOGLE_REFRESH_TOKEN_", u.as_str())
    }

    /// A configuration from its settings, the employee's own refresh token
    /// taking precedence over the shared one.
    pub fn for_employee(
        client_id: Option<String>,
        client_secret: Option<String>,
        employee_refresh_token: Option<String>,
        shared_refresh_token: Option<String>,
        service_account_json: Option<String>,
        access_token: Option<String>,
    ) -> (r: GoogleAuthConfig)
        ensures
            r.client_id == client_id,
            r.client_secret == client_secret,
            r.refresh_token == (if employee_refresh_token is Some {
                employee_refresh_token
            } else {
                shared_refresh_token
            }),
            r.service_account_json == service_account_json,
            r.access_token == access_token,
    {
        let refresh_token = match employee_refresh_token {
            Some(t) => Some(t),
            None => shared_refresh_token,
        };
        GoogleAuthConfig { client_id, client_secret, refresh_token, service_account_json, access_token }
    }
}

/// Failures of authentication.
#[derive(Debug, Clone)]
pub enum GoogleAuthError {
    MissingCredentials(String),
    TokenRefreshFailed(String),
    ServiceAccountAuthFailed(String),
    HttpError(String),
    JsonError(String),
}

pub open spec fn auth_error_text(e: GoogleAuthError) -> Seq<char> {
    match e {
        GoogleAuthError::MissingCredentials(m) => "missing credentials: "@ + m@,
        GoogleAuthError::TokenRefreshFailed(m) => "token refresh failed: "@ + m@,
        GoogleAuthError::ServiceAccountAuthFailed(m) => "service account auth failed: "@ + m@,
        GoogleAuthError::HttpError(m) => "http error: "@ + m@,
        GoogleAuthError::JsonError(m) => "json error: "@ + m@,
    }
}

impl GoogleAuthError {
    /// The error's message.
    pub fn message(&self) -> (r: String)
        ensures
            r@ == auth_error_text(*self),
    {
        match self {
            GoogleAuthError::MissingCredentials(m) => crate::text::concat2("missing credentials: ", m.as_str()),
            GoogleAuthError::TokenRefreshFailed(m) => crate::text::concat2("token refresh failed: ", m.as_str()),
            GoogleAuthError::ServiceAccountAuthFailed(m) => crate::text::concat2(
                "service account auth failed: ",
                m.as_str(),
            ),
            GoogleAuthError::HttpError(m) => crate::text::concat2("http error: ", m.as_str()),
            GoogleAuthError::JsonError(m) => crate::text::concat2("json error: ", m.as_str()),
        }
    }
}

/// Message of a configuration without usable credentials.
pub const MISSING_CREDENTIALS_MESSAGE: &'static str = "Either GOOGLE_ACCESS_TOKEN, GOOGLE_SERVICE_ACCOUNT_JSON, or (GOOGLE_CLIENT_ID + GOOGLE_CLIENT_SECRET + GOOGLE_REFRESH_TOKEN) must be set";

/// How long a ready-made token is trusted, in milliseconds.
pub const PRESET_TOKEN_LIFETIME_MS: u64 = 3_600_000;

/// A cached token is used only while it has this much life left, in milliseconds.
pub const EXPIRY_MARGIN_MS: u64 = 60_000;

/// Credentials and the current token with its expiry time.
#[derive(Debug, Clone)]
pub struct GoogleAuth {
    pub client_id: Option<String>,
    pub client_secret: Option<String>,
    pub refresh_token: Option<String>,
    pub service_account_json: Option<String>,
    pub access_token: Option<String>,
    pub token_expires_at: Option<u64>,
}

/// The next step towards an access token.
#[derive(Debug, Clone)]
pub enum TokenStep {
    /// A token that can be used now.
    Ready(String),
    /// Ask the OAuth endpoint for a token with these credentials, then report
    /// the outcome with `complete_refresh`.
    Fetch { client_id: String, client_secret: String, refresh_token: String },
    /// No token can be had.
    Failed(GoogleAuthError),
}

/// What the OAuth token endpoint answered.
#[derive(Debug, Clone)]
pub enum RefreshOutcome {
    /// The request did not complete.
    Transport(String),
    /// A status other than success, with the response body.
    Rejected { status: String, body: String },
    /// A success response that did not parse.
    Malformed(String),
    /// A fresh token, valid for `expires_in` seconds.
    Token { access_token: String, expires_in: i64 },
}

/// The OAuth triple is complete.
pub open spec fn has_oauth(a: GoogleAuth) -> bool {
    a.client_id is Some && a.client_secret is Some && a.refresh_token is Some
}

/// The step a refresh takes: a service account is tried first (and is not
/// supported), then the OAuth triple.
pub open spec fn refresh_step(a: GoogleAuth, s: TokenStep) -> bool {
    if a.service_account_json is Some {
        s matches TokenStep::Failed(GoogleAuthError::ServiceAccountAuthFailed(m))
            && m@ == "Service account authentication not yet implemented"@
    } else if has_oauth(a) {
        s matches TokenStep::Fetch { client_id, client_secret, refresh_token }
            && client_id@ == a.client_id.unwrap()@ && client_secret@ == a.client_secret.unwrap()@
            && refresh_token@ == a.refresh_token.unwrap()@
    } else {
        s matches TokenStep::Failed(GoogleAuthError::MissingCredentials(m))
            && m@ == "No valid credentials available"@
    }
}

/// The cached token is still good at `now`.
pub open spec fn cache_fresh(a: GoogleAuth, now_ms: u64) -> bool {
    a.access_token is Some && a.token_expires_at is Some && a.token_expires_at.unwrap() > now_ms
        + EXPIRY_MARGIN_MS
}

/// A token stored by a refresh is served from the cache, without a new
/// refresh, until a minute before it expires.
pub proof fn lemma_refreshed_token_is_served(auth: GoogleAuth, access_token: String, expires_in: i64, now_ms: u64, later_ms: u64)
    requires
        0 <= expires_in,
        now_ms + expires_in * 1000 <= u64::MAX,
        auth.access_token == Some(access_token),
        auth.token_expires_at == Some((now_ms + expires_in * 1000) as u64),
        later_ms + EXPIRY_MARGIN_MS < now_ms + expires_in * 1000,
    ensures
        cache_fresh(auth, later_ms),
{
}

/// A service account or the OAuth triple is present.
pub open spec fn refreshable(a: GoogleAuth) -> bool {
    a.service_account_json is Some || has_oauth(a)
}

/// A ready-made token given to the constructor at `now_ms` is served from
/// the cache, without a refresh, while fewer than 3540 seconds have passed.
pub proof fn lemma_preset_token_is_served(config: GoogleAuthConfig, auth: GoogleAuth, now_ms: u64, later_ms: u64)
    requires
        config.access_token is Some,
        now_ms + PRESET_TOKEN_LIFETIME_MS <= u64::MAX,
        auth.access_token == config.access_token,
        auth.token_expires_at == Some((now_ms + PRESET_TOKEN_LIFETIME_MS) as u64),
        later_ms < now_ms + 3_540_000,
    ensures
        cache_fresh(auth, later_ms),
{
}

/// Whether authentication can refresh does not change when a refresh is
/// recorded: only the token and its expiry change.
pub proof fn lemma_refresh_keeps_enabled(before: GoogleAuth, after: GoogleAuth)
    requires
        after.client_id == before.client_id,
        after.client_secret == before.client_secret,
        after.refresh_token == before.refresh_token,
        after.service_account_json == before.service_account_json,
    ensures
        refreshable(after) == refreshable(before),
{
}

impl GoogleAuth {
    /// Authentication state for a valid configuration; a ready-made token is
    /// trusted for an hour from `now_ms`.
    pub fn new(config: GoogleAuthConfig, now_ms: u64) -> (r: Result<GoogleAuth, GoogleAuthError>)
        requires
            config.access_token is Some ==> now_ms + PRESET_TOKEN_LIFETIME_MS <= u64::MAX,
        ensures
            !config_valid(config) ==> (r matches Err(GoogleAuthError::MissingCredentials(m))
                && m@ == MISSING_CREDENTIALS_MESSAGE@),
            config_valid(config) ==> (r matches Ok(a) && a.client_id == config.client_id
                && a.client_secret == config.client_secret && a.refresh_token == config.refresh_token
                && a.service_account_json == config.service_account_json && a.access_token
                == config.access_token && a.token_expires_at == (if config.access_token is Some {
                Some((now_ms + PRESET_TOKEN_LIFETIME_MS) as u64)
            } else {
                None
            })),
    {
        if !config.is_valid() {
            return Err(GoogleAuthError::MissingCredentials(crate::text::owned(MISSING_CREDENTIALS_MESSAGE)));
        }
        let expires = if config.access_token.is_some() {
            Some(now_ms + PRESET_TOKEN_LIFETIME_MS)
        } else {
            None
        };
        Ok(GoogleAuth {
            client_id: config.client_id,
            client_secret: config.client_secret,
            refresh_token: config.refresh_token,
            service_account_json: config.service_account_json,
            access_token: config.access_token,
            token_expires_at: expires,
        })
    }

    /// The cached token when it has more than a minute left, else the
    /// refresh step.
    pub fn get_access_token(&self, now_ms: u64) -> (r: TokenStep)
        ensures
            cache_fresh(*self, now_ms) ==> (r matches TokenStep::Ready(t) && t@
                == self.access_token.unwrap()@),
            !cache_fresh(*self, now_ms) ==> refresh_step(*self, r),
    {
        if let (Some(token), Some(expires_at)) = (&self.access_token, &self.token_expires_at) {
            if (*expires_at as u128) > (now_ms as u128) + (EXPIRY_MARGIN_MS as u128) {
                return TokenStep::Ready(token.clone());
            }
        }
        self.refresh_access_token()
    }

    /// The step a forced refresh takes.
    pub fn refresh_access_token(&self) -> (r: TokenStep)
        ensures
            refresh_step(*self, r),
    {
        if self.service_account_json.is_some() {
            return TokenStep::Failed(
                GoogleAuthError::ServiceAccountAuthFailed(
                    crate::text::owned("Service account authentication not yet implemented"),
                ),
            );
        }
        match (&self.client_id, &self.client_secret, &self.refresh_token) {
            (Some(id), Some(secret), Some(refresh)) => TokenStep::Fetch {
                client_id: id.clone(),
                client_secret: secret.clone(),
                refresh_token: refresh.clone(),
            },
            _ => TokenStep::Failed(
                GoogleAuthError::MissingCredentials(crate::text::owned("No valid credentials available")),
            ),
        }
    }

    /// Records the answer of the token endpoint: a fresh token is cached and
    /// returned; any other answer is reported as an error, the cache unchanged.
    pub fn complete_refresh(&mut self, outcome: RefreshOutcome, now_ms: u64) -> (r: Result<String, GoogleAuthError>)
        requires
            outcome matches RefreshOutcome::Token { expires_in, .. } ==> 0 <= expires_in && now_ms
                + expires_in * 1000 <= u64::MAX,
        ensures
            match outcome {
                RefreshOutcome::Transport(m) => r matches Err(GoogleAuthError::HttpError(e)) && e@ == m@
                    && *final(self) == *old(self),
                RefreshOutcome::Rejected { status, body } => r matches Err(
                    GoogleAuthError::TokenRefreshFailed(e),
                ) && e@ == "HTTP "@ + status@ + ": "@ + body@ && *final(self) == *old(self),
                RefreshOutcome::Malformed(m) => r matches Err(GoogleAuthError::JsonError(e)) && e@ == m@
                    && *final(self) == *old(self),
                RefreshOutcome::Token { access_token, expires_in } => r matches Ok(t) && t@ == access_token@
                    && final(self).access_token == Some(access_token)
                    && final(self).token_expires_at == Some((now_ms + expires_in * 1000) as u64)
                    && final(self).client_id == old(self).client_id
                    && final(self).client_secret == old(self).client_secret
                    && final(self).refresh_token == old(self).refresh_token
                    && final(self).service_account_json == old(self).service_account_json,
            },
    {
        match outcome {
            RefreshOutcome::Transport(m) => Err(GoogleAuthError::HttpError(m)),
            RefreshOutcome::Rejected { status, body } => {
                let mut e = crate::text::concat2("HTTP ", status.as_str());
                e.append(": ");
                e.append(body.as_str());
                Err(GoogleAuthError::TokenRefreshFailed(e))
            },
            RefreshOutcome::Malformed(m) => Err(GoogleAuthError::JsonError(m)),
            RefreshOutcome::Token { access_token, expires_in } => {
                let lifetime: u64 = (expires_in as u64) * 1000;
                let result = access_token.clone();
                self.access_token = Some(access_token);
                self.token_expires_at = Some(now_ms + lifetime);
                Ok(result)
            },
        }
    }

    /// Whether credentials that can be refreshed are present.
    pub fn is_enabled(&self) -> (r: bool)
        ensures
            r == refreshable(*self),
    {
        self.service_account_json.is_some() || (self.client_id.is_some() && self.client_secret.is_some()
            && self.refresh_token.is_some())
    }
}

/// Scopes needed for Google Docs collaboration.
pub fn google_docs_scopes() -> (r: Vec<String>)
    ensures
        crate::text::strs(r@) == seq![
            "https://www.googleapis.com/auth/documents"@,
            "https://www.googleapis.com/auth/drive"@,
            "https://www.googleapis.com/auth/drive.file"@,
        ],
{
    let r = vec![
        crate::text::owned("https://www.googleapis.com/auth/documents"),
        crate::text::owned("https://www.googleapis.com/auth/drive"),
        crate::text::owned("https://www.googleapis.com/auth/drive.file"),
    ];
    proof {
        assert(crate::text::strs(r@) =~= seq![
            "https://www.googleapis.com/auth/documents"@,
            "https://www.googleapis.com/auth/drive"@,
            "https://www.googleapis.com/auth/drive.file"@,
        ]);
    }
    r
}

} // verus!
