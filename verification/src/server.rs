//! The decisions of the command line and of the HTTP service: what to run,
//! the counters it keeps and reports, and how the OAuth sign-in is answered.
use vstd::prelude::*;
use crate::qdrant::{decimal, decimal_text};
use crate::text::str_eq;

verus! {

// ---------------------------------------------------------------------------
// Command line
// ---------------------------------------------------------------------------

/// What the program does when started.
#[derive(PartialEq, Eq)]
pub enum CliMode {
    /// Run the sorting and cleanup once, then exit.
    SyncOnce,
    /// Serve the HTTP API.
    Serve,
    /// Print how to use the program.
    Usage,
}

/// The mode chosen by the flags: `--sync` or `--clean` run once (before
/// anything else), `--server` serves, and with none of them the usage is printed.
pub fn cli_mode(server: bool, sync: bool, clean: bool) -> (m: CliMode)
    ensures
        m == (if sync || clean {
            CliMode::SyncOnce
        } else if server {
            CliMode::Serve
        } else {
            CliMode::Usage
        }),
{
    if sync || clean {
        CliMode::SyncOnce
    } else if server {
        CliMode::Serve
    } else {
        CliMode::Usage
    }
}

/// Debug logging is on when asked by flag, or when `DEBUG` is `true` or `1`.
pub fn debug_enabled(flag: bool, env_debug: &Option<String>) -> (r: bool)
    ensures
        r == (flag || (env_debug matches Some(v) && (v@ == "true"@ || v@ == "1"@))),
{
    if flag {
        return true;
    }
    match env_debug {
        Some(v) => str_eq(v.as_str(), "true") || str_eq(v.as_str(), "1"),
        None => false,
    }
}

/// The address the server listens on: the given host, port 8080.
pub fn listen_address(host: &Option<String>) -> (r: String)
    ensures
        r@ == (match *host {
            Some(h) => h@,
            None => "127.0.0.1"@,
        }) + ":8080"@,
{
    let mut a = match host {
        Some(h) => h.clone(),
        None => String::from_str("127.0.0.1"),
    };
    a.append(":8080");
    a
}

// ---------------------------------------------------------------------------
// Counters
// ---------------------------------------------------------------------------

/// The request counters that the service reports.
pub struct ServerMetrics {
    pub sync_requests_total: u64,
    pub sync_errors_total: u64,
    pub rag_index_requests_total: u64,
    pub rag_index_errors_total: u64,
}

impl ServerMetrics {
    /// All counters at zero.
    pub fn new() -> (m: ServerMetrics)
        ensures
            m.sync_requests_total == 0,
            m.sync_errors_total == 0,
            m.rag_index_requests_total == 0,
            m.rag_index_errors_total == 0,
    {
        ServerMetrics { sync_requests_total: 0, sync_errors_total: 0, rag_index_requests_total: 0, rag_index_errors_total: 0 }
    }

    /// Counts a sync request, and a sync error when it failed (counters wrap
    /// around, as atomic additions do).
    pub fn record_sync(&mut self, failed: bool)
        ensures
            final(self).sync_requests_total == old(self).sync_requests_total.wrapping_add(1),
            final(self).sync_errors_total == (if failed {
                old(self).sync_errors_total.wrapping_add(1)
            } else {
                old(self).sync_errors_total
            }),
            final(self).rag_index_requests_total == old(self).rag_index_requests_total,
            final(self).rag_index_errors_total == old(self).rag_index_errors_total,
    {
        self.sync_requests_total = self.sync_requests_total.wrapping_add(1);
        if failed {
            self.sync_errors_total = self.sync_errors_total.wrapping_add(1);
        }
    }

    /// Counts an indexing request, and an indexing error when it failed.
    pub fn record_rag_index(&mut self, failed: bool)
        ensures
            final(self).rag_index_requests_total == old(self).rag_index_requests_total.wrapping_add(1),
            final(self).rag_index_errors_total == (if failed {
                old(self).rag_index_errors_total.wrapping_add(1)
            } else {
                old(self).rag_index_errors_total
            }),
            final(self).sync_requests_total == old(self).sync_requests_total,
            final(self).sync_errors_total == old(self).sync_errors_total,
    {
        self.rag_index_requests_total = self.rag_index_requests_total.wrapping_add(1);
        if failed {
            self.rag_index_errors_total = self.rag_index_errors_total.wrapping_add(1);
        }
    }
}

/// The counters in the Prometheus text format.
pub open spec fn metrics_text(s: u64, se: u64, r: u64, re: u64) -> Seq<char> {
    "# HELP graphon_sync_requests_total Total number of mail sync requests\n# TYPE graphon_sync_requests_total counter\ngraphon_sync_requests_total "@
        + decimal(s as nat)
        + "\n# HELP graphon_sync_errors_total Total number of failed mail sync requests\n# TYPE graphon_sync_errors_total counter\ngraphon_sync_errors_total "@
        + decimal(se as nat)
        + "\n# HELP graphon_rag_index_requests_total Total number of RAG indexing requests\n# TYPE graphon_rag_index_requests_total counter\ngraphon_rag_index_requests_total "@
        + decimal(r as nat)
        + "\n# HELP graphon_rag_index_errors_total Total number of failed RAG indexing requests\n# TYPE graphon_rag_index_errors_total counter\ngraphon_rag_index_errors_total "@
        + decimal(re as nat) + "\n"@
}

/// The counters in the Prometheus text format.
pub fn render_metrics(s: u64, se: u64, r: u64, re: u64) -> (t: String)
    ensures
        t@ == metrics_text(s, se, r, re),
{
    let mut t = String::from_str(
        "# HELP graphon_sync_requests_total Total number of mail sync requests\n# TYPE graphon_sync_requests_total counter\ngraphon_sync_requests_total ",
    );
    let a = decimal_text(s);
    t.append(a.as_str());
    t.append(
        "\n# HELP graphon_sync_errors_total Total number of failed mail sync requests\n# TYPE graphon_sync_errors_total counter\ngraphon_sync_errors_total ",
    );
    let b = decimal_text(se);
    t.append(b.as_str());
    t.append(
        "\n# HELP graphon_rag_index_requests_total Total number of RAG indexing requests\n# TYPE graphon_rag_index_requests_total counter\ngraphon_rag_index_requests_total ",
    );
    let c = decimal_text(r);
    t.append(c.as_str());
    t.append(
        "\n# HELP graphon_rag_index_errors_total Total number of failed RAG indexing requests\n# TYPE graphon_rag_index_errors_total counter\ngraphon_rag_index_errors_total ",
    );
    let d = decimal_text(re);
    t.append(d.as_str());
    t.append("\n");
    t
}

/// A JSON reply of the service: a status code, and the `status` and `message` fields.
pub struct StatusMessage {
    pub code: u16,
    pub status: String,
    pub message: String,
}

/// The reply to a sync request: 200, `success` and "Mail sync completed." when
/// the run succeeded; otherwise 500, `error` and a fixed message, the same for
/// every failure, so that no detail of the failure is shown.
pub fn sync_reply(succeeded: bool) -> (r: StatusMessage)
    ensures
        succeeded ==> r.code == 200 && r.status@ == "success"@ && r.message@ == "Mail sync completed."@,
        !succeeded ==> r.code == 500 && r.status@ == "error"@ && r.message@
            == "An internal system error occurred during sync."@,
{
    if succeeded {
        StatusMessage {
            code: 200,
            status: String::from_str("success"),
            message: String::from_str("Mail sync completed."),
        }
    } else {
        StatusMessage {
            code: 500,
            status: String::from_str("error"),
            message: String::from_str("An internal system error occurred during sync."),
        }
    }
}

/// The reply when an e-mail could not be indexed: 500, `error` and a fixed
/// message, the same for every failure.
pub fn rag_index_failure_reply() -> (r: StatusMessage)
    ensures
        r.code == 500,
        r.status@ == "error"@,
        r.message@ == "Failed to index email for RAG."@,
{
    StatusMessage {
        code: 500,
        status: String::from_str("error"),
        message: String::from_str("Failed to index email for RAG."),
    }
}

// ---------------------------------------------------------------------------
// Sign-in
// ---------------------------------------------------------------------------

/// A reply of the HTTP service.
pub enum Reply {
    /// A status code with a plain-text body.
    Status { code: u16, body: String },
    /// A temporary redirect.
    Redirect(String),
    /// The dashboard page.
    Dashboard,
}

/// The address Google sends the user back to after sign-in.
pub open spec fn oauth_redirect_uri() -> Seq<char> {
    "https://graphon.p.zacharie.org/sso/complete/google-oauth2/"@
}

/// The address Google sends the user back to after sign-in.
pub fn redirect_uri() -> (r: String)
    ensures
        r@ == oauth_redirect_uri(),
{
    String::from_str("https://graphon.p.zacharie.org/sso/complete/google-oauth2/")
}

/// A usable Gmail token: present, non-empty and not the placeholder.
pub open spec fn token_is_valid(token: Option<Seq<char>>) -> bool {
    token matches Some(t) && t.len() > 0 && t != "placeholder_gmail_token"@
}

/// Google's consent page for a client id.
pub open spec fn consent_url(client_id: Seq<char>) -> Seq<char> {
    "https://accounts.google.com/o/oauth2/auth?client_id="@ + client_id
        + "&redirect_uri=https://graphon.p.zacharie.org/sso/complete/google-oauth2/&response_type=code&scope=https://mail.google.com/&access_type=offline&prompt=consent"@
}

/// The reply to the dashboard: the page when the Gmail token is usable;
/// otherwise the Google consent page when a client id is configured, and a
/// server error saying it is not when it is not.
pub fn dashboard_reply(token: &Option<String>, client_id: &Option<String>) -> (r: Reply)
    ensures
        token_is_valid(match *token {
            Some(t) => Some(t@),
            None => None,
        }) ==> r is Dashboard,
        !token_is_valid(match *token {
            Some(t) => Some(t@),
            None => None,
        }) ==> match *client_id {
            Some(id) => r matches Reply::Redirect(u) && u@ == consent_url(id@),
            None => r matches Reply::Status { code, body } && code == 500
                && body@ == "Google Client ID not configured. Please check your Vault secret (ai/graphon) or environment."@,
        },
{
    let valid = match token {
        Some(t) => !t.as_str().is_empty() && !str_eq(t.as_str(), "placeholder_gmail_token"),
        None => false,
    };
    if valid {
        return Reply::Dashboard;
    }
    match client_id {
        Some(id) => {
            let mut u = String::from_str("https://accounts.google.com/o/oauth2/auth?client_id=");
            u.append(id.as_str());
            u.append(
                "&redirect_uri=https://graphon.p.zacharie.org/sso/complete/google-oauth2/&response_type=code&scope=https://mail.google.com/&access_type=offline&prompt=consent",
            );
            Reply::Redirect(u)
        },
        None => Reply::Status {
            code: 500,
            body: String::from_str(
                "Google Client ID not configured. Please check your Vault secret (ai/graphon) or environment.",
            ),
        },
    }
}

/// The form posted to Google to exchange a sign-in code for a token.
pub struct TokenForm {
    pub code: String,
    pub client_id: String,
    pub client_secret: String,
    pub redirect_uri: String,
    pub grant_type: String,
}

/// The token exchange for a sign-in code: the form to post, or, when the
/// client id or secret is not configured, the server error that says which.
pub fn token_exchange(code: &str, client_id: &Option<String>, client_secret: &Option<String>) -> (r: Result<TokenForm, Reply>)
    ensures
        match (*client_id, *client_secret) {
            (None, _) => r matches Err(Reply::Status { code, body }) && code == 500 && body@ == "Missing GOOGLE_CLIENT_ID"@,
            (Some(_), None) => r matches Err(Reply::Status { code, body }) && code == 500
                && body@ == "Missing GOOGLE_CLIENT_SECRET"@,
            (Some(id), Some(secret)) => r matches Ok(f) && {
                &&& f.code@ == code@
                &&& f.client_id@ == id@
                &&& f.client_secret@ == secret@
                &&& f.redirect_uri@ == oauth_redirect_uri()
                &&& f.grant_type@ == "authorization_code"@
            },
        },
{
    let id = match client_id {
        Some(id) => id,
        None => {
            return Err(Reply::Status { code: 500, body: String::from_str("Missing GOOGLE_CLIENT_ID") });
        },
    };
    let secret = match client_secret {
        Some(s) => s,
        None => {
            return Err(Reply::Status { code: 500, body: String::from_str("Missing GOOGLE_CLIENT_SECRET") });
        },
    };
    Ok(TokenForm {
        code: code.to_owned(),
        client_id: id.clone(),
        client_secret: secret.clone(),
        redirect_uri: redirect_uri(),
        grant_type: String::from_str("authorization_code"),
    })
}

/// The reply when Google refuses the exchange, with Google's answer.
pub fn exchange_refused(answer: &str) -> (r: Reply)
    ensures
        r matches Reply::Status { code, body } && code == 400 && body@ == "Token exchange failed: "@ + answer@,
{
    let mut body = String::from_str("Token exchange failed: ");
    body.append(answer);
    Reply::Status { code: 400, body }
}

/// The reply when the exchange request could not be sent, with the reason.
pub fn exchange_unsent(reason: &str) -> (r: Reply)
    ensures
        r matches Reply::Status { code, body } && code == 500 && body@ == "Failed to send token request: "@ + reason@,
{
    let mut body = String::from_str("Failed to send token request: ");
    body.append(reason);
    Reply::Status { code: 500, body }
}

/// The reply when Google's answer could not be read, with the reason.
pub fn exchange_unreadable(reason: &str) -> (r: Reply)
    ensures
        r matches Reply::Status { code, body } && code == 500 && body@ == "Failed to parse token response: "@ + reason@,
{
    let mut body = String::from_str("Failed to parse token response: ");
    body.append(reason);
    Reply::Status { code: 500, body }
}

/// What the sign-in does with Google's answer to the token exchange.
pub struct ExchangeOutcome {
    /// The reply to the browser.
    pub reply: Reply,
    /// The access token to store, if any.
    pub token: Option<String>,
}

/// The outcome of a token exchange that Google answered with the status
/// `code` and the text `answer`, `parsed` being the access token read from
/// that text or why none could be read. A status outside 200..=299 is a
/// refusal (400, with Google's answer); a success whose answer holds no
/// token is a server error (500, with the reason); otherwise the token is
/// stored and the browser goes back to the dashboard. Only then is a token
/// stored.
pub fn exchange_outcome(code: u16, answer: &str, parsed: Result<String, String>) -> (r: ExchangeOutcome)
    ensures
        !(200 <= code <= 299) ==> r.token is None,
        !(200 <= code <= 299) ==> (r.reply matches Reply::Status { code: c, body } && c == 400 && body@
            == "Token exchange failed: "@ + answer@),
        200 <= code <= 299 ==> match parsed {
            Ok(t) => (r.token matches Some(s) && s@ == t@) && (r.reply matches Reply::Redirect(u) && u@ == "/"@),
            Err(reason) => r.token is None && (r.reply matches Reply::Status { code: c, body } && c == 500
                && body@ == "Failed to parse token response: "@ + reason@),
        },
{
    if code < 200 || code > 299 {
        return ExchangeOutcome { reply: exchange_refused(answer), token: None };
    }
    match parsed {
        Ok(t) => ExchangeOutcome { reply: signed_in(), token: Some(t) },
        Err(reason) => ExchangeOutcome { reply: exchange_unreadable(reason.as_str()), token: None },
    }
}

/// The reply once the token is stored: back to the dashboard.
pub fn signed_in() -> (r: Reply)
    ensures
        r matches Reply::Redirect(u) && u@ == "/"@,
{
    Reply::Redirect(String::from_str("/"))
}

} // verus!
