//! Signing in: the secrets of a hand-off, the pages that a browser is shown,
//! and what happens once a token is there.

use vstd::prelude::*;
use vstd::string::*;
use vstd::utf8::*;

use crate::error::{ApiError, bad_request};
use crate::foreign::{random_alphanumeric, sha256, sha256_digest};
use crate::text::{ascii_alphanumeric, concat2, concat3, hex, hex_text, opt_text, same_text};

verus! {

/// The length of a hand-off's secret.
pub const SECRET_LENGTH: usize = 64;

/// The application's icon, 32 by 32 pixels, in base64.
pub const APP_ICON_BASE64: &'static str = "iVBORw0KGgoAAAANSUhEUgAAACAAAAAgCAYAAABzenr0AAACc0lEQVR42u2X0UtTcRTHP7973VXnIG+ipW0ssAgDq41CgkSkYMQgWG/F6KWgv6AHffFlT3sMMaggMqTeksj2JPbgy/ayCANFpFyj4XS6zUzdbff2sHY1kT043XrY9+13z7m/87nnnN+PewT7yG63GxyB4vG42PtMVCJwKRCp0sH3xpIqHXwvhESVJarx9btV9QzUAKoOUFfKOD09jdPpNNf5fJ7l5WXC4TDBYJBYLGbazrfIPLig4GqTaawTxLI6b2ZzvJ3XMA56CooAa2trJBIJFEWhs7MTIQSLi4v09vZiGAbuEzIjN6wocuE9TQfL39w++5zjyaft8kowMTGBx+Ohv7+foaEhAJxOJx0dHQA8utKAIsPKpsGd9xtcHVvnxUwOgPvdCu1N0uH0gMViwW63A7C0tEQymaS9SeLc8cI2r77kmFvV0Q0YiW7zLavz8ftv1AZxsB4oyu/34/f7zfXk5CSBQABN0zjdurPFzEp+p18MuD2+UV4TFlXsAUmScDgc9PX1kc1mGRwcpEHeMv3WNeNwT8HuHhgYGACgubmZUCiEz+cjlUoRehow/dR6cfT3QDqdJhqNAtDT08NCWjdtl9rkf3wfX29kzGvFd9ZyeAA2mw2Xy2XCpDYNoslC7e92KXS3FiBunbFw7VQdXS0yP37q5ZXA6/XidrsRQuBwOLDZbACMjo4CEIxs8dxj5Vi94OVNK7k85p3wbkEjnMiXB6CqKqqqApDJZIhEIgwPDzM1NQXA3KrOvQ+/eHixnssnZWwWwdeMzvi8xuvZXO1/oAZQAygNsN+4VCnF43Hxf5SgGlkoxpRKTa6VGE5FtcfzPzdv5SaGHcH2AAAAAElFTkSuQmCC";

/// The styles of the pages.
pub const AUTH_PAGE_STYLES: &'static str = "<style>\n  @import url('https://fonts.googleapis.com/css2?family=IBM+Plex+Sans:wght@400;500;600&display=swap');\n  *, *::before, *::after { box-sizing: border-box; margin: 0; padding: 0; }\n  body {\n    font-family: 'IBM Plex Sans', -apple-system, BlinkMacSystemFont, \"Segoe UI\", Roboto, sans-serif;\n    background: #f2f2f2;\n    color: #333;\n    min-height: 100vh;\n    display: flex;\n    align-items: center;\n    justify-content: center;\n  }\n  .container {\n    display: flex;\n    flex-direction: column;\n    align-items: center;\n    gap: 24px;\n    padding: 24px;\n  }\n  .logo { width: 40px; height: 40px; }\n  .content {\n    display: flex;\n    flex-direction: column;\n    align-items: center;\n    gap: 4px;\n  }\n  .title {\n    font-size: 13px;\n    font-weight: 500;\n    color: #0d0d0d;\n  }\n  .subtitle {\n    font-size: 12px;\n    color: #636363;\n  }\n</style>";

/// What closes the page's window by itself.
pub const AUTO_CLOSE_SCRIPT: &'static str = "<script>window.addEventListener('load', () => {try { window.close(); } catch (err) {}setTimeout(() => { window.close(); }, 150);});</script>";

/// A fresh secret for a hand-off.
pub fn generate_secret() -> (secret: String)
    ensures
        secret@.len() == SECRET_LENGTH,
        forall|i: int| 0 <= i < secret@.len() ==> ascii_alphanumeric(#[trigger] secret@[i]),
{
    random_alphanumeric(SECRET_LENGTH)
}

/// The SHA-256 digest of a text, in lower-case hexadecimal.
pub fn hash_sha256_hex(input: &str) -> (out: String)
    ensures
        out@ == hex(sha256_digest(encode_utf8(input@))),
        out@.len() == 64,
{
    hex_text(&sha256(input.as_bytes()))
}

/// The secret of a hand-off, and the challenge that proves it later.
#[derive(Debug)]
pub struct HandoffSecret {
    pub app_verifier: String,
    pub app_challenge: String,
}

/// Starts a hand-off: a fresh secret, and its digest as the challenge.
pub fn new_handoff_secret() -> (s: HandoffSecret)
    ensures
        s.app_verifier@.len() == SECRET_LENGTH,
        forall|i: int|
            0 <= i < s.app_verifier@.len() ==> ascii_alphanumeric(#[trigger] s.app_verifier@[i]),
        s.app_challenge@ == hex(sha256_digest(encode_utf8(s.app_verifier@))),
        s.app_challenge@.len() == 64,
{
    let app_verifier = generate_secret();
    let app_challenge = hash_sha256_hex(app_verifier.as_str());
    HandoffSecret { app_verifier, app_challenge }
}

/// A page and its HTTP status.
#[derive(Debug)]
pub struct HtmlResponse {
    pub status: u16,
    pub body: String,
}

/// A page with a title, what its head holds beside the styles, a message and a
/// line below it.
pub open spec fn page(
    title: Seq<char>,
    head: Seq<char>,
    message: Seq<char>,
    subtitle: Seq<char>,
) -> Seq<char> {
    "<!doctype html>\n<html>\n  <head>\n    <meta charset=\"utf-8\">\n    <meta name=\"viewport\" content=\"width=device-width, initial-scale=1\">\n    <title>"@
        + title + "</title>\n    "@ + head + AUTH_PAGE_STYLES@
        + "\n  </head>\n  <body>\n    <div class=\"container\">\n      <img class=\"logo\" src=\"data:image/png;base64,"@
        + APP_ICON_BASE64@
        + "\" alt=\"BetterCoding\">\n      <div class=\"content\">\n        <p class=\"title\">"@
        + message + "</p>\n        <p class=\"subtitle\">"@ + subtitle
        + "</p>\n      </div>\n    </div>\n  </body>\n</html>"@
}

fn build_page(title: &str, head: &str, message: &str, subtitle: &str) -> (body: String)
    ensures
        body@ == page(title@, head@, message@, subtitle@),
{
    let mut body =
        "<!doctype html>\n<html>\n  <head>\n    <meta charset=\"utf-8\">\n    <meta name=\"viewport\" content=\"width=device-width, initial-scale=1\">\n    <title>".to_owned();
    body.append(title);
    body.append("</title>\n    ");
    body.append(head);
    body.append(AUTH_PAGE_STYLES);
    body.append(
        "\n  </head>\n  <body>\n    <div class=\"container\">\n      <img class=\"logo\" src=\"data:image/png;base64,",
    );
    body.append(APP_ICON_BASE64);
    body.append(
        "\" alt=\"BetterCoding\">\n      <div class=\"content\">\n        <p class=\"title\">",
    );
    body.append(message);
    body.append("</p>\n        <p class=\"subtitle\">");
    body.append(subtitle);
    body.append("</p>\n      </div>\n    </div>\n  </body>\n</html>");
    body
}

/// The page that reports a failure.
pub fn simple_html_response(status: u16, message: &str) -> (r: HtmlResponse)
    ensures
        r.status == status,
        r.body@ == page(
            "OAuth Error"@,
            Seq::empty(),
            message@,
            "Please close this tab and try again."@,
        ),
{
    proof {
        reveal_strlit("");
        assert(""@ =~= Seq::<char>::empty());
    }
    HtmlResponse {
        status,
        body: build_page("OAuth Error", "", message, "Please close this tab and try again."),
    }
}

/// The page that reports success. It closes its window by itself, unless the
/// desktop application opened it.
pub fn close_window_response(message: &str, skip_auto_close: bool) -> (r: HtmlResponse)
    ensures
        r.status == 200,
        r.body@ == page(
            "Authentication Complete"@,
            if skip_auto_close {
                "\n    "@
            } else {
                AUTO_CLOSE_SCRIPT@ + "\n    "@
            },
            message@,
            "You can close this tab and return to the app."@,
        ),
{
    let head = if skip_auto_close {
        "\n    ".to_owned()
    } else {
        concat2(AUTO_CLOSE_SCRIPT, "\n    ")
    };
    HtmlResponse {
        status: 200,
        body: build_page(
            "Authentication Complete",
            head.as_str(),
            message,
            "You can close this tab and return to the app.",
        ),
    }
}

/// What a callback brings.
#[derive(Debug)]
pub struct HandoffCallback {
    pub app_code: Option<String>,
    pub error: Option<String>,
    pub source: Option<String>,
}

/// The page that a callback is refused with before its hand-off is looked up;
/// nothing where it may go on.
pub fn refuse_callback(callback: &HandoffCallback) -> (r: Option<HtmlResponse>)
    ensures
        match callback.error {
            Some(e) => r is Some && r->0.status == 400 && r->0.body@ == page(
                "OAuth Error"@,
                Seq::empty(),
                "OAuth authorization failed: "@ + e@,
                "Please close this tab and try again."@,
            ),
            None => if callback.app_code is None {
                r is Some && r->0.status == 400 && r->0.body@ == page(
                    "OAuth Error"@,
                    Seq::empty(),
                    "Missing app_code in callback"@,
                    "Please close this tab and try again."@,
                )
            } else {
                r is None
            },
        },
{
    match &callback.error {
        Some(e) => Some(
            simple_html_response(
                400,
                concat2("OAuth authorization failed: ", e.as_str()).as_str(),
            ),
        ),
        None => {
            if callback.app_code.is_none() {
                Some(simple_html_response(400, "Missing app_code in callback"))
            } else {
                None
            }
        },
    }
}

/// The page for a callback whose hand-off is not known.
pub fn unknown_handoff() -> (r: HtmlResponse)
    ensures
        r.status == 400,
        r.body@ == page(
            "OAuth Error"@,
            Seq::empty(),
            "OAuth handoff not found or already completed"@,
            "Please close this tab and try again."@,
        ),
{
    simple_html_response(400, "OAuth handoff not found or already completed")
}

/// Whether the desktop application opened the page.
pub open spec fn from_desktop(callback: HandoffCallback) -> bool {
    opt_text(callback.source) == Some("desktop"@)
}

/// The page for a callback that went through.
pub fn signed_in(callback: &HandoffCallback, provider: &str) -> (r: HtmlResponse)
    ensures
        r.status == 200,
        r.body@ == page(
            "Authentication Complete"@,
            if from_desktop(*callback) {
                "\n    "@
            } else {
                AUTO_CLOSE_SCRIPT@ + "\n    "@
            },
            "Signed in with "@ + provider@ + ". You can return to the app."@,
            "You can close this tab and return to the app."@,
        ),
{
    let is_desktop = match &callback.source {
        Some(s) => same_text(s.as_str(), "desktop"),
        None => false,
    };
    let message = concat3("Signed in with ", provider, ". You can return to the app.");
    close_window_response(message.as_str(), is_desktop)
}

/// How far a sign-in has come.
#[derive(Debug)]
pub enum LoginState {
    /// When does the token expire?
    Expiring,
    /// The credentials are stored with their expiry, in seconds since the epoch.
    Saving { expires_at: i64 },
    /// Are analytics switched on?
    Consulting,
    /// They are switched on in the settings.
    EnablingAnalytics,
    /// The stored settings are taken over, and a session is announced.
    Announcing,
    /// Whose account is it?
    Identifying,
    /// The account's workspaces are synchronised, and the relay is started.
    SignedIn { profile: String },
    Failed(LoginError),
}

/// Why a sign-in failed.
#[derive(Debug)]
pub enum LoginError {
    MissingToken,
    InvalidToken(String),
    NotSaved(String),
    Unauthorized,
}

/// What came of a step.
#[derive(Debug)]
pub enum LoginAnswer {
    /// The token's expiry, or what is wrong with the token.
    Expiry(Result<i64, String>),
    Saved(Result<(), String>),
    /// Whether analytics are switched on.
    Analytics(bool),
    /// Whether the changed settings were stored.
    SettingsStored(bool),
    Announced,
    /// Whether anybody is signed in now.
    Status(LoginStatus),
}

/// Whether anybody is signed in.
#[derive(Debug)]
pub enum LoginStatus {
    LoggedOut,
    /// The account's profile, where it is known.
    LoggedIn { profile: Option<String> },
}

impl LoginState {
    pub open spec fn first(has_token: bool) -> LoginState {
        if has_token {
            LoginState::Expiring
        } else {
            LoginState::Failed(LoginError::MissingToken)
        }
    }

    /// The state after an answer. An answer to another question than the one
    /// that was asked changes nothing.
    pub open spec fn after(self, answer: LoginAnswer) -> LoginState {
        match (self, answer) {
            (LoginState::Expiring, LoginAnswer::Expiry(Ok(t))) => LoginState::Saving {
                expires_at: t,
            },
            (LoginState::Expiring, LoginAnswer::Expiry(Err(e))) => LoginState::Failed(
                LoginError::InvalidToken(e),
            ),
            (LoginState::Saving { .. }, LoginAnswer::Saved(Ok(_))) => LoginState::Consulting,
            (LoginState::Saving { .. }, LoginAnswer::Saved(Err(e))) => LoginState::Failed(
                LoginError::NotSaved(e),
            ),
            (LoginState::Consulting, LoginAnswer::Analytics(on)) => if on {
                LoginState::Identifying
            } else {
                LoginState::EnablingAnalytics
            },
            (LoginState::EnablingAnalytics, LoginAnswer::SettingsStored(stored)) => if stored {
                LoginState::Announcing
            } else {
                LoginState::Identifying
            },
            (LoginState::Announcing, LoginAnswer::Announced) => LoginState::Identifying,
            (LoginState::Identifying, LoginAnswer::Status(status)) => match status {
                LoginStatus::LoggedIn { profile: Some(profile) } => LoginState::SignedIn {
                    profile,
                },
                _ => LoginState::Failed(LoginError::Unauthorized),
            },
            _ => self,
        }
    }

    /// A sign-in starts.
    pub fn start(token: &Option<String>) -> (s: LoginState)
        ensures
            s == LoginState::first(token is Some),
    {
        if token.is_some() {
            LoginState::Expiring
        } else {
            LoginState::Failed(LoginError::MissingToken)
        }
    }

    /// Takes what came of the step that the state stands for.
    pub fn step(self, answer: LoginAnswer) -> (next: LoginState)
        ensures
            next == self.after(answer),
    {
        match (self, answer) {
            (LoginState::Expiring, LoginAnswer::Expiry(r)) => match r {
                Ok(t) => LoginState::Saving { expires_at: t },
                Err(e) => LoginState::Failed(LoginError::InvalidToken(e)),
            },
            (LoginState::Saving { .. }, LoginAnswer::Saved(r)) => match r {
                Ok(_) => LoginState::Consulting,
                Err(e) => LoginState::Failed(LoginError::NotSaved(e)),
            },
            (LoginState::Consulting, LoginAnswer::Analytics(on)) => {
                if on {
                    LoginState::Identifying
                } else {
                    LoginState::EnablingAnalytics
                }
            },
            (LoginState::EnablingAnalytics, LoginAnswer::SettingsStored(stored)) => {
                if stored {
                    LoginState::Announcing
                } else {
                    LoginState::Identifying
                }
            },
            (LoginState::Announcing, LoginAnswer::Announced) => LoginState::Identifying,
            (LoginState::Identifying, LoginAnswer::Status(status)) => match status {
                LoginStatus::LoggedIn { profile } => match profile {
                    Some(profile) => LoginState::SignedIn { profile },
                    None => LoginState::Failed(LoginError::Unauthorized),
                },
                LoginStatus::LoggedOut => LoginState::Failed(LoginError::Unauthorized),
            },
            (same, _) => same,
        }
    }
}

impl LoginError {
    /// What the request is answered with.
    pub fn into_api_error(self) -> (e: ApiError)
        ensures
            match self {
                LoginError::MissingToken => bad_request(e, "Missing access token"@),
                LoginError::InvalidToken(err) => bad_request(e, "Invalid access token: "@ + err@),
                LoginError::NotSaved(err) => e == ApiError::Io(err),
                LoginError::Unauthorized => e == ApiError::Unauthorized,
            },
    {
        match self {
            LoginError::MissingToken => ApiError::BadRequest("Missing access token".to_owned()),
            LoginError::InvalidToken(err) => ApiError::BadRequest(
                concat2("Invalid access token: ", err.as_str()),
            ),
            LoginError::NotSaved(err) => ApiError::Io(err),
            LoginError::Unauthorized => ApiError::Unauthorized,
        }
    }
}

/// Where a sign-in stands after the answers so far.
pub open spec fn login_run(has_token: bool, answers: Seq<LoginAnswer>) -> LoginState
    decreases answers.len(),
{
    if answers.len() == 0 {
        LoginState::first(has_token)
    } else {
        login_run(has_token, answers.drop_last()).after(answers.last())
    }
}

/// Whether an answer says that the credentials were stored.
pub open spec fn says_saved(a: LoginAnswer) -> bool {
    a matches LoginAnswer::Saved(r) && r is Ok
}

/// Whether a state is one behind the storing of the credentials.
pub open spec fn past_saving(s: LoginState) -> bool {
    s is Consulting || s is EnablingAnalytics || s is Announcing || s is Identifying
        || s is SignedIn
}

/// Nobody is signed in whose credentials were not stored.
pub proof fn law_sign_in_needs_stored_credentials(has_token: bool, answers: Seq<LoginAnswer>)
    requires
        past_saving(login_run(has_token, answers)),
    ensures
        exists|i: int| 0 <= i < answers.len() && says_saved(#[trigger] answers[i]),
    decreases answers.len(),
{
    let head = answers.drop_last();
    let before = login_run(has_token, head);
    if past_saving(before) {
        law_sign_in_needs_stored_credentials(has_token, head);
        let i = choose|i: int| 0 <= i < head.len() && says_saved(#[trigger] head[i]);
        assert(says_saved(answers[i]));
    } else {
        assert(says_saved(answers[answers.len() - 1]));
    }
}

/// The signed-in user, as clients see it.
#[derive(Debug, PartialEq, Eq)]
pub struct CurrentUserResponse {
    pub user_id: String,
}

/// The signed-in user, from the subject of the access token. A token without a
/// readable subject counts as nobody's.
pub fn current_user(subject: Option<String>) -> (r: Result<CurrentUserResponse, ApiError>)
    ensures
        r == match subject {
            Some(user_id) => Ok::<CurrentUserResponse, ApiError>(CurrentUserResponse { user_id }),
            None => Err(ApiError::Unauthorized),
        },
{
    match subject {
        Some(user_id) => Ok(CurrentUserResponse { user_id }),
        None => Err(ApiError::Unauthorized),
    }
}

/// Whether anybody is signed in, as clients see it.
#[derive(Debug, PartialEq, Eq)]
pub struct StatusResponse {
    pub logged_in: bool,
    pub profile: Option<String>,
    /// Whether the remote service is impaired; absent where it is not.
    pub degraded: Option<bool>,
}

/// Reports whether anybody is signed in, and whether the remote service is
/// impaired.
pub fn status(login: LoginStatus, degraded_slug: &Option<String>) -> (r: StatusResponse)
    ensures
        r.logged_in == (login is LoggedIn),
        r.profile == match login {
            LoginStatus::LoggedIn { profile } => profile,
            LoginStatus::LoggedOut => None,
        },
        r.degraded == if degraded_slug is Some {
            Some(true)
        } else {
            None
        },
{
    let degraded = if degraded_slug.is_some() {
        Some(true)
    } else {
        None
    };
    match login {
        LoginStatus::LoggedOut => StatusResponse { logged_in: false, profile: None, degraded },
        LoginStatus::LoggedIn { profile } => StatusResponse { logged_in: true, profile, degraded },
    }
}

/// What a sign-in meets outside.
pub ghost struct LoginWorld {
    pub expiry: Result<i64, String>,
    /// Why the credentials could not be stored, if so.
    pub unsaved: Option<String>,
    pub analytics: bool,
    pub stored: bool,
    pub status: LoginStatus,
}

impl LoginWorld {
    /// What is answered in a state. Credentials with another expiry than the
    /// token's are not stored.
    pub open spec fn answer(self, s: LoginState) -> LoginAnswer {
        match s {
            LoginState::Expiring => LoginAnswer::Expiry(self.expiry),
            LoginState::Saving { expires_at } => LoginAnswer::Saved(
                match (self.expiry, self.unsaved) {
                    (Err(e), _) => Err(e),
                    (Ok(_), Some(e)) => Err(e),
                    (Ok(t), None) => if t == expires_at {
                        Ok(())
                    } else {
                        Err(arbitrary())
                    },
                },
            ),
            LoginState::Consulting => LoginAnswer::Analytics(self.analytics),
            LoginState::EnablingAnalytics => LoginAnswer::SettingsStored(self.stored),
            LoginState::Announcing => LoginAnswer::Announced,
            _ => LoginAnswer::Status(self.status),
        }
    }

    /// Where the sign-in comes to in `fuel` steps.
    pub open spec fn serve(self, s: LoginState, fuel: nat) -> LoginState
        decreases fuel,
    {
        if fuel == 0 || s is SignedIn || s is Failed {
            s
        } else {
            self.serve(s.after(self.answer(s)), (fuel - 1) as nat)
        }
    }

    /// What comes of the sign-in.
    pub open spec fn outcome(self, has_token: bool) -> LoginState {
        self.serve(LoginState::first(has_token), 6)
    }
}

/// Somebody is signed in exactly where there is a token with an expiry, the
/// credentials were stored with it, and the account's profile is known, whatever
/// becomes of the settings. Otherwise the first thing that is missing is told.
pub proof fn law_sign_in_needs_token_storage_and_profile(w: LoginWorld, has_token: bool)
    ensures
        ({
            let r = w.outcome(has_token);
            &&& !has_token ==> r == LoginState::Failed(LoginError::MissingToken)
            &&& has_token ==> {
                &&& w.expiry matches Err(e) ==> r == LoginState::Failed(LoginError::InvalidToken(e))
                &&& w.expiry is Ok ==> {
                    &&& w.unsaved matches Some(e) ==> r == LoginState::Failed(
                        LoginError::NotSaved(e),
                    )
                    &&& w.unsaved is None ==> match w.status {
                        LoginStatus::LoggedIn { profile: Some(profile) } => r == (
                        LoginState::SignedIn { profile }),
                        _ => r == LoginState::Failed(LoginError::Unauthorized),
                    }
                }
            }
        }),
{
    reveal_with_fuel(LoginWorld::serve, 7);
}

/// Analytics that are off are switched on in the settings once the credentials are
/// stored; a session is announced only where the settings were stored.
pub proof fn law_analytics_are_switched_on(s: LoginState, answer: LoginAnswer)
    ensures
        !(s is EnablingAnalytics) && s.after(answer) is EnablingAnalytics ==> s is Consulting
            && answer == LoginAnswer::Analytics(false),
        s is Consulting && answer == LoginAnswer::Analytics(false) ==> s.after(
            answer,
        ) is EnablingAnalytics,
        !(s is Announcing) && s.after(answer) is Announcing ==> s is EnablingAnalytics && answer
            == LoginAnswer::SettingsStored(true),
        s is EnablingAnalytics && answer == LoginAnswer::SettingsStored(true) ==> s.after(
            answer,
        ) is Announcing,
{
}

/// The page was opened by the desktop application exactly where its source says so.
pub proof fn law_desktop_is_told_by_its_source(callback: HandoffCallback)
    ensures
        callback.source is None ==> !from_desktop(callback),
        callback.source matches Some(s) ==> (from_desktop(callback) <==> s@ == "desktop"@),
{
}

} // verus!
