use bettercoding::error::ApiError;
use bettercoding::oauth::{
    close_window_response, current_user, generate_secret, hash_sha256_hex, new_handoff_secret,
    refuse_callback, signed_in, simple_html_response, status, unknown_handoff, HandoffCallback,
    LoginAnswer, LoginState, LoginStatus, AUTO_CLOSE_SCRIPT,
};

#[test]
fn secrets_are_long_and_alphanumeric() {
    let a = generate_secret();
    let b = generate_secret();
    assert_eq!(a.len(), 64);
    assert!(a.chars().all(|c| c.is_ascii_alphanumeric()));
    assert_ne!(a, b);
}

#[test]
fn digests_of_texts() {
    assert_eq!(
        hash_sha256_hex("abc"),
        "ba7816bf8f01cfea414140de5dae2223b00361a396177a9cb410ff61f20015ad"
    );
    assert_eq!(
        hash_sha256_hex("\u{e9}"),
        "4a99557e4033c3539de2eb65472017cad5f9557f7a0625a09f1c3f6e2ba69c4c"
    );
    let secret = new_handoff_secret();
    assert_eq!(secret.app_challenge, hash_sha256_hex(&secret.app_verifier));
}

#[test]
fn failures_are_shown_on_a_page() {
    let r = simple_html_response(400, "went wrong");
    assert_eq!(r.status, 400);
    assert!(r.body.starts_with("<!doctype html>\n<html>\n  <head>\n"));
    assert!(r.body.contains("<title>OAuth Error</title>\n    <style>"));
    assert!(r.body.contains("<p class=\"title\">went wrong</p>"));
    assert!(r.body.contains("<p class=\"subtitle\">Please close this tab and try again.</p>"));
    assert!(r.body.contains("src=\"data:image/png;base64,iVBOR"));
    assert!(r.body.ends_with("</body>\n</html>"));
    assert!(!r.body.contains("<script>"));
}

#[test]
fn success_closes_the_window_unless_on_the_desktop() {
    let web = close_window_response("ok", false);
    assert_eq!(web.status, 200);
    assert!(web.body.contains(&format!("</title>\n    {AUTO_CLOSE_SCRIPT}\n    <style>")));
    let desktop = close_window_response("ok", true);
    assert!(desktop.body.contains("<title>Authentication Complete</title>\n    \n    <style>"));
    assert!(!desktop.body.contains("<script>"));
}

fn callback(app_code: Option<&str>, error: Option<&str>, source: Option<&str>) -> HandoffCallback {
    HandoffCallback {
        app_code: app_code.map(str::to_string),
        error: error.map(str::to_string),
        source: source.map(str::to_string),
    }
}

#[test]
fn callbacks_are_checked() {
    assert!(refuse_callback(&callback(Some("c"), None, None)).is_none());
    let denied = refuse_callback(&callback(Some("c"), Some("denied"), None)).unwrap();
    assert_eq!(denied.status, 400);
    assert!(denied.body.contains("OAuth authorization failed: denied"));
    let missing = refuse_callback(&callback(None, None, None)).unwrap();
    assert!(missing.body.contains("Missing app_code in callback"));
    assert!(unknown_handoff().body.contains("OAuth handoff not found or already completed"));
    let web = signed_in(&callback(Some("c"), None, None), "github");
    assert!(web.body.contains("Signed in with github. You can return to the app."));
    assert!(web.body.contains("<script>"));
    let desktop = signed_in(&callback(Some("c"), None, Some("desktop")), "github");
    assert!(!desktop.body.contains("<script>"));
}

fn logged_in(profile: Option<&str>) -> LoginStatus {
    LoginStatus::LoggedIn { profile: profile.map(str::to_string) }
}

#[test]
fn a_sign_in_runs_through() {
    let s = LoginState::start(&Some("token".to_string()))
        .step(LoginAnswer::Expiry(Ok(99)));
    assert!(matches!(s, LoginState::Saving { expires_at: 99 }));
    let s = s
        .step(LoginAnswer::Saved(Ok(())))
        .step(LoginAnswer::Analytics(false))
        .step(LoginAnswer::SettingsStored(true));
    assert!(matches!(s, LoginState::Announcing));
    let s = s
        .step(LoginAnswer::Announced)
        .step(LoginAnswer::Status(logged_in(Some("me"))));
    match s {
        LoginState::SignedIn { profile } => assert_eq!(profile, "me"),
        other => panic!("unexpected {other:?}"),
    }
}

#[test]
fn analytics_do_not_stop_a_sign_in() {
    let saved = || {
        LoginState::start(&Some("token".to_string()))
            .step(LoginAnswer::Expiry(Ok(99)))
            .step(LoginAnswer::Saved(Ok(())))
    };
    assert!(matches!(saved().step(LoginAnswer::Analytics(true)), LoginState::Identifying));
    assert!(matches!(
        saved().step(LoginAnswer::Analytics(false)).step(LoginAnswer::SettingsStored(false)),
        LoginState::Identifying
    ));
}

#[test]
fn sign_ins_that_fail() {
    let error = |s: LoginState| match s {
        LoginState::Failed(e) => e.into_api_error(),
        other => panic!("unexpected {other:?}"),
    };
    match error(LoginState::start(&None)) {
        ApiError::BadRequest(m) => assert_eq!(m, "Missing access token"),
        other => panic!("unexpected {other:?}"),
    }
    let start = || LoginState::start(&Some("token".to_string()));
    match error(start().step(LoginAnswer::Expiry(Err("bad".to_string())))) {
        ApiError::BadRequest(m) => assert_eq!(m, "Invalid access token: bad"),
        other => panic!("unexpected {other:?}"),
    }
    match error(
        start().step(LoginAnswer::Expiry(Ok(1))).step(LoginAnswer::Saved(Err("disk".to_string()))),
    ) {
        ApiError::Io(m) => assert_eq!(m, "disk"),
        other => panic!("unexpected {other:?}"),
    }
    for s in [logged_in(None), LoginStatus::LoggedOut] {
        let failed = start()
            .step(LoginAnswer::Expiry(Ok(1)))
            .step(LoginAnswer::Saved(Ok(())))
            .step(LoginAnswer::Analytics(true))
            .step(LoginAnswer::Status(s));
        assert!(matches!(error(failed), ApiError::Unauthorized));
    }
}

#[test]
fn accounts_are_reported() {
    let out = status(LoginStatus::LoggedOut, &None);
    assert!(!out.logged_in && out.profile.is_none() && out.degraded.is_none());
    let impaired = status(logged_in(Some("me")), &Some("slug".to_string()));
    assert!(impaired.logged_in);
    assert_eq!(impaired.profile.as_deref(), Some("me"));
    assert_eq!(impaired.degraded, Some(true));
    assert_eq!(current_user(Some("u".to_string())).unwrap().user_id, "u");
    assert!(matches!(current_user(None), Err(ApiError::Unauthorized)));
}
