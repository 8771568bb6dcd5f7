use ghcc::auth::{AuthError, CopilotTokenResponse};
use ghcc::http::Method;
use ghcc::login::{
    access_token_request, device_code_notice, device_code_request, login, login_step,
    AccessTokenResponse, DeviceCodeResponse, LoginAction, LoginEvent, LoginState,
};

fn pairs(v: &[(String, String)]) -> Vec<(&str, &str)> {
    v.iter().map(|(n, x)| (n.as_str(), x.as_str())).collect()
}

fn token_response() -> CopilotTokenResponse {
    CopilotTokenResponse {
        token: "new access".to_string(),
        expires_at: 7,
        endpoints: vec![
            ("proxy".to_string(), "https://proxy".to_string()),
            ("api".to_string(), "https://api".to_string()),
        ],
    }
}

fn device() -> DeviceCodeResponse {
    DeviceCodeResponse {
        device_code: "device".to_string(),
        user_code: "ABCD-1234".to_string(),
        verification_uri: "https://github.com/login/device".to_string(),
        expires_in: 900,
        interval: 1,
    }
}

fn poll_answer(token: Option<&str>, error: Option<&str>, why: Option<&str>) -> LoginEvent {
    LoginEvent::AccessToken(Ok(AccessTokenResponse {
        access_token: token.map(|s| s.to_string()),
        token_type: None,
        error: error.map(|s| s.to_string()),
        error_description: why.map(|s| s.to_string()),
    }))
}

fn polled(event: LoginEvent) -> (LoginState, LoginAction) {
    login_step(LoginState::Polling(device()), event, "1.0", "m".to_string())
}

#[test]
fn a_login_begins_with_a_device_code() {
    let request = device_code_request();
    assert_eq!(request.method, Method::PostForm);
    assert_eq!(request.url, "https://github.com/login/device/code");
    assert_eq!(pairs(&request.headers), [("Accept", "application/json")]);
    assert_eq!(
        pairs(&request.form),
        [("client_id", "Iv1.b507a08c87ecfe98"), ("scope", "read:user")]
    );
    let notice = device_code_notice(&device());
    assert_eq!(notice.len(), 6);
    assert_eq!(notice[2], format!("│  Please visit: {:<35} │", "https://github.com/login/device"));
    assert_eq!(notice[3], format!("│  And enter code: {:<33} │", "ABCD-1234"));
    assert_eq!(notice[1].chars().count(), notice[2].chars().count());
    let event = LoginEvent::DeviceCode(Ok(device()));
    assert!(matches!(
        login_step(LoginState::Starting, event, "1.0", "m".to_string()),
        (LoginState::Waiting(_), LoginAction::ReadClock(0))
    ));
}

#[test]
fn a_login_polls_while_the_code_is_good() {
    let wait = |elapsed: u128, interval: u64| {
        let mut d = device();
        d.interval = interval;
        login_step(
            LoginState::Waiting(d),
            LoginEvent::Elapsed(elapsed),
            "1.0",
            "m".to_string(),
        )
    };
    match wait(900_000_000_000, 1) {
        (LoginState::Polling(_), LoginAction::Poll(5, request)) => {
            let expected = access_token_request("device");
            assert_eq!(request.url, "https://github.com/login/oauth/access_token");
            assert_eq!(pairs(&request.form), pairs(&expected.form));
            assert_eq!(
                pairs(&request.form),
                [
                    ("client_id", "Iv1.b507a08c87ecfe98"),
                    ("device_code", "device"),
                    ("grant_type", "urn:ietf:params:oauth:grant-type:device_code"),
                ]
            );
        }
        other => panic!("{:?}", other),
    }
    assert!(matches!(wait(0, 8), (_, LoginAction::Poll(8, _))));
    assert!(matches!(
        wait(900_000_000_001, 1),
        (LoginState::Failed(AuthError::Timeout), LoginAction::Stop)
    ));
}

#[test]
fn a_poll_may_be_answered_in_many_ways() {
    assert!(matches!(
        polled(poll_answer(None, Some("authorization_pending"), None)),
        (LoginState::Waiting(_), LoginAction::ReadClock(0))
    ));
    assert!(matches!(
        polled(poll_answer(None, Some("slow_down"), None)),
        (LoginState::Waiting(_), LoginAction::ReadClock(5))
    ));
    assert!(matches!(
        polled(poll_answer(None, None, None)),
        (LoginState::Waiting(_), LoginAction::ReadClock(0))
    ));
    assert!(matches!(
        polled(poll_answer(None, Some("expired_token"), Some("late"))),
        (LoginState::Failed(AuthError::Timeout), LoginAction::Stop)
    ));
    for (error, why, text) in [
        ("access_denied", None, "Access denied"),
        ("access_denied", Some("by you"), "by you"),
        ("strange", None, "strange"),
        ("strange", Some("really"), "really"),
    ] {
        assert!(matches!(
            polled(poll_answer(None, Some(error), why)),
            (LoginState::Failed(AuthError::Auth(msg)), LoginAction::Stop) if msg == text
        ));
    }
    assert!(matches!(
        polled(LoginEvent::AccessToken(Err(AuthError::Timeout))),
        (LoginState::Failed(AuthError::Timeout), LoginAction::Stop)
    ));
}

#[test]
fn a_grant_is_exchanged_for_credentials() {
    let (state, action) = polled(poll_answer(Some("granted"), Some("slow_down"), None));
    match action {
        LoginAction::FetchToken(request) => {
            assert_eq!(request.headers[0].1, "token granted");
            assert_eq!(request.headers[1].1, "ghcc/1.0");
        }
        other => panic!("{:?}", other),
    }
    match login(state, LoginEvent::CopilotToken(Ok(token_response())), "1.0") {
        (LoginState::Done(auth), LoginAction::Stop) => {
            assert_eq!(auth.refresh, "granted");
            assert_eq!(auth.access, "new access");
            assert_eq!(auth.expires, 7_000);
            assert!(auth.model.is_none());
            assert!(auth.max_prompt_tokens.is_none());
            let id = auth.machine_id.unwrap();
            assert_eq!(id.len(), 36);
            assert_eq!(&id[14..15], "4");
        }
        other => panic!("{:?}", other),
    }
}
