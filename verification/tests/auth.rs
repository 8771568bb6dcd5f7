use ghcc::auth::{
    auth_file_path, copilot_token_request, current_time_ms, get_valid_auth, is_expired,
    is_expired_at, newly_stored, read_auth, refresh_token, save_action, save_auth, time_ms,
    time_seconds, AuthError, AuthEvent, AuthFile, AuthFileContent, AuthPaths, AuthState,
    CopilotAuth, CopilotTokenResponse, SaveAction, SaveProgress, SaveStep, StoredAuth,
    AUTH_FILE_MODE,
};
use ghcc::http::{HttpFailure, Method};
use std::time::{SystemTime, UNIX_EPOCH};

fn make_auth_with_expires(expires_ms: u64) -> CopilotAuth {
    CopilotAuth {
        auth_type: "oauth".into(),
        refresh: "test_refresh".into(),
        access: "test_access".into(),
        expires: expires_ms,
        api_endpoint: None,
        model: None,
        machine_id: None,
        max_prompt_tokens: None,
    }
}

#[test]
fn test_is_expired_returns_true_for_past_timestamp() {
    // Token expired 1 hour ago
    let one_hour_ago_ms = SystemTime::now()
        .duration_since(UNIX_EPOCH)
        .unwrap()
        .as_millis() as u64
        - (60 * 60 * 1000);

    let auth = make_auth_with_expires(one_hour_ago_ms);
    assert!(is_expired(&auth));
}

#[test]
fn test_is_expired_returns_false_for_future_timestamp() {
    // Token expires in 1 hour
    let one_hour_from_now_ms = SystemTime::now()
        .duration_since(UNIX_EPOCH)
        .unwrap()
        .as_millis() as u64
        + (60 * 60 * 1000);

    let auth = make_auth_with_expires(one_hour_from_now_ms);
    assert!(!is_expired(&auth));
}

#[test]
fn test_is_expired_with_5_minute_buffer() {
    // Token expires in 4 minutes (within 5 minute buffer, so should be "expired")
    let four_mins_from_now_ms = SystemTime::now()
        .duration_since(UNIX_EPOCH)
        .unwrap()
        .as_millis() as u64
        + (4 * 60 * 1000);

    let auth = make_auth_with_expires(four_mins_from_now_ms);
    assert!(
        is_expired(&auth),
        "Token expiring in 4 mins should be considered expired due to 5 min buffer"
    );

    // Token expires in 6 minutes (outside buffer, should NOT be expired)
    let six_mins_from_now_ms = SystemTime::now()
        .duration_since(UNIX_EPOCH)
        .unwrap()
        .as_millis() as u64
        + (6 * 60 * 1000);

    let auth = make_auth_with_expires(six_mins_from_now_ms);
    assert!(
        !is_expired(&auth),
        "Token expiring in 6 mins should NOT be considered expired"
    );
}

#[test]
fn test_auth_file_path_returns_expected_location() {
    let path = auth_file_path().expect("Should return a path");
    let path_str = String::from_utf8_lossy(&path);

    assert!(
        path_str.contains("ghcc"),
        "Path should contain 'ghcc' directory"
    );
    assert!(
        path_str.ends_with("auth.json"),
        "Path should end with 'auth.json'"
    );
}

fn stored(auth: CopilotAuth) -> StoredAuth {
    StoredAuth {
        auth,
        supported_endpoints: Some(vec!["/responses".to_string()]),
    }
}

fn pairs(v: &[(String, String)]) -> Vec<(&str, &str)> {
    v.iter().map(|(n, x)| (n.as_str(), x.as_str())).collect()
}

fn token_response() -> CopilotTokenResponse {
    CopilotTokenResponse {
        token: "new access".to_string(),
        expires_at: 7,
        endpoints: vec![
            ("proxy".to_string(), "https://proxy".to_string()),
            ("api".to_string(), "https://api".to_string()),
        ],
    }
}

#[test]
fn errors_say_what_went_wrong() {
    assert_eq!(AuthError::NotFound.message(), "Credentials not found");
    assert_eq!(AuthError::Network("x".to_string()).message(), "Network error: x");
    assert_eq!(AuthError::Parse("x".to_string()).message(), "Parse error: x");
    assert_eq!(AuthError::from_io("x".to_string()).message(), "File system error: x");
    assert_eq!(AuthError::Auth("x".to_string()).message(), "Authentication error: x");
    assert_eq!(AuthError::Timeout.message(), "Authentication timed out");
}

#[test]
fn failed_requests_are_explained() {
    for (failure, text) in [
        (HttpFailure::StatusCode(401), "Authentication failed. Try 'ghcc login'"),
        (HttpFailure::StatusCode(403), "Access denied. Is your Copilot subscription active?"),
        (HttpFailure::StatusCode(400), "Request failed (HTTP 400)"),
        (HttpFailure::StatusCode(65535), "Request failed (HTTP 65535)"),
        (HttpFailure::Timeout, "Request timed out. Check your connection."),
        (
            HttpFailure::HostNotFound,
            "Could not reach GitHub. Check your internet connection.",
        ),
        (HttpFailure::ConnectionFailed, "Connection failed. Check your network."),
        (HttpFailure::Other("tls".to_string()), "Network error: tls"),
    ] {
        assert_eq!(failure.describe(), text);
        assert!(matches!(AuthError::from_failure(&failure), AuthError::Network(m) if m == text));
    }
}

#[test]
fn credentials_are_read_from_their_file() {
    let file = AuthFile {
        github_copilot: make_auth_with_expires(42),
    };
    assert_eq!(read_auth(AuthFileContent::Parsed(file), "p").unwrap().expires, 42);
    assert!(matches!(
        read_auth(AuthFileContent::Missing, "p"),
        Err(AuthError::NotFound)
    ));
    assert_eq!(
        read_auth(AuthFileContent::Unreadable("denied".to_string()), "p").unwrap_err().message(),
        "File system error: Could not read p: denied"
    );
    assert_eq!(
        read_auth(AuthFileContent::Malformed("eof".to_string()), "p").unwrap_err().message(),
        "Parse error: Invalid auth file: eof"
    );
}

#[test]
fn credentials_are_saved_step_by_step() {
    let mut step = SaveStep::CreateDirectory;
    let mut steps = vec![step];
    while let SaveProgress::Next(next) = save_auth(step, Ok(()), "p") {
        step = next;
        steps.push(step);
    }
    assert_eq!(
        steps,
        [
            SaveStep::CreateDirectory,
            SaveStep::Serialize,
            SaveStep::OpenTemporary,
            SaveStep::WriteTemporary,
            SaveStep::Rename,
        ]
    );
    assert!(matches!(save_auth(step, Ok(()), "p"), SaveProgress::Saved));
}

#[test]
fn the_file_is_replaced_by_the_last_step() {
    let paths = AuthPaths {
        dir: b"d".to_vec(),
        file: b"d/f".to_vec(),
        temp: b"d/t".to_vec(),
    };
    assert!(matches!(
        save_action(SaveStep::CreateDirectory, &paths),
        SaveAction::CreateDirectory { dir } if dir == b"d"
    ));
    assert!(matches!(save_action(SaveStep::Serialize, &paths), SaveAction::Serialize));
    assert!(matches!(
        save_action(SaveStep::OpenTemporary, &paths),
        SaveAction::Open { path, mode } if path == b"d/t" && mode == 0o600
    ));
    assert!(matches!(
        save_action(SaveStep::WriteTemporary, &paths),
        SaveAction::Write { path } if path == b"d/t"
    ));
    assert!(matches!(
        save_action(SaveStep::Rename, &paths),
        SaveAction::Rename { from, to } if from == b"d/t" && to == b"d/f"
    ));
    assert_eq!(AUTH_FILE_MODE, 0o600);
}

#[test]
fn new_credentials_are_stored_without_endpoints() {
    let stored = newly_stored(make_auth_with_expires(3));
    assert_eq!(stored.auth.expires, 3);
    assert!(stored.supported_endpoints.is_none());
}

#[test]
fn saving_stops_at_a_failure() {
    for (step, text) in [
        (SaveStep::CreateDirectory, "File system error: Could not create directory: no"),
        (SaveStep::Serialize, "Parse error: Could not serialize auth: no"),
        (SaveStep::OpenTemporary, "File system error: Could not create temp file: no"),
        (SaveStep::WriteTemporary, "File system error: Could not write temp file: no"),
        (SaveStep::Rename, "File system error: Could not save p: no"),
    ] {
        match save_auth(step, Err("no".to_string()), "p") {
            SaveProgress::Failed(e) => assert_eq!(e.message(), text),
            other => panic!("{:?}", other),
        }
    }
}

#[test]
fn a_reading_of_the_clock_is_a_time() {
    assert_eq!(time_ms(None), 0);
    assert_eq!(time_ms(Some(1_700_000_000_000)), 1_700_000_000_000);
    assert_eq!(time_ms(Some((1u128 << 64) + 7)), 7);
    assert_eq!(time_seconds(None), 0);
    assert_eq!(time_seconds(Some(1_700_000_000_999)), 1_700_000_000);
    assert_eq!(time_seconds(Some(((1u128 << 64) + 7) * 1000)), 7);
}

#[test]
fn the_time_is_that_of_the_clock() {
    let clock = || {
        let since = SystemTime::now().duration_since(UNIX_EPOCH).unwrap();
        since.as_millis() as u64
    };
    let before = clock();
    let now = current_time_ms();
    assert!(before <= now && now <= clock());
}

#[test]
fn expiry_is_exact_and_final() {
    let auth = make_auth_with_expires(1_000_000);
    assert!(!is_expired_at(&auth, 699_999));
    assert!(is_expired_at(&auth, 700_000));
    assert!(is_expired_at(&auth, u64::MAX));
    assert!(is_expired_at(&make_auth_with_expires(u64::MAX), u64::MAX));
}

#[test]
fn a_copilot_token_is_asked_for_with_the_granted_one() {
    let request = copilot_token_request("granted", "1.2");
    assert_eq!(request.method, Method::Get);
    assert_eq!(request.url, "https://api.github.com/copilot_internal/v2/token");
    assert_eq!(
        pairs(&request.headers),
        [
            ("Authorization", "token granted"),
            ("User-Agent", "ghcc/1.2"),
            ("Editor-Version", "ghcc/1.2"),
        ]
    );
    assert!(request.form.is_empty());
}

#[test]
fn a_refresh_keeps_the_choices() {
    let auth = refresh_token(
        "r",
        Some("model".to_string()),
        Some("machine".to_string()),
        Some(9),
        token_response(),
    );
    assert_eq!(auth.auth_type, "oauth");
    assert_eq!(auth.refresh, "r");
    assert_eq!(auth.access, "new access");
    assert_eq!(auth.expires, 7_000);
    assert_eq!(auth.api_endpoint.unwrap(), "https://api");
    assert_eq!(auth.model.unwrap(), "model");
    assert_eq!(auth.machine_id.unwrap(), "machine");
    assert_eq!(auth.max_prompt_tokens, Some(9));
    let mut response = token_response();
    response.endpoints.truncate(1);
    assert!(refresh_token("r", None, None, None, response).api_endpoint.is_none());
}

#[test]
fn good_credentials_are_used_as_they_are() {
    let mut auth = make_auth_with_expires(1_000_000);
    auth.api_endpoint = Some("e".to_string());
    let next = get_valid_auth(AuthState::Reading, AuthEvent::Stored(Ok(stored(auth)), 0));
    assert!(matches!(next, AuthState::Ready(s) if s.auth.expires == 1_000_000));
}

#[test]
fn other_credentials_are_refreshed_and_saved() {
    let expired = {
        let mut auth = make_auth_with_expires(1);
        auth.api_endpoint = Some("e".to_string());
        auth.model = Some("chosen".to_string());
        auth
    };
    let without_endpoint = {
        let mut auth = make_auth_with_expires(u64::MAX);
        auth.model = Some("chosen".to_string());
        auth
    };
    for auth in [expired, without_endpoint] {
        let state = get_valid_auth(AuthState::Reading, AuthEvent::Stored(Ok(stored(auth)), 0));
        assert!(matches!(&state, AuthState::Refreshing(_)));
        let state = get_valid_auth(state, AuthEvent::Token(Ok(token_response())));
        assert!(matches!(&state, AuthState::Saving(_)));
        match get_valid_auth(state, AuthEvent::Saved(Ok(()))) {
            AuthState::Ready(StoredAuth { auth, supported_endpoints }) => {
                assert_eq!(auth.refresh, "test_refresh");
                assert_eq!(auth.access, "new access");
                assert_eq!(auth.model.unwrap(), "chosen");
                assert_eq!(supported_endpoints.unwrap(), ["/responses"]);
            }
            other => panic!("{:?}", other),
        }
    }
}

#[test]
fn a_failure_on_the_way_to_credentials_is_final() {
    let refreshing = AuthState::Refreshing(stored(make_auth_with_expires(1)));
    let saving = AuthState::Saving(stored(make_auth_with_expires(1)));
    for (state, event) in [
        (AuthState::Reading, AuthEvent::Stored(Err(AuthError::Timeout), 0)),
        (refreshing, AuthEvent::Token(Err(AuthError::Timeout))),
        (saving, AuthEvent::Saved(Err(AuthError::Timeout))),
    ] {
        assert!(matches!(
            get_valid_auth(state, event),
            AuthState::Failed(AuthError::Timeout)
        ));
    }
}
