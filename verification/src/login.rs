//! The login through GitHub's device flow: the user enters a code in a browser, while the
//! program asks again and again whether access has been granted.

use vstd::prelude::*;

use crate::auth;
use crate::auth::{
    copilot_token_request, refresh_token, AuthError, CopilotAuth, CopilotTokenResponse,
};
use crate::http::{push_field, HttpRequest, Method, RequestModel};
use crate::outside;
use crate::outside::random_uuid;
use crate::text;
use crate::text::{concat, pad_right, same_text};

verus! {

/// The client ID under which GitHub knows Copilot clients.
pub const GITHUB_CLIENT_ID: &'static str = "Iv1.b507a08c87ecfe98";

/// The shortest pause between two polls during a login, in seconds.
pub const MIN_POLL_SECONDS: u64 = 5;

/// The extra pause when the server asks to slow down, in seconds.
pub const SLOW_DOWN_SECONDS: u64 = 5;

/// The answer to the request for a device code.
#[derive(Debug)]
pub struct DeviceCodeResponse {
    pub device_code: String,
    pub user_code: String,
    pub verification_uri: String,
    /// How long the code is good for, in seconds.
    pub expires_in: u64,
    /// How long to wait between two polls, in seconds.
    pub interval: u64,
}

/// The answer to a poll for the access token.
#[derive(Debug)]
pub struct AccessTokenResponse {
    pub access_token: Option<String>,
    pub token_type: Option<String>,
    pub error: Option<String>,
    pub error_description: Option<String>,
}

// ---------------------------------------------------------------------------
// Requests
// ---------------------------------------------------------------------------

/// The request for a device code.
pub open spec fn device_code_request_model() -> RequestModel {
    RequestModel {
        method: Method::PostForm,
        url: "https://github.com/login/device/code"@,
        headers: seq![("Accept"@, "application/json"@)],
        form: seq![("client_id"@, GITHUB_CLIENT_ID@), ("scope"@, "read:user"@)],
    }
}

/// The request for a device code.
pub fn device_code_request() -> (r: HttpRequest)
    ensures
        r@ == device_code_request_model(),
{
    let mut headers: Vec<(String, String)> = Vec::new();
    push_field(&mut headers, "Accept", "application/json");
    let mut form: Vec<(String, String)> = Vec::new();
    push_field(&mut form, "client_id", GITHUB_CLIENT_ID);
    push_field(&mut form, "scope", "read:user");
    let r: HttpRequest = HttpRequest {
        method: Method::PostForm,
        url: "https://github.com/login/device/code".to_owned(),
        headers,
        form,
    };
    assert(r@ =~~= device_code_request_model());
    r
}

/// The request that polls for the access token.
pub open spec fn access_token_request_model(device_code: Seq<char>) -> RequestModel {
    RequestModel {
        method: Method::PostForm,
        url: "https://github.com/login/oauth/access_token"@,
        headers: seq![("Accept"@, "application/json"@)],
        form: seq![
            ("client_id"@, GITHUB_CLIENT_ID@),
            ("device_code"@, device_code),
            ("grant_type"@, "urn:ietf:params:oauth:grant-type:device_code"@),
        ],
    }
}

/// The request that polls for the access token.
pub fn access_token_request(device_code: &str) -> (r: HttpRequest)
    ensures
        r@ == access_token_request_model(device_code@),
{
    let mut headers: Vec<(String, String)> = Vec::new();
    push_field(&mut headers, "Accept", "application/json");
    let mut form: Vec<(String, String)> = Vec::new();
    push_field(&mut form, "client_id", GITHUB_CLIENT_ID);
    push_field(&mut form, "device_code", device_code);
    push_field(&mut form, "grant_type", "urn:ietf:params:oauth:grant-type:device_code");
    let r: HttpRequest = HttpRequest {
        method: Method::PostForm,
        url: "https://github.com/login/oauth/access_token".to_owned(),
        headers,
        form,
    };
    assert(r@ =~~= access_token_request_model(device_code@));
    r
}

/// The lines that show the user where to enter which code.
pub open spec fn device_code_notice_lines(response: DeviceCodeResponse) -> Seq<Seq<char>> {
    seq![
        ""@,
        "┌────────────────────────────────────────────────────┐"@,
        "│  Please visit: "@ + text::left_aligned(response.verification_uri@, 35) + " │"@,
        "│  And enter code: "@ + text::left_aligned(response.user_code@, 33) + " │"@,
        "└────────────────────────────────────────────────────┘"@,
        ""@,
    ]
}

/// The lines that show the user where to enter which code.
pub fn device_code_notice(response: &DeviceCodeResponse) -> (r: Vec<String>)
    ensures
        text::texts(r@) == device_code_notice_lines(*response),
{
    let mut visit: String = concat(
        "│  Please visit: ",
        pad_right(response.verification_uri.as_str(), 35).as_str(),
    );
    visit.append(" │");
    let mut enter: String = concat(
        "│  And enter code: ",
        pad_right(response.user_code.as_str(), 33).as_str(),
    );
    enter.append(" │");
    let mut r: Vec<String> = Vec::new();
    r.push("".to_owned());
    r.push("┌────────────────────────────────────────────────────┐".to_owned());
    r.push(visit);
    r.push(enter);
    r.push("└────────────────────────────────────────────────────┘".to_owned());
    r.push("".to_owned());
    assert(text::texts(r@) =~= device_code_notice_lines(*response));
    r
}

// ---------------------------------------------------------------------------
// The flow
// ---------------------------------------------------------------------------

/// Where a login stands.
#[derive(Debug)]
pub enum LoginState {
    /// The answer to the request for a device code is awaited.
    Starting,
    /// The user has this code; the time since then is to be read before the next poll.
    Waiting(DeviceCodeResponse),
    /// The answer to a poll for the access token is awaited.
    Polling(DeviceCodeResponse),
    /// This token was granted; the answer to the request for a Copilot token is awaited.
    Exchanging(String),
    /// The login has succeeded with these credentials.
    Done(CopilotAuth),
    /// The login has failed.
    Failed(AuthError),
}

/// What happened during a login.
#[derive(Debug)]
pub enum LoginEvent {
    /// The request for a device code was answered.
    DeviceCode(Result<DeviceCodeResponse, AuthError>),
    /// So many nanoseconds have passed since the user got the code.
    Elapsed(u128),
    /// A poll for the access token was answered.
    AccessToken(Result<AccessTokenResponse, AuthError>),
    /// The request for a Copilot token was answered.
    CopilotToken(Result<CopilotTokenResponse, AuthError>),
}

/// What is to be done next during a login.
#[derive(Debug)]
pub enum LoginAction {
    /// Pause for so many seconds, then read the time since the user got the code.
    ReadClock(u64),
    /// Pause for so many seconds, then send the poll.
    Poll(u64, HttpRequest),
    /// Send the request for a Copilot token.
    FetchToken(HttpRequest),
    /// Nothing: the login has come to its end.
    Stop,
}

/// `event` is one that can happen in `state`.
pub open spec fn login_expects(state: LoginState, event: LoginEvent) -> bool {
    match (state, event) {
        (LoginState::Starting, LoginEvent::DeviceCode(_)) => true,
        (LoginState::Waiting(_), LoginEvent::Elapsed(_)) => true,
        (LoginState::Polling(_), LoginEvent::AccessToken(_)) => true,
        (LoginState::Exchanging(_), LoginEvent::CopilotToken(Ok(response))) => {
            response.wf() && auth::expiry_fits(response)
        },
        (LoginState::Exchanging(_), LoginEvent::CopilotToken(Err(_))) => true,
        _ => false,
    }
}

/// The device code is no longer good.
pub open spec fn code_is_over(response: DeviceCodeResponse, elapsed_ns: u128) -> bool {
    elapsed_ns > response.expires_in * 1_000_000_000
}

/// How long to pause before a poll, in seconds.
pub open spec fn poll_pause(response: DeviceCodeResponse) -> u64 {
    if response.interval < MIN_POLL_SECONDS {
        MIN_POLL_SECONDS
    } else {
        response.interval
    }
}

/// What an answer to a poll means.
pub open spec fn poll_goes_on(
    device: DeviceCodeResponse,
    answer: AccessTokenResponse,
    version: Seq<char>,
    next: LoginState,
    action: LoginAction,
) -> bool {
    match (answer.access_token, answer.error) {
        (Some(token), _) => {
            &&& next == LoginState::Exchanging(token)
            &&& action matches LoginAction::FetchToken(request) && request@
                == auth::copilot_token_request_model(token@, version)
        },
        (None, None) => {
            &&& next == LoginState::Waiting(device)
            &&& action == LoginAction::ReadClock(0)
        },
        (None, Some(error)) => if error@ == "authorization_pending"@ {
            &&& next == LoginState::Waiting(device)
            &&& action == LoginAction::ReadClock(0)
        } else if error@ == "slow_down"@ {
            &&& next == LoginState::Waiting(device)
            &&& action == LoginAction::ReadClock(SLOW_DOWN_SECONDS)
        } else if error@ == "expired_token"@ {
            &&& next == LoginState::Failed(AuthError::Timeout)
            &&& action == LoginAction::Stop
        } else {
            &&& next matches LoginState::Failed(AuthError::Auth(msg)) && msg@ == (
            match answer.error_description {
                Some(description) => description@,
                None => if error@ == "access_denied"@ {
                    "Access denied"@
                } else {
                    error@
                },
            })
            &&& action == LoginAction::Stop
        },
    }
}

/// `next` is where a login stands, and `action` what is to be done, when `event` happened in
/// `state`; `machine_id` is the ID for a new login.
pub open spec fn login_goes_on(
    state: LoginState,
    event: LoginEvent,
    version: Seq<char>,
    machine_id: Seq<char>,
    next: LoginState,
    action: LoginAction,
) -> bool {
    match (state, event) {
        (LoginState::Starting, LoginEvent::DeviceCode(Ok(device))) => {
            &&& next == LoginState::Waiting(device)
            &&& action == LoginAction::ReadClock(0)
        },
        (LoginState::Waiting(device), LoginEvent::Elapsed(elapsed_ns)) => if code_is_over(
            device,
            elapsed_ns,
        ) {
            &&& next == LoginState::Failed(AuthError::Timeout)
            &&& action == LoginAction::Stop
        } else {
            &&& next == LoginState::Polling(device)
            &&& action matches LoginAction::Poll(pause, request) && pause == poll_pause(device)
                && request@ == access_token_request_model(device.device_code@)
        },
        (LoginState::Polling(device), LoginEvent::AccessToken(Ok(answer))) => poll_goes_on(
            device,
            answer,
            version,
            next,
            action,
        ),
        (LoginState::Exchanging(token), LoginEvent::CopilotToken(Ok(response))) => {
            &&& next matches LoginState::Done(auth) && auth.machine_id matches Some(id) && id@
                == machine_id && auth::are_credentials(
                auth,
                token@,
                response,
                None,
                auth.machine_id,
                None,
            )
            &&& action == LoginAction::Stop
        },
        (LoginState::Starting, LoginEvent::DeviceCode(Err(e)))
        | (LoginState::Polling(_), LoginEvent::AccessToken(Err(e)))
        | (LoginState::Exchanging(_), LoginEvent::CopilotToken(Err(e))) => {
            &&& next == LoginState::Failed(e)
            &&& action == LoginAction::Stop
        },
        _ => false,
    }
}

/// Decides what an answer to a poll means.
fn judge_poll(device: DeviceCodeResponse, answer: AccessTokenResponse, version: &str) -> (r: (
    LoginState,
    LoginAction,
))
    ensures
        poll_goes_on(device, answer, version@, r.0, r.1),
{
    match answer.access_token {
        Some(token) => {
            let request: HttpRequest = copilot_token_request(token.as_str(), version);
            (LoginState::Exchanging(token), LoginAction::FetchToken(request))
        },
        None => match answer.error {
            None => (LoginState::Waiting(device), LoginAction::ReadClock(0)),
            Some(error) => {
                if same_text(error.as_str(), "authorization_pending") {
                    (LoginState::Waiting(device), LoginAction::ReadClock(0))
                } else if same_text(error.as_str(), "slow_down") {
                    (LoginState::Waiting(device), LoginAction::ReadClock(SLOW_DOWN_SECONDS))
                } else if same_text(error.as_str(), "expired_token") {
                    (LoginState::Failed(AuthError::Timeout), LoginAction::Stop)
                } else {
                    let msg: String = match answer.error_description {
                        Some(description) => description,
                        None => if same_text(error.as_str(), "access_denied") {
                            "Access denied".to_owned()
                        } else {
                            error
                        },
                    };
                    (LoginState::Failed(AuthError::Auth(msg)), LoginAction::Stop)
                }
            },
        },
    }
}

/// One step of a login through the device flow; `machine_id` is the ID that new credentials
/// get, and `version` is that of the program.
pub fn login_step(state: LoginState, event: LoginEvent, version: &str, machine_id: String) -> (r: (
    LoginState,
    LoginAction,
))
    requires
        login_expects(state, event),
    ensures
        login_goes_on(state, event, version@, machine_id@, r.0, r.1),
{
    match event {
        LoginEvent::DeviceCode(Ok(device)) => {
            (LoginState::Waiting(device), LoginAction::ReadClock(0))
        },
        LoginEvent::DeviceCode(Err(e)) => (LoginState::Failed(e), LoginAction::Stop),
        LoginEvent::Elapsed(elapsed_ns) => match state {
            LoginState::Waiting(device) => {
                if elapsed_ns > device.expires_in as u128 * 1_000_000_000u128 {
                    (LoginState::Failed(AuthError::Timeout), LoginAction::Stop)
                } else {
                    let pause: u64 = if device.interval < MIN_POLL_SECONDS {
                        MIN_POLL_SECONDS
                    } else {
                        device.interval
                    };
                    let request: HttpRequest = access_token_request(device.device_code.as_str());
                    (LoginState::Polling(device), LoginAction::Poll(pause, request))
                }
            },
            other => (other, LoginAction::Stop),
        },
        LoginEvent::AccessToken(Ok(answer)) => match state {
            LoginState::Polling(device) => judge_poll(device, answer, version),
            other => (other, LoginAction::Stop),
        },
        LoginEvent::AccessToken(Err(e)) => (LoginState::Failed(e), LoginAction::Stop),
        LoginEvent::CopilotToken(Ok(response)) => match state {
            LoginState::Exchanging(token) => {
                let auth: CopilotAuth = refresh_token(
                    token.as_str(),
                    None,
                    Some(machine_id),
                    None,
                    response,
                );
                (LoginState::Done(auth), LoginAction::Stop)
            },
            other => (other, LoginAction::Stop),
        },
        LoginEvent::CopilotToken(Err(e)) => (LoginState::Failed(e), LoginAction::Stop),
    }
}

/// The ID is one for what the event leads to: random where a Copilot token has come, and of
/// no account otherwise.
pub open spec fn is_id_for(event: LoginEvent, id: Seq<char>) -> bool {
    event matches LoginEvent::CopilotToken(Ok(_)) ==> outside::is_random_uuid(id)
}

/// Performs a login through the device flow, event by event. It begins in the state
/// `Starting` with the request of `device_code_request`; new credentials get a random machine
/// ID.
pub fn login(state: LoginState, event: LoginEvent, version: &str) -> (r: (LoginState, LoginAction))
    requires
        login_expects(state, event),
    ensures
        exists|id: Seq<char>|
            #[trigger] is_id_for(event, id) && login_goes_on(
                state,
                event,
                version@,
                id,
                r.0,
                r.1,
            ),
{
    let id: String = match &event {
        LoginEvent::CopilotToken(Ok(_)) => random_uuid(),
        _ => String::new(),
    };
    assert(is_id_for(event, id@));
    login_step(state, event, version, id)
}

// ---------------------------------------------------------------------------
// Laws
// ---------------------------------------------------------------------------

/// `next` is a state that a login can be in when `event` happened in `state`.
pub open spec fn login_follows(
    state: LoginState,
    event: LoginEvent,
    version: Seq<char>,
    next: LoginState,
) -> bool {
    &&& login_expects(state, event)
    &&& exists|id: Seq<char>, action: LoginAction|
        #[trigger] is_id_for(event, id) && #[trigger] login_goes_on(
            state,
            event,
            version,
            id,
            next,
            action,
        )
}

/// The state before event `i` of a login that led to `states`.
pub open spec fn login_state_before(states: Seq<LoginState>, i: int) -> LoginState {
    if i == 0 {
        LoginState::Starting
    } else {
        states[i - 1]
    }
}

/// A run of a login: `events` happened one after the other, and `states` are the states that
/// they led to.
pub open spec fn is_login_run(
    events: Seq<LoginEvent>,
    version: Seq<char>,
    states: Seq<LoginState>,
) -> bool {
    &&& events.len() == states.len()
    &&& forall|i: int|
        0 <= i < events.len() ==> login_follows(
            login_state_before(states, i),
            #[trigger] events[i],
            version,
            states[i],
        )
}

/// Credentials come of a grant: a login that succeeds has been granted the token that the
/// credentials are refreshed with, and their access token is the one that this token was
/// exchanged for. No model is chosen yet, and the machine ID is a random UUID.
pub proof fn law_login_rests_on_a_grant(
    events: Seq<LoginEvent>,
    version: Seq<char>,
    states: Seq<LoginState>,
)
    requires
        is_login_run(events, version, states),
        states.len() > 0,
        states.last() is Done,
    ensures
        ({
            let n = events.len();
            let auth = states.last()->Done_0;
            &&& n >= 2
            &&& events[n - 1] matches LoginEvent::CopilotToken(Ok(response)) && auth.access
                == response.token && auth.expires == response.expires_at * 1000
            &&& events[n - 2] matches LoginEvent::AccessToken(Ok(answer))
                && answer.access_token matches Some(token) && auth.refresh@ == token@
            &&& auth.auth_type@ == "oauth"@
            &&& auth.model is None
            &&& auth.max_prompt_tokens is None
            &&& auth.machine_id matches Some(id) && outside::is_random_uuid(id@)
        }),
{
    let n = events.len();
    assert(login_follows(login_state_before(states, n - 1), events[n - 1], version, states[n - 1]));
    assert(login_follows(login_state_before(states, n - 2), events[n - 2], version, states[n - 2]))
        by {
        assert(login_state_before(states, n - 1) is Exchanging);
    }
}

/// Two polls are never closer together than the server asks for, nor than five seconds.
pub proof fn law_polls_keep_their_distance(
    device: DeviceCodeResponse,
    elapsed_ns: u128,
    version: Seq<char>,
    machine_id: Seq<char>,
    next: LoginState,
    pause: u64,
    request: HttpRequest,
)
    requires
        login_goes_on(
            LoginState::Waiting(device),
            LoginEvent::Elapsed(elapsed_ns),
            version,
            machine_id,
            next,
            LoginAction::Poll(pause, request),
        ),
    ensures
        pause >= 5,
        pause >= device.interval,
{
}

/// Polls are for the code that the user was shown, and only while it is good: every poll
/// follows a reading of the clock by which the code was not over.
pub proof fn law_login_polls_while_the_code_is_good(
    events: Seq<LoginEvent>,
    version: Seq<char>,
    states: Seq<LoginState>,
    i: int,
)
    requires
        is_login_run(events, version, states),
        0 <= i < states.len(),
        states[i] is Polling,
    ensures
        ({
            let device = states[i]->Polling_0;
            &&& events[0] == LoginEvent::DeviceCode(Ok(device))
            &&& events[i] matches LoginEvent::Elapsed(elapsed_ns) && !code_is_over(
                device,
                elapsed_ns,
            )
        }),
{
    lemma_login_device(events, version, states, i);
    assert(login_follows(login_state_before(states, i), events[i], version, states[i]));
}

proof fn lemma_login_device(
    events: Seq<LoginEvent>,
    version: Seq<char>,
    states: Seq<LoginState>,
    i: int,
)
    requires
        is_login_run(events, version, states),
        0 <= i < states.len(),
    ensures
        !(states[i] is Starting),
        states[i] matches LoginState::Polling(device) ==> events[0] == LoginEvent::DeviceCode(
            Ok(device),
        ),
        states[i] matches LoginState::Waiting(device) ==> events[0] == LoginEvent::DeviceCode(
            Ok(device),
        ),
    decreases i,
{
    assert(login_follows(login_state_before(states, i), events[i], version, states[i]));
    if i > 0 {
        lemma_login_device(events, version, states, i - 1);
    }
}

/// While the user has not entered the code, the login goes on: an answer without a token that
/// says so, or that asks to slow down, leads back to waiting with the same device code,
/// whatever else the answer holds.
pub proof fn law_a_pending_login_goes_on(
    device: DeviceCodeResponse,
    answer: AccessTokenResponse,
    error: String,
    version: Seq<char>,
    machine_id: Seq<char>,
    next: LoginState,
    action: LoginAction,
)
    requires
        login_goes_on(
            LoginState::Polling(device),
            LoginEvent::AccessToken(Ok(answer)),
            version,
            machine_id,
            next,
            action,
        ),
        answer.access_token is None,
        answer.error == Some(error),
        error@ == "authorization_pending"@ || error@ == "slow_down"@,
    ensures
        next == LoginState::Waiting(device),
        action == LoginAction::ReadClock(
            if error@ == "slow_down"@ {
                5
            } else {
                0
            },
        ),
{
    reveal_strlit("authorization_pending");
    reveal_strlit("slow_down");
    assert("authorization_pending"@.len() != "slow_down"@.len());
}

/// An answer with neither a token nor an error leads back to waiting too.
pub proof fn law_an_empty_answer_is_asked_again(
    device: DeviceCodeResponse,
    answer: AccessTokenResponse,
    version: Seq<char>,
    machine_id: Seq<char>,
    next: LoginState,
    action: LoginAction,
)
    requires
        login_goes_on(
            LoginState::Polling(device),
            LoginEvent::AccessToken(Ok(answer)),
            version,
            machine_id,
            next,
            action,
        ),
        answer.access_token is None,
        answer.error is None,
    ensures
        next == LoginState::Waiting(device),
        action == LoginAction::ReadClock(0),
{
}

/// A token ends the polling, whatever else the answer holds: it is exchanged for a Copilot
/// token, with a request that carries it.
pub proof fn law_a_token_is_taken(
    device: DeviceCodeResponse,
    answer: AccessTokenResponse,
    token: String,
    version: Seq<char>,
    machine_id: Seq<char>,
    next: LoginState,
    action: LoginAction,
)
    requires
        login_goes_on(
            LoginState::Polling(device),
            LoginEvent::AccessToken(Ok(answer)),
            version,
            machine_id,
            next,
            action,
        ),
        answer.access_token == Some(token),
    ensures
        next == LoginState::Exchanging(token),
        action matches LoginAction::FetchToken(request) && request@.method == Method::Get
            && request@.url == "https://api.github.com/copilot_internal/v2/token"@
            && request@.headers.contains(("Authorization"@, "token "@ + token@)),
{
    let headers = auth::copilot_token_request_model(token@, version).headers;
    assert(headers[0] == ("Authorization"@, "token "@ + token@));
}

/// Any other error ends the login: a code that has expired as a timeout, and the rest with
/// the description of the error where there is one, and otherwise with its name.
pub proof fn law_a_refusal_ends_the_login(
    device: DeviceCodeResponse,
    answer: AccessTokenResponse,
    error: String,
    version: Seq<char>,
    machine_id: Seq<char>,
    next: LoginState,
    action: LoginAction,
)
    requires
        login_goes_on(
            LoginState::Polling(device),
            LoginEvent::AccessToken(Ok(answer)),
            version,
            machine_id,
            next,
            action,
        ),
        answer.access_token is None,
        answer.error == Some(error),
        error@ != "authorization_pending"@,
        error@ != "slow_down"@,
    ensures
        action == LoginAction::Stop,
        error@ == "expired_token"@ ==> next == LoginState::Failed(AuthError::Timeout),
        error@ != "expired_token"@ ==> (next matches LoginState::Failed(AuthError::Auth(msg)) && (
        answer.error_description matches Some(description) ==> msg@ == description@) && (
        answer.error_description is None ==> msg@ == (if error@ == "access_denied"@ {
            "Access denied"@
        } else {
            error@
        }))),
{
}

/// The code is good for as many seconds as the server says, to the nanosecond. While it is,
/// a poll is sent with it, and no sooner than the server asks for; after that the login is
/// over.
pub proof fn law_the_code_is_good_for_its_time(
    device: DeviceCodeResponse,
    elapsed_ns: u128,
    version: Seq<char>,
    machine_id: Seq<char>,
    next: LoginState,
    action: LoginAction,
)
    requires
        login_goes_on(
            LoginState::Waiting(device),
            LoginEvent::Elapsed(elapsed_ns),
            version,
            machine_id,
            next,
            action,
        ),
    ensures
        elapsed_ns <= device.expires_in * 1_000_000_000 ==> next == LoginState::Polling(device) && (
        action matches LoginAction::Poll(pause, request) && pause == (if device.interval > 5 {
            device.interval
        } else {
            5
        }) && request@.method == Method::PostForm && request@.url
            == "https://github.com/login/oauth/access_token"@ && request@.headers == seq![
            ("Accept"@, "application/json"@),
        ] && request@.form == seq![
            ("client_id"@, "Iv1.b507a08c87ecfe98"@),
            ("device_code"@, device.device_code@),
            ("grant_type"@, "urn:ietf:params:oauth:grant-type:device_code"@),
        ]),
        elapsed_ns > device.expires_in * 1_000_000_000 ==> next == LoginState::Failed(
            AuthError::Timeout,
        ) && action == LoginAction::Stop,
{
}

/// A login begins with a code for the user, and ends with the credentials that the server
/// gave for the granted token: the token to refresh them, the access token, its expiry in
/// milliseconds, the address of the API, a new name for the machine, and no model yet.
pub proof fn law_what_a_login_begins_and_ends_with(
    device: DeviceCodeResponse,
    token: String,
    response: CopilotTokenResponse,
    version: Seq<char>,
    machine_id: Seq<char>,
    first: LoginState,
    first_action: LoginAction,
    last: LoginState,
    last_action: LoginAction,
)
    requires
        login_goes_on(
            LoginState::Starting,
            LoginEvent::DeviceCode(Ok(device)),
            version,
            machine_id,
            first,
            first_action,
        ),
        login_goes_on(
            LoginState::Exchanging(token),
            LoginEvent::CopilotToken(Ok(response)),
            version,
            machine_id,
            last,
            last_action,
        ),
        response.wf(),
    ensures
        first == LoginState::Waiting(device),
        first_action == LoginAction::ReadClock(0),
        last_action == LoginAction::Stop,
        last matches LoginState::Done(auth) && auth.auth_type@ == "oauth"@ && auth.refresh@
            == token@ && auth.access == response.token && auth.expires == response.expires_at
            * 1000 && auth.model is None && auth.max_prompt_tokens is None && (
        auth.machine_id matches Some(id) && id@ == machine_id) && (forall|address: Seq<char>|
            text::opt_text(auth.api_endpoint) == Some(address) <==> #[trigger] crate::http::fields(
                response.endpoints@,
            ).contains(("api"@, address))),
{
    let entries = crate::http::fields(response.endpoints@);
    assert forall|address: Seq<char>|
        auth::lookup(entries, "api"@) == Some(address) <==> #[trigger] entries.contains(
            ("api"@, address),
        ) by {
        auth::law_lookup_is_by_name(entries, "api"@, address);
    }
}

/// A request that fails ends the login with that failure, at every stage.
pub proof fn law_a_failed_request_ends_the_login(
    device: DeviceCodeResponse,
    token: String,
    e: AuthError,
    version: Seq<char>,
    machine_id: Seq<char>,
    state: LoginState,
    event: LoginEvent,
    next: LoginState,
    action: LoginAction,
)
    requires
        login_goes_on(state, event, version, machine_id, next, action),
        (state == LoginState::Starting && event == LoginEvent::DeviceCode(Err(e))) || (state
            == LoginState::Polling(device) && event == LoginEvent::AccessToken(Err(e))) || (state
            == LoginState::Exchanging(token) && event == LoginEvent::CopilotToken(Err(e))),
    ensures
        next == LoginState::Failed(e),
        action == LoginAction::Stop,
{
}

/// The user is shown the address to visit and the code to enter, each on a line of its own
/// and uncut.
pub proof fn law_the_user_is_shown_the_address_and_the_code(response: DeviceCodeResponse)
    ensures
        ({
            let lines = device_code_notice_lines(response);
            &&& lines.len() == 6
            &&& text::occurs(lines[2], response.verification_uri@)
            &&& "│  Please visit: "@.is_prefix_of(lines[2])
            &&& text::occurs(lines[3], response.user_code@)
            &&& "│  And enter code: "@.is_prefix_of(lines[3])
        }),
{
    let lines = device_code_notice_lines(response);
    let uri = response.verification_uri@;
    let code = response.user_code@;
    text::law_alignment_adds_blanks_alone(uri, 35, 0);
    text::law_alignment_adds_blanks_alone(code, 33, 0);
    let a = "│  Please visit: "@;
    let b = "│  And enter code: "@;
    assert(lines[2].subrange(0, a.len() as int) =~= a);
    assert(lines[3].subrange(0, b.len() as int) =~= b);
    let x = text::left_aligned(uri, 35);
    let y = text::left_aligned(code, 33);
    assert(x =~= uri + x.skip(uri.len() as int));
    assert(y =~= code + y.skip(code.len() as int));
    assert(lines[2] =~= a + uri + (x.skip(uri.len() as int) + " │"@));
    assert(lines[3] =~= b + code + (y.skip(code.len() as int) + " │"@));
    text::law_to_occur_is_to_be_a_part(lines[2], uri);
    text::law_to_occur_is_to_be_a_part(lines[3], code);
}

/// The code is asked for in the name of the program that GitHub knows, to read who the user
/// is.
pub proof fn law_the_request_for_a_code()
    ensures
        device_code_request_model().method == Method::PostForm,
        device_code_request_model().url == "https://github.com/login/device/code"@,
        device_code_request_model().headers == seq![("Accept"@, "application/json"@)],
        device_code_request_model().form == seq![
            ("client_id"@, "Iv1.b507a08c87ecfe98"@),
            ("scope"@, "read:user"@),
        ],
{
}

/// Every answer can come where it is awaited; of the Copilot token only an expiry that does
/// not fit, and a name that occurs twice, are ruled out.
pub proof fn law_every_awaited_answer_is_taken(
    device: DeviceCodeResponse,
    token: String,
    code: Result<DeviceCodeResponse, AuthError>,
    elapsed_ns: u128,
    answer: Result<AccessTokenResponse, AuthError>,
    response: CopilotTokenResponse,
    e: AuthError,
)
    ensures
        login_expects(LoginState::Starting, LoginEvent::DeviceCode(code)),
        login_expects(LoginState::Waiting(device), LoginEvent::Elapsed(elapsed_ns)),
        login_expects(LoginState::Polling(device), LoginEvent::AccessToken(answer)),
        login_expects(LoginState::Exchanging(token), LoginEvent::CopilotToken(Err(e))),
        login_expects(LoginState::Exchanging(token), LoginEvent::CopilotToken(Ok(response))) <==> (
        response.wf() && response.expires_at * 1000 <= u64::MAX),
{
}

/// The name that new credentials give to the machine is a random one.
pub proof fn law_a_new_machine_gets_a_random_name(
    response: CopilotTokenResponse,
    id: Seq<char>,
)
    requires
        is_id_for(LoginEvent::CopilotToken(Ok(response)), id),
    ensures
        outside::is_random_uuid(id),
{
}

} // verus!
