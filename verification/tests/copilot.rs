use ghcc::auth::{newly_stored, AuthError, CopilotAuth, StoredAuth};
use ghcc::copilot::{
    generate_commit_message, list_models, models_request, plan_generation, use_responses,
    CommitStyle, CopilotError, Generation, Model, ModelPolicy, ModelsResponse, Reply, RequestBody,
    StreamChoice, StreamDelta, StreamResponse, DEFAULT_MODEL,
};
use ghcc::http::{HttpFailure, Method};

fn credentials() -> CopilotAuth {
    CopilotAuth {
        auth_type: "oauth".to_string(),
        refresh: "r".to_string(),
        access: "a".to_string(),
        expires: 0,
        api_endpoint: Some("https://api".to_string()),
        model: None,
        machine_id: Some("m".to_string()),
        max_prompt_tokens: None,
    }
}

fn model(id: &str, offered: bool, state: Option<&str>) -> Model {
    Model {
        id: id.to_string(),
        name: id.to_string(),
        vendor: "v".to_string(),
        model_picker_enabled: offered,
        capabilities: None,
        policy: Some(ModelPolicy {
            state: state.map(|s| s.to_string()),
        }),
        supported_endpoints: None,
    }
}

fn pairs(v: &[(String, String)]) -> Vec<(&str, &str)> {
    v.iter().map(|(n, x)| (n.as_str(), x.as_str())).collect()
}

fn chunk(contents: &[Option<&str>]) -> Option<StreamResponse> {
    Some(StreamResponse {
        choices: contents
            .iter()
            .map(|c| StreamChoice {
                delta: StreamDelta {
                    content: c.map(|s| s.to_string()),
                },
            })
            .collect(),
    })
}

fn plan(auth: &CopilotAuth, via_responses: bool, diff: &str) -> Result<Generation, CopilotError> {
    plan_generation(auth, via_responses, diff, "stat", CommitStyle::SingleLine, "s", "m")
}

fn is_uuid(s: &str) -> bool {
    s.len() == 36
        && s.char_indices().all(|(i, c)| match i {
            8 | 13 | 18 | 23 => c == '-',
            14 => c == '4',
            19 => "89ab".contains(c),
            _ => c.is_ascii_digit() || ('a'..='f').contains(&c),
        })
}

#[test]
fn errors_are_told_apart() {
    assert_eq!(CopilotError::Api("x".to_string()).message(), "API error: x");
    assert_eq!(CopilotError::from_io("x".to_string()).message(), "Network error: x");
    assert_eq!(
        CopilotError::from_auth(AuthError::Timeout).message(),
        "Auth error: Authentication timed out"
    );
}

#[test]
fn a_refused_request_points_to_the_settings() {
    assert_eq!(
        CopilotError::from_failure(&HttpFailure::StatusCode(400)).message(),
        "Network error: Request failed (HTTP 400). Check if the model is enabled at https://github.com/settings/copilot/features"
    );
    assert_eq!(
        CopilotError::from_failure(&HttpFailure::StatusCode(500)).message(),
        "Network error: Request failed (HTTP 500)"
    );
    assert_eq!(
        CopilotError::from_failure(&HttpFailure::Other("tls".to_string())).message(),
        "Network error: Network error: tls"
    );
}

#[test]
fn models_are_asked_for_with_the_token() {
    let request = models_request(&credentials()).unwrap();
    assert_eq!(request.method, Method::Get);
    assert_eq!(request.url, "https://api/models");
    assert_eq!(
        pairs(&request.headers),
        [
            ("Authorization", "Bearer a"),
            ("Copilot-Integration-Id", "vscode-chat"),
            ("Editor-Version", "vscode/1.95.0"),
        ]
    );
    let mut auth = credentials();
    auth.api_endpoint = None;
    assert_eq!(
        models_request(&auth).unwrap_err().message(),
        "API error: No API endpoint found in auth"
    );
}

#[test]
fn only_enabled_models_are_offered() {
    let mut without_policy = model("e", true, None);
    without_policy.policy = None;
    let data = vec![
        model("a", true, Some("enabled")),
        model("b", false, Some("enabled")),
        model("c", true, Some("disabled")),
        model("d", true, None),
        without_policy,
        model("f", true, Some("enabled")),
    ];
    let ids: Vec<String> = list_models(ModelsResponse { data }).into_iter().map(|m| m.id).collect();
    assert_eq!(ids, ["a", "f"]);
}

#[test]
fn the_responses_endpoint_is_used_where_there_is_no_other() {
    let endpoints = |v: &[&str]| Some(v.iter().map(|s| s.to_string()).collect::<Vec<String>>());
    assert!(use_responses(&endpoints(&["/responses"])));
    assert!(use_responses(&endpoints(&["/other", "/responses"])));
    assert!(!use_responses(&endpoints(&["/responses", "/chat/completions"])));
    assert!(!use_responses(&endpoints(&["/chat/completions"])));
    assert!(!use_responses(&endpoints(&[])));
    assert!(!use_responses(&None));
}

#[test]
fn a_chat_is_asked_for_a_message() {
    let g = plan(&credentials(), false, "diff").unwrap();
    assert_eq!(g.request.method, Method::PostJson);
    assert_eq!(g.request.url, "https://api/chat/completions");
    assert_eq!(
        pairs(&g.request.headers),
        [
            ("Authorization", "Bearer a"),
            ("Copilot-Integration-Id", "vscode-chat"),
            ("Editor-Version", "vscode/1.95.0"),
            ("Content-Type", "application/json"),
            ("Accept", "text/event-stream"),
            ("x-request-id", "s"),
            ("vscode-sessionid", "s"),
            ("vscode-machineid", "m"),
        ]
    );
    assert!(g.warning.is_none());
    match g.body {
        RequestBody::Chat(c) => {
            assert_eq!(c.model, DEFAULT_MODEL);
            assert_eq!(c.messages.len(), 2);
            assert_eq!(c.messages[0].role, "system");
            assert!(c.messages[0].content.starts_with("You are an expert software engineer."));
            assert_eq!(c.messages[1].role, "user");
            assert!(c.messages[1].content.ends_with("Files changed:\nstat\n\nDiff:\ndiff"));
            assert_eq!((c.temperature, c.top_p, c.n), (0, 1, 1));
            assert!(c.stream && c.intent);
        }
        RequestBody::Responses(_) => panic!("not a chat"),
    }
}

#[test]
fn both_endpoints_are_asked_the_same() {
    let mut auth = credentials();
    auth.model = Some("chosen".to_string());
    let chat = plan(&auth, false, "diff").unwrap();
    let responses = plan(&auth, true, "diff").unwrap();
    assert_eq!(responses.request.url, "https://api/responses");
    assert_eq!(pairs(&chat.request.headers), pairs(&responses.request.headers));
    match (chat.body, responses.body) {
        (RequestBody::Chat(c), RequestBody::Responses(r)) => {
            assert_eq!(r.input, c.messages[1].content);
            assert_eq!(r.instructions.unwrap(), c.messages[0].content);
            assert_eq!(r.model, "chosen");
            assert_eq!(c.model, "chosen");
            assert!(r.stream);
        }
        _ => panic!("wrong bodies"),
    }
}

#[test]
fn a_diff_that_is_too_large_is_cut_off() {
    let mut auth = credentials();
    auth.max_prompt_tokens = Some(4_001);
    let g = plan(&auth, true, "aaaä").unwrap();
    assert_eq!(
        g.warning.unwrap(),
        "Warning: Diff is large (5 bytes), truncating to ~4 bytes"
    );
    match g.body {
        RequestBody::Responses(r) => {
            assert!(r.input.ends_with("\nDiff:\naaa"));
            assert!(r.input.contains("truncated due to size"));
        }
        RequestBody::Chat(_) => panic!("not the responses endpoint"),
    }
}

#[test]
fn nothing_is_asked_without_an_endpoint_or_room() {
    let mut auth = credentials();
    auth.max_prompt_tokens = Some(4_000);
    assert_eq!(
        plan(&auth, false, "d").unwrap_err().message(),
        "API error: Model context limit too small for commit generation"
    );
    auth.api_endpoint = None;
    assert_eq!(
        plan(&auth, false, "d").unwrap_err().message(),
        "API error: No API endpoint found in auth"
    );
}

#[test]
fn sessions_and_machines_get_random_names() {
    let mut auth = credentials();
    auth.machine_id = None;
    let ask = |auth: CopilotAuth| {
        let generation = generate_commit_message(&newly_stored(auth), "d", "s", CommitStyle::Auto);
        generation.unwrap().request.headers
    };
    let first = ask(auth.clone());
    let second = ask(auth);
    assert_eq!(first[5].1, first[6].1);
    assert!(is_uuid(&first[5].1) && is_uuid(&first[7].1));
    assert_ne!(first[5].1, first[7].1);
    assert_ne!(first[5].1, second[5].1);
    assert_eq!(ask(credentials())[7].1, "m");
}

#[test]
fn the_stored_endpoints_decide_where_is_asked() {
    for (endpoints, url) in [
        (None, "https://api/chat/completions"),
        (Some(vec!["/responses".to_string()]), "https://api/responses"),
    ] {
        let stored = StoredAuth {
            auth: credentials(),
            supported_endpoints: endpoints,
        };
        let generation = generate_commit_message(&stored, "d", "s", CommitStyle::Auto).unwrap();
        assert_eq!(generation.request.url, url);
    }
}

#[test]
fn a_chat_is_read_in_order_up_to_its_end() {
    let mut reply = Reply::new();
    assert_eq!(reply.chat_line(": comment\n"), None);
    assert_eq!(reply.chat_line("data:no blank\n"), None);
    assert_eq!(reply.chat_line("data:  {1} \r\n"), Some("{1}".to_string()));
    reply.chat_chunk(&chunk(&[Some("feat"), Some("ignored")]));
    reply.chat_chunk(&None);
    reply.chat_chunk(&chunk(&[]));
    reply.chat_chunk(&chunk(&[None, Some("ignored")]));
    reply.chat_chunk(&chunk(&[Some("(API): x\n")]));
    assert!(!reply.finished);
    assert_eq!(reply.chat_line("data: [DONE]\n"), None);
    assert!(reply.finished);
    assert_eq!(reply.chat_line("data: {2}\n"), None);
    assert_eq!(reply.finish().unwrap(), "feat(api): x");
}

#[test]
fn the_responses_endpoint_is_read_in_order() {
    let mut reply = Reply::new();
    for line in [
        "event: response.output_text.delta\n",
        "data: {\"type\":\"x\",\"delta\":\"```\\n\"}\n",
        "data: {\"delta\":7}\n",
        "data: {\"other\":\"no\"}\n",
        "data: [\"delta\"]\n",
        "data: {broken\n",
        "data: [DONE]\n",
        "data: {\"delta\":\"fix(A\\u00c4): y\"}\n",
        "data: {\"delta\":\"\\n```\"}",
    ] {
        reply.responses_line(line);
    }
    assert!(!reply.finished);
    assert_eq!(reply.finish().unwrap(), "fix(aä): y");
}

#[test]
fn how_an_answer_is_cut_does_not_matter() {
    let mut whole = Reply::new();
    whole.chat_chunk(&chunk(&[Some("fix: a b")]));
    let mut pieces = Reply::new();
    for piece in ["fix", ":", " a", "", " b"] {
        pieces.chat_chunk(&chunk(&[Some(piece)]));
    }
    assert_eq!(whole.finish().unwrap(), pieces.finish().unwrap());
}

#[test]
fn an_answer_without_a_message_is_an_error() {
    assert_eq!(
        Reply::new().finish().unwrap_err().message(),
        "API error: No valid response chunks from Copilot"
    );
    let mut blank = Reply::new();
    blank.chat_chunk(&chunk(&[Some(" \n ")]));
    assert_eq!(blank.finish().unwrap_err().message(), "API error: Empty response from Copilot");
    let mut empty = Reply::new();
    empty.chat_chunk(&chunk(&[Some("")]));
    assert_eq!(empty.finish().unwrap_err().message(), "API error: Empty response from Copilot");
}

#[test]
fn a_clean_message_is_taken_as_it_is() {
    let mut reply = Reply::new();
    reply.chat_chunk(&chunk(&[Some("feat(auth): add login\n\nBecause.")]));
    assert_eq!(reply.finish().unwrap(), "feat(auth): add login\n\nBecause.");
}
