//! The conversation with Copilot: which models there are, what is asked of one to get a
//! commit message, and how the message is read from the stream of the answer.

use vstd::prelude::*;
use vstd::utf8::{encode_utf8, is_ascii_chars};

use crate::auth;
use crate::auth::{AuthError, CopilotAuth, StoredAuth};
use crate::http;
use crate::http::{push_field, HttpFailure, HttpRequest, Method, RequestModel};
use crate::message;
use crate::outside;
use crate::outside::{random_uuid, read_json_member};
use crate::prompt;
use crate::prompt::shorten;
use crate::text;
use crate::text::{
    chars_of, concat, decimal_text, is_empty, same_text, starts_with, string_of, trim,
};

pub use crate::message::{lowercase_scope, strip_markdown_code_block};
pub use crate::prompt::{build_prompt, get_max_diff_bytes, CommitStyle, DEFAULT_MAX_PROMPT_TOKENS};

verus! {

/// The model that is used unless another one is chosen.
pub const DEFAULT_MODEL: &'static str = "gpt-4.1";

/// What the model is told about its task as a whole.
pub const SYSTEM_PROMPT: &'static str = "You are an expert software engineer. Output only the raw commit message. No explanations, markdown, or extra text.";

// ---------------------------------------------------------------------------
// Types
// ---------------------------------------------------------------------------

/// A message of a chat.
#[derive(Debug)]
pub struct ChatMessage {
    pub role: String,
    pub content: String,
}

/// The body of a request to the chat endpoint.
#[derive(Debug)]
pub struct ChatRequest {
    pub messages: Vec<ChatMessage>,
    pub model: String,
    /// The temperature, in whole numbers.
    pub temperature: u32,
    /// The share of the probability that is sampled from, in whole numbers.
    pub top_p: u32,
    pub n: i32,
    pub stream: bool,
    pub intent: bool,
}

/// The body of a request to the responses endpoint.
#[derive(Debug)]
pub struct ResponsesRequest {
    pub model: String,
    pub input: String,
    pub stream: bool,
    pub instructions: Option<String>,
}

/// What a chunk of a chat adds to a choice.
#[derive(Debug)]
pub struct StreamDelta {
    pub content: Option<String>,
}

/// One choice in a chunk of a chat.
#[derive(Debug)]
pub struct StreamChoice {
    pub delta: StreamDelta,
}

/// A chunk of a chat.
#[derive(Debug)]
pub struct StreamResponse {
    pub choices: Vec<StreamChoice>,
}

/// The answer to the request for the models.
#[derive(Debug)]
pub struct ModelsResponse {
    pub data: Vec<Model>,
}

/// A model.
#[derive(Debug, Clone)]
pub struct Model {
    pub id: String,
    pub name: String,
    pub vendor: String,
    pub model_picker_enabled: bool,
    pub capabilities: Option<ModelCapabilities>,
    pub policy: Option<ModelPolicy>,
    pub supported_endpoints: Option<Vec<String>>,
}

/// What a model can do.
#[derive(Debug, Clone)]
pub struct ModelCapabilities {
    pub limits: Option<ModelLimits>,
}

/// The limits of a model.
#[derive(Debug, Clone)]
pub struct ModelLimits {
    pub max_prompt_tokens: Option<u64>,
}

/// Whether a model may be used.
#[derive(Debug, Clone)]
pub struct ModelPolicy {
    pub state: Option<String>,
}

/// What can go wrong in the conversation with Copilot.
#[derive(Debug)]
pub enum CopilotError {
    Auth(AuthError),
    Network(String),
    Api(String),
}

/// What the user is told about an error.
pub open spec fn copilot_error_text(e: CopilotError) -> Seq<char> {
    match e {
        CopilotError::Auth(e) => "Auth error: "@ + auth::auth_error_text(e),
        CopilotError::Network(msg) => "Network error: "@ + msg@,
        CopilotError::Api(msg) => "API error: "@ + msg@,
    }
}

/// What the user is told about a request to Copilot that failed.
pub open spec fn copilot_failure_text(f: HttpFailure) -> Seq<char> {
    if f == HttpFailure::StatusCode(400) {
        "Request failed (HTTP 400). Check if the model is enabled at https://github.com/settings/copilot/features"@
    } else {
        http::failure_text(f)
    }
}

impl CopilotError {
    /// What the user is told about the error.
    pub fn message(&self) -> (r: String)
        ensures
            r@ == copilot_error_text(*self),
    {
        match self {
            CopilotError::Auth(e) => concat("Auth error: ", e.message().as_str()),
            CopilotError::Network(msg) => concat("Network error: ", msg.as_str()),
            CopilotError::Api(msg) => concat("API error: ", msg.as_str()),
        }
    }

    /// The error for a request that failed.
    pub fn from_failure(failure: &HttpFailure) -> (r: CopilotError)
        ensures
            r matches CopilotError::Network(msg) && msg@ == copilot_failure_text(*failure),
    {
        if let HttpFailure::StatusCode(code) = failure {
            if *code == 400 {
                return CopilotError::Network(
                    "Request failed (HTTP 400). Check if the model is enabled at https://github.com/settings/copilot/features".to_owned(),
                );
            }
        }
        CopilotError::Network(failure.describe())
    }

    /// The error for an answer that broke off.
    pub fn from_io(text: String) -> (r: CopilotError)
        ensures
            r == CopilotError::Network(text),
    {
        CopilotError::Network(text)
    }

    /// The error for credentials that are missing.
    pub fn from_auth(e: AuthError) -> (r: CopilotError)
        ensures
            r == CopilotError::Auth(e),
    {
        CopilotError::Auth(e)
    }
}

// ---------------------------------------------------------------------------
// Models
// ---------------------------------------------------------------------------

/// The request for the models, where the API is at `endpoint`.
pub open spec fn models_request_model(endpoint: Seq<char>, access: Seq<char>) -> RequestModel {
    RequestModel {
        method: Method::Get,
        url: endpoint + "/models"@,
        headers: seq![
            ("Authorization"@, "Bearer "@ + access),
            ("Copilot-Integration-Id"@, "vscode-chat"@),
            ("Editor-Version"@, "vscode/1.95.0"@),
        ],
        form: seq![],
    }
}

/// The request for the models, or the error where it is not known where the API is.
pub fn models_request(auth: &CopilotAuth) -> (r: Result<HttpRequest, CopilotError>)
    ensures
        match auth.api_endpoint {
            Some(endpoint) => r matches Ok(request) && request@ == models_request_model(
                endpoint@,
                auth.access@,
            ),
            None => r matches Err(CopilotError::Api(msg)) && msg@
                == "No API endpoint found in auth"@,
        },
{
    match &auth.api_endpoint {
        Some(endpoint) => {
            let mut headers: Vec<(String, String)> = Vec::new();
            push_field(
                &mut headers,
                "Authorization",
                concat("Bearer ", auth.access.as_str()).as_str(),
            );
            push_field(&mut headers, "Copilot-Integration-Id", "vscode-chat");
            push_field(&mut headers, "Editor-Version", "vscode/1.95.0");
            let request: HttpRequest = HttpRequest {
                method: Method::Get,
                url: concat(endpoint.as_str(), "/models"),
                headers,
                form: Vec::new(),
            };
            assert(request@ =~~= models_request_model(endpoint@, auth.access@));
            Ok(request)
        },
        None => Err(CopilotError::Api("No API endpoint found in auth".to_owned())),
    }
}

/// The user may choose the model: it is offered for choice, and its policy says that it is
/// enabled.
pub open spec fn is_enabled(m: Model) -> bool {
    &&& m.model_picker_enabled
    &&& m.policy matches Some(p) && p.state matches Some(state) && state@ == "enabled"@
}

/// Whether the user may choose the model.
fn enabled(m: &Model) -> (r: bool)
    ensures
        r == is_enabled(*m),
{
    if !m.model_picker_enabled {
        return false;
    }
    match &m.policy {
        Some(p) => match &p.state {
            Some(state) => same_text(state.as_str(), "enabled"),
            None => false,
        },
        None => false,
    }
}

/// The models that the user may choose from, in the order in which they were listed.
pub fn list_models(response: ModelsResponse) -> (r: Vec<Model>)
    ensures
        r@ == response.data@.filter(|m: Model| is_enabled(m)),
{
    let mut r: Vec<Model> = Vec::new();
    let ghost all = response.data@;
    let ghost pred = |m: Model| is_enabled(m);
    for m in it: response.data
        invariant
            it.seq() == all,
            pred == (|m: Model| is_enabled(m)),
            r@ == all.take(it.index()).filter(pred),
    {
        proof {
            let i = it.index();
            assert(all.take(i + 1).drop_last() =~= all.take(i));
            reveal(Seq::filter);
        }
        if enabled(&m) {
            r.push(m);
        }
    }
    assert(all.take(all.len() as int) =~= all);
    r
}

// ---------------------------------------------------------------------------
// The request for a commit message
// ---------------------------------------------------------------------------

/// The body of a request for a commit message.
#[derive(Debug)]
pub enum RequestBody {
    /// A request to the chat endpoint.
    Chat(ChatRequest),
    /// A request to the responses endpoint.
    Responses(ResponsesRequest),
}

/// What is to be sent for a commit message, and what the user is told before.
#[derive(Debug)]
pub struct Generation {
    pub request: HttpRequest,
    pub body: RequestBody,
    pub warning: Option<String>,
}

/// What the body of a request is, over texts.
#[verifier::ext_equal]
pub enum BodyModel {
    /// The roles and contents of the messages, and the settings.
    Chat {
        messages: Seq<(Seq<char>, Seq<char>)>,
        model: Seq<char>,
        temperature: u32,
        top_p: u32,
        n: i32,
        stream: bool,
        intent: bool,
    },
    Responses {
        model: Seq<char>,
        input: Seq<char>,
        stream: bool,
        instructions: Option<Seq<char>>,
    },
}

impl View for RequestBody {
    type V = BodyModel;

    open spec fn view(&self) -> BodyModel {
        match self {
            RequestBody::Chat(c) => BodyModel::Chat {
                messages: c.messages@.map_values(|m: ChatMessage| (m.role@, m.content@)),
                model: c.model@,
                temperature: c.temperature,
                top_p: c.top_p,
                n: c.n,
                stream: c.stream,
                intent: c.intent,
            },
            RequestBody::Responses(r) => BodyModel::Responses {
                model: r.model@,
                input: r.input@,
                stream: r.stream,
                instructions: text::opt_text(r.instructions),
            },
        }
    }
}

/// One of the texts is `t`.
pub open spec fn has_text(v: Seq<String>, t: Seq<char>) -> bool {
    exists|i: int| 0 <= i < v.len() && #[trigger] v[i]@ == t
}

/// The model is only to be had through the responses endpoint.
pub open spec fn needs_responses(supported_endpoints: Option<Vec<String>>) -> bool {
    supported_endpoints matches Some(endpoints) && !has_text(endpoints@, "/chat/completions"@)
        && has_text(endpoints@, "/responses"@)
}

/// Whether one of the texts is `t`.
fn holds_text(v: &Vec<String>, t: &str) -> (r: bool)
    ensures
        r == has_text(v@, t@),
{
    for i in 0..v.len()
        invariant
            forall|j: int| 0 <= j < i ==> #[trigger] v@[j]@ != t@,
    {
        if same_text(v[i].as_str(), t) {
            return true;
        }
    }
    false
}

/// Whether the model is only to be had through the responses endpoint.
pub fn use_responses(supported_endpoints: &Option<Vec<String>>) -> (r: bool)
    ensures
        r == needs_responses(*supported_endpoints),
{
    match supported_endpoints {
        Some(endpoints) => {
            !holds_text(endpoints, "/chat/completions") && holds_text(endpoints, "/responses")
        },
        None => false,
    }
}

/// The headers of a request for a commit message.
pub open spec fn generation_headers(
    access: Seq<char>,
    session_id: Seq<char>,
    machine_id: Seq<char>,
) -> Seq<(Seq<char>, Seq<char>)> {
    seq![
        ("Authorization"@, "Bearer "@ + access),
        ("Copilot-Integration-Id"@, "vscode-chat"@),
        ("Editor-Version"@, "vscode/1.95.0"@),
        ("Content-Type"@, "application/json"@),
        ("Accept"@, "text/event-stream"@),
        ("x-request-id"@, session_id),
        ("vscode-sessionid"@, session_id),
        ("vscode-machineid"@, machine_id),
    ]
}

/// The body of a request for a commit message.
pub open spec fn generation_body(
    via_responses: bool,
    model: Seq<char>,
    prompt: Seq<char>,
) -> BodyModel {
    if via_responses {
        BodyModel::Responses {
            model,
            input: prompt,
            stream: true,
            instructions: Some(SYSTEM_PROMPT@),
        }
    } else {
        BodyModel::Chat {
            messages: seq![("system"@, SYSTEM_PROMPT@), ("user"@, prompt)],
            model,
            temperature: 0,
            top_p: 1,
            n: 1,
            stream: true,
            intent: true,
        }
    }
}

/// The prompt for a diff of which at most `max` bytes are to be shown.
pub open spec fn limited_prompt(
    diff: Seq<char>,
    diff_stat: Seq<char>,
    style: CommitStyle,
    max: nat,
) -> Seq<char> {
    prompt::prompt_text(
        prompt::shortened(diff, max as int),
        diff_stat,
        style,
        encode_utf8(diff).len() > max,
    )
}

/// What the user is told about a diff of which at most `max` bytes are shown.
pub open spec fn size_warning(diff: Seq<char>, max: nat) -> Option<Seq<char>> {
    if encode_utf8(diff).len() > max {
        Some(
            "Warning: Diff is large ("@ + text::decimal(encode_utf8(diff).len())
                + " bytes), truncating to ~"@ + text::decimal(max) + " bytes"@,
        )
    } else {
        None
    }
}

/// What is asked of Copilot for a commit message: `r` is what is to be sent, or the error
/// that comes before anything is sent.
pub open spec fn is_generation(
    r: Result<Generation, CopilotError>,
    auth: CopilotAuth,
    via_responses: bool,
    diff: Seq<char>,
    diff_stat: Seq<char>,
    style: CommitStyle,
    session_id: Seq<char>,
    machine_id: Seq<char>,
) -> bool {
    let max = prompt::max_diff_bytes(auth.max_prompt_tokens);
    match auth.api_endpoint {
        None => r matches Err(CopilotError::Api(msg)) && msg@ == "No API endpoint found in auth"@,
        Some(endpoint) => if max == 0 {
            r matches Err(CopilotError::Api(msg)) && msg@
                == "Model context limit too small for commit generation"@
        } else {
            r matches Ok(g) && {
                &&& g.request@ == (RequestModel {
                    method: Method::PostJson,
                    url: endpoint@ + (if via_responses {
                        "/responses"@
                    } else {
                        "/chat/completions"@
                    }),
                    headers: generation_headers(auth.access@, session_id, machine_id),
                    form: seq![],
                })
                &&& g.body@ == generation_body(
                    via_responses,
                    match auth.model {
                        Some(model) => model@,
                        None => DEFAULT_MODEL@,
                    },
                    limited_prompt(diff, diff_stat, style, max),
                )
                &&& text::opt_text(g.warning) == size_warning(diff, max)
            }
        },
    }
}

/// The body of a request for a commit message.
fn body_of(via_responses: bool, model: &str, prompt: String) -> (r: RequestBody)
    ensures
        r@ == generation_body(via_responses, model@, prompt@),
{
    if via_responses {
        RequestBody::Responses(
            ResponsesRequest {
                model: model.to_owned(),
                input: prompt,
                stream: true,
                instructions: Some(SYSTEM_PROMPT.to_owned()),
            },
        )
    } else {
        let mut messages: Vec<ChatMessage> = Vec::new();
        messages.push(
            ChatMessage { role: "system".to_owned(), content: SYSTEM_PROMPT.to_owned() },
        );
        messages.push(ChatMessage { role: "user".to_owned(), content: prompt });
        let r: RequestBody = RequestBody::Chat(
            ChatRequest {
                messages,
                model: model.to_owned(),
                temperature: 0,
                top_p: 1,
                n: 1,
                stream: true,
                intent: true,
            },
        );
        assert(r@ =~~= generation_body(via_responses, model@, prompt@));
        r
    }
}

/// What the user is told about a diff that is cut off.
fn warning_of(len: usize, max: usize) -> (r: String)
    ensures
        r@ == "Warning: Diff is large ("@ + text::decimal(len as nat)
            + " bytes), truncating to ~"@ + text::decimal(max as nat) + " bytes"@,
{
    let mut r: String = "Warning: Diff is large (".to_owned();
    r.append(decimal_text(len as u64).as_str());
    r.append(" bytes), truncating to ~");
    r.append(decimal_text(max as u64).as_str());
    r.append(" bytes");
    r
}

/// What is to be sent for a commit message, through the endpoint that is named, in a session
/// and from a machine with these names.
pub fn plan_generation(
    auth: &CopilotAuth,
    via_responses: bool,
    diff: &str,
    diff_stat: &str,
    style: CommitStyle,
    session_id: &str,
    machine_id: &str,
) -> (r: Result<Generation, CopilotError>)
    requires
        auth.api_endpoint is Some ==> prompt::max_diff_bytes(auth.max_prompt_tokens)
            <= usize::MAX,
    ensures
        is_generation(
            r,
            *auth,
            via_responses,
            diff@,
            diff_stat@,
            style,
            session_id@,
            machine_id@,
        ),
{
    let endpoint: &str = match &auth.api_endpoint {
        Some(endpoint) => endpoint.as_str(),
        None => {
            return Err(CopilotError::Api("No API endpoint found in auth".to_owned()));
        },
    };
    let max: usize = get_max_diff_bytes(auth.max_prompt_tokens);
    if max == 0 {
        return Err(
            CopilotError::Api("Model context limit too small for commit generation".to_owned()),
        );
    }
    let model: &str = match &auth.model {
        Some(model) => model.as_str(),
        None => DEFAULT_MODEL,
    };
    let len: usize = diff.as_bytes().len();
    let is_truncated: bool = len > max;
    let warning: Option<String> = if is_truncated {
        Some(warning_of(len, max))
    } else {
        None
    };
    let prompt: String = build_prompt(shorten(diff, max), diff_stat, style, is_truncated);
    let mut headers: Vec<(String, String)> = Vec::new();
    push_field(
        &mut headers,
        "Authorization",
        concat("Bearer ", auth.access.as_str()).as_str(),
    );
    push_field(&mut headers, "Copilot-Integration-Id", "vscode-chat");
    push_field(&mut headers, "Editor-Version", "vscode/1.95.0");
    push_field(&mut headers, "Content-Type", "application/json");
    push_field(&mut headers, "Accept", "text/event-stream");
    push_field(&mut headers, "x-request-id", session_id);
    push_field(&mut headers, "vscode-sessionid", session_id);
    push_field(&mut headers, "vscode-machineid", machine_id);
    assert(http::fields(headers@) =~= generation_headers(
        auth.access@,
        session_id@,
        machine_id@,
    ));
    let request: HttpRequest = HttpRequest {
        method: Method::PostJson,
        url: concat(
            endpoint,
            if via_responses {
                "/responses"
            } else {
                "/chat/completions"
            },
        ),
        headers,
        form: Vec::new(),
    };
    assert(request@.form =~= seq![]);
    Ok(Generation { request, body: body_of(via_responses, model, prompt), warning })
}

/// The machine is known by this name: its own, or a random one where it has none.
pub open spec fn is_machine_name(auth: CopilotAuth, machine_id: Seq<char>) -> bool {
    match auth.machine_id {
        Some(id) => machine_id == id@,
        None => outside::is_random_uuid(machine_id),
    }
}

/// What is to be sent for a commit message. The session gets a new random name. So does the
/// machine, unless it has one.
pub fn generate_commit_message(
    stored: &StoredAuth,
    diff: &str,
    diff_stat: &str,
    style: CommitStyle,
) -> (r: Result<Generation, CopilotError>)
    requires
        stored.auth.api_endpoint is Some ==> prompt::max_diff_bytes(
            stored.auth.max_prompt_tokens,
        ) <= usize::MAX,
    ensures
        exists|session_id: Seq<char>, machine_id: Seq<char>|
            {
                &&& #[trigger] outside::is_random_uuid(session_id)
                &&& #[trigger] is_machine_name(stored.auth, machine_id)
                &&& is_generation(
                    r,
                    stored.auth,
                    needs_responses(stored.supported_endpoints),
                    diff@,
                    diff_stat@,
                    style,
                    session_id,
                    machine_id,
                )
            },
{
    let session_id: String = random_uuid();
    let machine_id: String = match &stored.auth.machine_id {
        Some(id) => id.clone(),
        None => random_uuid(),
    };
    let r: Result<Generation, CopilotError> = plan_generation(
        &stored.auth,
        use_responses(&stored.supported_endpoints),
        diff,
        diff_stat,
        style,
        session_id.as_str(),
        machine_id.as_str(),
    );
    assert(outside::is_random_uuid(session_id@));
    assert(is_machine_name(stored.auth, machine_id@));
    r
}

// ---------------------------------------------------------------------------
// The answer
// ---------------------------------------------------------------------------

/// The data that a line of an event stream carries: what stands behind `data: `, without the
/// white space around it.
pub open spec fn event_data(line: Seq<char>) -> Option<Seq<char>> {
    if "data: "@.is_prefix_of(line) {
        Some(text::trimmed(line.skip(6)))
    } else {
        None
    }
}

/// The data that a line of an event stream carries.
fn data_of(line: &str) -> (r: Option<String>)
    ensures
        text::opt_text(r) == event_data(line@),
{
    proof {
        reveal_strlit("data: ");
    }
    if !starts_with(line, "data: ") {
        return None;
    }
    let chars: Vec<char> = chars_of(line);
    let rest: String = string_of(&chars, 6, chars.len());
    assert(rest@ =~= line@.skip(6));
    Some(trim(rest.as_str()))
}

/// The text that a chunk of a chat adds to the message: the content of the first choice.
pub open spec fn chunk_text(chunk: Option<StreamResponse>) -> Option<Seq<char>> {
    match chunk {
        Some(response) => if response.choices@.len() == 0 {
            None
        } else {
            text::opt_text(response.choices@[0].delta.content)
        },
        None => None,
    }
}

/// The text that a line from the responses endpoint adds to the message: the string under
/// `delta` in the data of the line.
pub open spec fn delta_text(line: Seq<char>) -> Option<Seq<char>> {
    match event_data(line) {
        Some(data) => outside::json_string_member(data, "delta"@),
        None => None,
    }
}

/// What has been read of an answer.
#[derive(Debug)]
pub struct Reply {
    /// The text so far.
    pub message: String,
    /// Some text has come, even if it was empty.
    pub received: bool,
    /// The end of the answer has been seen.
    pub finished: bool,
}

/// What has been read of an answer, over texts.
#[verifier::ext_equal]
pub struct ReplyModel {
    pub message: Seq<char>,
    pub received: bool,
    pub finished: bool,
}

impl View for Reply {
    type V = ReplyModel;

    open spec fn view(&self) -> ReplyModel {
        ReplyModel { message: self.message@, received: self.received, finished: self.finished }
    }
}

/// An answer of which nothing has been read.
pub open spec fn nothing_read() -> ReplyModel {
    ReplyModel { message: seq![], received: false, finished: false }
}

/// The answer with a text added, where there is one to add.
pub open spec fn with_text(m: ReplyModel, added: Option<Seq<char>>) -> ReplyModel {
    match added {
        Some(s) => ReplyModel { message: m.message + s, received: true, finished: m.finished },
        None => m,
    }
}

/// The answer after a line of a chat, but for the chunk that the line may carry.
pub open spec fn after_chat_line(m: ReplyModel, line: Seq<char>) -> ReplyModel {
    if event_data(line) == Some("[DONE]"@) {
        ReplyModel { finished: true, ..m }
    } else {
        m
    }
}

/// The chunk that is to be parsed after a line of a chat.
pub open spec fn chunk_of(m: ReplyModel, line: Seq<char>) -> Option<Seq<char>> {
    if m.finished || event_data(line) == Some("[DONE]"@) {
        None
    } else {
        event_data(line)
    }
}

/// The commit message that the text of an answer holds.
pub open spec fn message_in(s: Seq<char>) -> Seq<char> {
    message::with_lowercase_scope(message::without_fence(text::trimmed(s)))
}

/// What comes of an answer that has been read: a commit message, or an error where there is
/// none in it.
pub open spec fn is_outcome(r: Result<String, CopilotError>, m: ReplyModel) -> bool {
    if !m.received {
        r matches Err(CopilotError::Api(msg)) && msg@ == "No valid response chunks from Copilot"@
    } else if message_in(m.message).len() == 0 {
        r matches Err(CopilotError::Api(msg)) && msg@ == "Empty response from Copilot"@
    } else {
        r matches Ok(message) && message@ == message_in(m.message)
    }
}

impl Reply {
    /// An answer of which nothing has been read.
    pub fn new() -> (r: Reply)
        ensures
            r@ == nothing_read(),
    {
        let r: Reply = Reply { message: "".to_owned(), received: false, finished: false };
        proof {
            reveal_strlit("");
        }
        assert(r@ =~= nothing_read());
        r
    }

    /// Takes a line of a chat. The result is the chunk that is to be parsed and handed to
    /// `chat_chunk`, where the line carries one.
    pub fn chat_line(&mut self, line: &str) -> (r: Option<String>)
        ensures
            final(self)@ == after_chat_line(old(self)@, line@),
            text::opt_text(r) == chunk_of(old(self)@, line@),
    {
        match data_of(line) {
            Some(data) => {
                if same_text(data.as_str(), "[DONE]") {
                    self.finished = true;
                    None
                } else if self.finished {
                    None
                } else {
                    Some(data)
                }
            },
            None => None,
        }
    }

    /// Takes a chunk of a chat, or `None` for one that could not be parsed.
    pub fn chat_chunk(&mut self, chunk: &Option<StreamResponse>)
        ensures
            final(self)@ == with_text(old(self)@, chunk_text(*chunk)),
            chunk matches Some(response) ==> (response.choices@.len() > 0 ==> (
            response.choices@[0].delta.content matches Some(content) ==> {
                &&& final(self).message@ == old(self).message@ + content@
                &&& final(self).received
                &&& final(self).finished == old(self).finished
            })),
    {
        if let Some(response) = chunk {
            if response.choices.len() > 0 {
                if let Some(content) = &response.choices[0].delta.content {
                    self.received = true;
                    self.message.append(content.as_str());
                }
            }
        }
    }

    /// Takes a line from the responses endpoint.
    pub fn responses_line(&mut self, line: &str)
        ensures
            final(self)@ == with_text(old(self)@, delta_text(line@)),
    {
        if let Some(data) = data_of(line) {
            if let Some(delta) = read_json_member(data.as_str(), "delta") {
                self.received = true;
                self.message.append(delta.as_str());
            }
        }
    }

    /// The commit message, when the whole answer has been read.
    pub fn finish(self) -> (r: Result<String, CopilotError>)
        ensures
            is_outcome(r, self@),
            self@.received ==> ({
                let stripped = message::without_fence(text::trimmed(self@.message));
                message::scope_of(stripped) matches Some(scope) ==> (is_ascii_chars(scope) ==> (r
                    matches Ok(message) && message@ == message::with_scope(
                    stripped,
                    message::ascii_lowercase(scope),
                )))
            }),
    {
        if !self.received {
            return Err(CopilotError::Api("No valid response chunks from Copilot".to_owned()));
        }
        let stripped: String = strip_markdown_code_block(trim(self.message.as_str()).as_str());
        let message: String = lowercase_scope(stripped.as_str());
        proof {
            if let Some(scope) = message::scope_of(stripped@) {
                message::law_stripped_text_is_trimmed(text::trimmed(self.message@));
                message::law_a_new_scope_keeps_a_message_trimmed(
                    stripped@,
                    outside::lowercase(scope),
                );
            }
        }
        if is_empty(message.as_str()) {
            return Err(CopilotError::Api("Empty response from Copilot".to_owned()));
        }
        Ok(message)
    }
}

// ---------------------------------------------------------------------------
// Laws
// ---------------------------------------------------------------------------

/// The user may choose a model if and only if it is listed and enabled.
pub proof fn law_the_choice_is_the_enabled_models(data: Seq<Model>, m: Model)
    ensures
        data.filter(|m: Model| is_enabled(m)).contains(m) <==> data.contains(m) && is_enabled(m),
{
    text::lemma_filtered(data, |m: Model| is_enabled(m), m);
}

/// Through both endpoints the same is asked, in the same words and with the same headers.
pub proof fn law_both_endpoints_are_asked_the_same(
    chat: Generation,
    responses: Generation,
    auth: CopilotAuth,
    diff: Seq<char>,
    diff_stat: Seq<char>,
    style: CommitStyle,
    session_id: Seq<char>,
    machine_id: Seq<char>,
)
    requires
        is_generation(Ok(chat), auth, false, diff, diff_stat, style, session_id, machine_id),
        is_generation(Ok(responses), auth, true, diff, diff_stat, style, session_id, machine_id),
    ensures
        chat.request@.headers == responses.request@.headers,
        text::opt_text(chat.warning) == text::opt_text(responses.warning),
        match (chat.body@, responses.body@) {
            (
                BodyModel::Chat { messages, model, .. },
                BodyModel::Responses { model: other_model, input, instructions, .. },
            ) => model == other_model && instructions == Some(SYSTEM_PROMPT@) && messages == seq![
                ("system"@, SYSTEM_PROMPT@),
                ("user"@, input),
            ],
            _ => false,
        },
{
}

/// The answer after all the lines of a chat, where `parse` gives the chunk that the data of
/// a line is.
pub open spec fn chat_reply(
    m: ReplyModel,
    lines: Seq<Seq<char>>,
    parse: spec_fn(Seq<char>) -> Option<StreamResponse>,
) -> ReplyModel
    decreases lines.len(),
{
    if lines.len() == 0 {
        m
    } else {
        let next = after_chat_line(m, lines[0]);
        chat_reply(
            match chunk_of(m, lines[0]) {
                Some(data) => with_text(next, chunk_text(parse(data))),
                None => next,
            },
            lines.drop_first(),
            parse,
        )
    }
}

/// The texts that the lines of a chat carry before the end is announced.
pub open spec fn chat_texts(
    lines: Seq<Seq<char>>,
    parse: spec_fn(Seq<char>) -> Option<StreamResponse>,
) -> Seq<Seq<char>>
    decreases lines.len(),
{
    if lines.len() == 0 || event_data(lines[0]) == Some("[DONE]"@) {
        seq![]
    } else {
        let rest = chat_texts(lines.drop_first(), parse);
        match event_data(lines[0]) {
            Some(data) => match chunk_text(parse(data)) {
                Some(s) => seq![s] + rest,
                None => rest,
            },
            None => rest,
        }
    }
}

/// An answer whose end has been seen does not change any more.
proof fn lemma_finished(
    m: ReplyModel,
    lines: Seq<Seq<char>>,
    parse: spec_fn(Seq<char>) -> Option<StreamResponse>,
)
    requires
        m.finished,
    ensures
        chat_reply(m, lines, parse) == m,
    decreases lines.len(),
{
    if lines.len() > 0 {
        lemma_finished(m, lines.drop_first(), parse);
    }
}

/// The answer of a chat is the texts of its chunks, one after the other, up to the line that
/// announces the end. Some text has come if and only if there is one.
pub proof fn law_a_chat_is_read_in_order(
    m: ReplyModel,
    lines: Seq<Seq<char>>,
    parse: spec_fn(Seq<char>) -> Option<StreamResponse>,
)
    requires
        !m.finished,
    ensures
        chat_reply(m, lines, parse).message == m.message + chat_texts(lines, parse).flatten(),
        chat_reply(m, lines, parse).received == (m.received || chat_texts(lines, parse).len()
            > 0),
    decreases lines.len(),
{
    let texts = chat_texts(lines, parse);
    if lines.len() > 0 {
        let next = after_chat_line(m, lines[0]);
        if next.finished {
            lemma_finished(next, lines.drop_first(), parse);
        } else {
            let rest = chat_texts(lines.drop_first(), parse);
            if let Some(data) = event_data(lines[0]) {
                if let Some(s) = chunk_text(parse(data)) {
                    assert(texts.drop_first() =~= rest);
                    assert(texts.first() == s);
                    law_a_chat_is_read_in_order(
                        with_text(next, Some(s)),
                        lines.drop_first(),
                        parse,
                    );
                } else {
                    law_a_chat_is_read_in_order(m, lines.drop_first(), parse);
                }
            } else {
                law_a_chat_is_read_in_order(m, lines.drop_first(), parse);
            }
        }
    }
}

/// What comes after the line that announces the end of a chat does not count.
pub proof fn law_nothing_counts_after_the_end(
    m: ReplyModel,
    lines: Seq<Seq<char>>,
    end: Seq<char>,
    more: Seq<Seq<char>>,
    parse: spec_fn(Seq<char>) -> Option<StreamResponse>,
)
    requires
        event_data(end) == Some("[DONE]"@),
    ensures
        chat_reply(m, lines + seq![end] + more, parse) == chat_reply(
            m,
            lines + seq![end],
            parse,
        ),
    decreases lines.len(),
{
    let short = lines + seq![end];
    let long = short + more;
    if lines.len() == 0 {
        let done = after_chat_line(m, end);
        assert(long[0] == end && short[0] == end);
        lemma_finished(done, long.drop_first(), parse);
        lemma_finished(done, short.drop_first(), parse);
    } else {
        let rest = lines.drop_first();
        assert(long.drop_first() =~= rest + seq![end] + more);
        assert(short.drop_first() =~= rest + seq![end]);
        assert(long[0] == lines[0] && short[0] == lines[0]);
        let next = after_chat_line(m, lines[0]);
        law_nothing_counts_after_the_end(
            match chunk_of(m, lines[0]) {
                Some(data) => with_text(next, chunk_text(parse(data))),
                None => next,
            },
            rest,
            end,
            more,
            parse,
        );
    }
}

/// The answer after all the lines from the responses endpoint.
pub open spec fn responses_reply(m: ReplyModel, lines: Seq<Seq<char>>) -> ReplyModel
    decreases lines.len(),
{
    if lines.len() == 0 {
        m
    } else {
        responses_reply(with_text(m, delta_text(lines[0])), lines.drop_first())
    }
}

/// The texts that the lines from the responses endpoint carry.
pub open spec fn responses_texts(lines: Seq<Seq<char>>) -> Seq<Seq<char>>
    decreases lines.len(),
{
    if lines.len() == 0 {
        seq![]
    } else {
        let rest = responses_texts(lines.drop_first());
        match delta_text(lines[0]) {
            Some(s) => seq![s] + rest,
            None => rest,
        }
    }
}

/// The answer of the responses endpoint is the texts of its lines, one after the other. Some
/// text has come if and only if there is one.
pub proof fn law_responses_are_read_in_order(m: ReplyModel, lines: Seq<Seq<char>>)
    ensures
        responses_reply(m, lines).message == m.message + responses_texts(lines).flatten(),
        responses_reply(m, lines).received == (m.received || responses_texts(lines).len() > 0),
    decreases lines.len(),
{
    if lines.len() > 0 {
        let texts = responses_texts(lines);
        let added = delta_text(lines[0]);
        law_responses_are_read_in_order(with_text(m, added), lines.drop_first());
        if let Some(s) = added {
            assert(texts.drop_first() =~= responses_texts(lines.drop_first()));
            assert(texts.first() == s);
        }
    }
}

/// How a text is cut into pieces on its way does not matter.
pub proof fn law_the_pieces_of_an_answer_do_not_matter(
    m: ReplyModel,
    a: Seq<char>,
    b: Seq<char>,
)
    ensures
        with_text(with_text(m, Some(a)), Some(b)) == with_text(m, Some(a + b)),
{
    assert(m.message + a + b =~= m.message + (a + b));
}

/// A commit message has no white space at its ends, and is never empty.
pub proof fn law_a_message_is_trimmed_and_not_empty(r: String, m: ReplyModel)
    requires
        is_outcome(Ok(r), m),
    ensures
        text::is_trimmed(r@),
        r@.len() > 0,
{
    let stripped = message::without_fence(text::trimmed(m.message));
    message::law_stripped_text_is_trimmed(text::trimmed(m.message));
    if let Some(scope) = message::scope_of(stripped) {
        message::law_a_new_scope_keeps_a_message_trimmed(stripped, outside::lowercase(scope));
    }
}

/// A message that has nothing to be stripped off, and no scope or one in lower case, is
/// taken as it is.
pub proof fn law_a_clean_message_is_taken_as_it_is(s: Seq<char>)
    requires
        text::is_trimmed(s),
        !message::is_fenced(s),
        message::scope_of(s) matches Some(scope) ==> outside::lowercase(scope) == scope,
    ensures
        message_in(s) == s,
{
    text::lemma_trimmed(s);
    message::law_unfenced_text_is_only_trimmed(s);
    message::law_the_own_scope_changes_nothing(s);
}

/// A chunk adds the content of its first choice to the message, exactly as it is, white
/// space included.
pub proof fn law_a_chunk_is_added_as_it_is(
    m: ReplyModel,
    response: StreamResponse,
    content: String,
)
    requires
        response.choices@.len() > 0,
        response.choices@[0].delta.content == Some(content),
    ensures
        with_text(m, chunk_text(Some(response))).message == m.message + content@,
        with_text(m, chunk_text(Some(response))).received,
        with_text(m, chunk_text(Some(response))).finished == m.finished,
{
}

/// What is no chunk, has no choice, or whose first choice has no content, adds nothing.
pub proof fn law_an_empty_chunk_adds_nothing(m: ReplyModel, chunk: Option<StreamResponse>)
    requires
        chunk matches Some(response) ==> response.choices@.len() == 0
            || response.choices@[0].delta.content is None,
    ensures
        with_text(m, chunk_text(chunk)) == m,
{
}

/// The answer after all of the chunks of a chat.
pub open spec fn after_chunks(m: ReplyModel, chunks: Seq<StreamResponse>) -> ReplyModel
    decreases chunks.len(),
{
    if chunks.len() == 0 {
        m
    } else {
        with_text(after_chunks(m, chunks.drop_last()), chunk_text(Some(chunks.last())))
    }
}

/// However a text is cut into the contents of chunks, reading the chunks leaves exactly that
/// text.
pub proof fn law_a_text_comes_through_whole(
    m: ReplyModel,
    chunks: Seq<StreamResponse>,
    contents: Seq<Seq<char>>,
    whole: Seq<char>,
)
    requires
        contents.len() == chunks.len(),
        contents.flatten() == whole,
        forall|i: int|
            0 <= i < chunks.len() ==> {
                &&& (#[trigger] chunks[i]).choices@.len() > 0
                &&& chunks[i].choices@[0].delta.content matches Some(c)
                &&& c@ == contents[i]
            },
    ensures
        after_chunks(m, chunks).message == m.message + whole,
        after_chunks(m, chunks).received == (m.received || chunks.len() > 0),
    decreases chunks.len(),
{
    if chunks.len() > 0 {
        let before = contents.drop_last();
        let last = contents.last();
        assert(contents =~= before.push(last));
        assert forall|i: int| 0 <= i < chunks.drop_last().len() implies {
            &&& (#[trigger] chunks.drop_last()[i]).choices@.len() > 0
            &&& chunks.drop_last()[i].choices@[0].delta.content matches Some(c)
            &&& c@ == before[i]
        } by {
            assert(chunks.drop_last()[i] == chunks[i]);
        }
        law_a_text_comes_through_whole(m, chunks.drop_last(), before, before.flatten());
        let c = chunks[chunks.len() - 1].choices@[0].delta.content->0;
        law_a_chunk_is_added_as_it_is(
            after_chunks(m, chunks.drop_last()),
            chunks.last(),
            c,
        );
        lemma_flatten_push(before, last);
        assert(m.message + before.flatten() + last =~= m.message + (before.flatten() + last));
    } else {
        assert(m.message + whole =~= m.message);
    }
}

/// One more part makes the whole longer by that part.
proof fn lemma_flatten_push(parts: Seq<Seq<char>>, part: Seq<char>)
    ensures
        parts.push(part).flatten() == parts.flatten() + part,
    decreases parts.len(),
{
    let all = parts.push(part);
    if parts.len() == 0 {
        assert(all.drop_first() =~= parts);
        assert(all.flatten() =~= parts.flatten() + part);
    } else {
        assert(all.drop_first() =~= parts.drop_first().push(part));
        lemma_flatten_push(parts.drop_first(), part);
        assert(all.flatten() =~= parts.flatten() + part);
    }
}

/// A line that reads `data: ` and then something, with whatever white space around that,
/// carries it. Any other line carries nothing.
pub proof fn law_a_line_carries_what_follows_data(
    before: Seq<char>,
    data: Seq<char>,
    after: Seq<char>,
    other: Seq<char>,
)
    requires
        text::is_blank(before),
        text::is_blank(after),
        text::is_trimmed(data),
        other.len() < 6 || other.take(6) != seq!['d', 'a', 't', 'a', ':', ' '],
    ensures
        event_data(seq!['d', 'a', 't', 'a', ':', ' '] + before + data + after) == Some(data),
        event_data(other) is None,
{
    reveal_strlit("data: ");
    let head = seq!['d', 'a', 't', 'a', ':', ' '];
    assert("data: "@ =~= head);
    let line = head + before + data + after;
    assert(line.subrange(0, 6) =~= head);
    assert(line.skip(6) =~= before + data + after);
    text::lemma_trimmed_around(before, data, after);
    if "data: "@.is_prefix_of(other) {
        assert(other.take(6) =~= head);
    }
}

/// In a chat, the data of a line is the next chunk, until the data is `[DONE]`: that ends
/// the answer, and from then on no line carries a chunk. No line changes the text.
pub proof fn law_a_chat_goes_on_until_it_is_done(m: ReplyModel, line: Seq<char>, data: Seq<char>)
    requires
        event_data(line) == Some(data),
    ensures
        after_chat_line(m, line).message == m.message,
        after_chat_line(m, line).received == m.received,
        after_chat_line(m, line).finished == (m.finished || data == "[DONE]"@),
        chunk_of(m, line) == (if m.finished || data == "[DONE]"@ {
            None
        } else {
            Some(data)
        }),
{
}

/// A line without data changes nothing, in a chat and from the responses endpoint.
pub proof fn law_a_line_without_data_changes_nothing(m: ReplyModel, line: Seq<char>)
    requires
        line.len() < 6 || line.take(6) != seq!['d', 'a', 't', 'a', ':', ' '],
    ensures
        after_chat_line(m, line) == m,
        chunk_of(m, line) is None,
        with_text(m, delta_text(line)) == m,
{
    law_a_line_carries_what_follows_data(seq![], seq![], seq![], line);
}

/// The string under `delta` in the data of a line from the responses endpoint is added to
/// the message, exactly as it is. Data without such a string adds nothing.
pub proof fn law_a_delta_is_added_as_it_is(
    m: ReplyModel,
    before: Seq<char>,
    data: Seq<char>,
    after: Seq<char>,
)
    requires
        text::is_blank(before),
        text::is_blank(after),
        text::is_trimmed(data),
    ensures
        ({
            let line = seq!['d', 'a', 't', 'a', ':', ' '] + before + data + after;
            match outside::json_string_member(data, "delta"@) {
                Some(delta) => {
                    &&& with_text(m, delta_text(line)).message == m.message + delta
                    &&& with_text(m, delta_text(line)).received
                    &&& with_text(m, delta_text(line)).finished == m.finished
                },
                None => with_text(m, delta_text(line)) == m,
            }
        }),
{
    law_a_line_carries_what_follows_data(before, data, after, seq![]);
}

/// An answer without any text, and one with nothing but white space in it, are errors, each
/// with its own words.
pub proof fn law_an_answer_without_words_is_an_error(
    r: Result<String, CopilotError>,
    m: ReplyModel,
)
    requires
        is_outcome(r, m),
        !m.received || text::is_blank(m.message),
    ensures
        r matches Err(CopilotError::Api(msg)) && msg@ == (if m.received {
            "Empty response from Copilot"@
        } else {
            "No valid response chunks from Copilot"@
        }),
{
    if m.received {
        let none = Seq::<char>::empty();
        assert(m.message =~= m.message + none + none);
        text::lemma_trimmed_around(m.message, none, none);
        text::lemma_trimmed_around(none, none, none);
        assert(none + none + none =~= none);
        reveal_strlit("```");
        message::law_without_parentheses_there_is_no_scope(none, none);
    }
}

/// An answer that is a message with white space around it, and that is not fenced, comes out
/// as that message with its scope in lower case: whatever stands before the scope and after
/// it is kept to the letter.
pub proof fn law_a_message_with_a_scope_comes_out(
    r: Result<String, CopilotError>,
    m: ReplyModel,
    left: Seq<char>,
    before: Seq<char>,
    scope: Seq<char>,
    after: Seq<char>,
    right: Seq<char>,
)
    requires
        is_outcome(r, m),
        m.received,
        m.message == left + (before + seq!['('] + scope + seq![')'] + after) + right,
        text::is_blank(left),
        text::is_blank(right),
        text::is_trimmed(before + seq!['('] + scope + seq![')'] + after),
        !before.contains('('),
        !before.contains('\n'),
        !scope.contains(')'),
        !scope.contains('\n'),
        before.len() == 0 || before[0] != '`',
    ensures
        r matches Ok(message) && message@ == before + seq!['('] + outside::lowercase(scope)
            + seq![')'] + after,
{
    let body = before + seq!['('] + scope + seq![')'] + after;
    text::lemma_trimmed_around(left, body, right);
    assert(body.len() > 0);
    assert(body[0] == if before.len() == 0 {
        '('
    } else {
        before[0]
    });
    let none = Seq::<char>::empty();
    assert(none + body + none =~= body);
    message::law_what_is_not_between_backticks_stays(none, body, none);
    message::law_the_scope_stands_between_the_first_parentheses(before, scope, after);
}

/// An answer that is a message with white space around it, that is not fenced and whose
/// first line has no parentheses, comes out as that message, to the letter.
pub proof fn law_a_message_without_a_scope_comes_out(
    r: Result<String, CopilotError>,
    m: ReplyModel,
    left: Seq<char>,
    line: Seq<char>,
    more: Seq<char>,
    right: Seq<char>,
)
    requires
        is_outcome(r, m),
        m.received,
        m.message == left + (line + more) + right,
        text::is_blank(left),
        text::is_blank(right),
        text::is_trimmed(line + more),
        line.len() > 0,
        line[0] != '`',
        !line.contains('\n'),
        !line.contains('('),
        more.len() == 0 || more[0] == '\n',
    ensures
        r matches Ok(message) && message@ == line + more,
{
    let body = line + more;
    text::lemma_trimmed_around(left, body, right);
    assert(body[0] == line[0]);
    let none = Seq::<char>::empty();
    assert(none + body + none =~= body);
    message::law_what_is_not_between_backticks_stays(none, body, none);
    assert forall|i: int, j: int| 0 <= i < j < line.len() implies !(line[i] == '(' && line[j]
        == ')') by {
        assert(line.contains(line[i]));
    }
    message::law_without_parentheses_there_is_no_scope(line, more);
}

/// The models are gone through one by one: one that is offered, and whose policy says
/// `enabled`, is the next to choose from, and any other is left out.
pub proof fn law_models_are_gone_through_one_by_one(data: Seq<Model>, m: Model)
    ensures
        data.push(m).filter(|m: Model| is_enabled(m)) == if m.model_picker_enabled && (
        m.policy matches Some(p) && p.state matches Some(state) && state@ == "enabled"@) {
            data.filter(|m: Model| is_enabled(m)).push(m)
        } else {
            data.filter(|m: Model| is_enabled(m))
        },
        Seq::<Model>::empty().filter(|m: Model| is_enabled(m)) == Seq::<Model>::empty(),
{
    reveal(Seq::filter);
    assert(data.push(m).drop_last() =~= data);
}

/// The responses endpoint is used exactly where the endpoints are known, it is one of them,
/// and that of chats is none.
pub proof fn law_chats_are_preferred(endpoints: Vec<String>)
    ensures
        needs_responses(Some(endpoints)) <==> (exists|i: int|
            0 <= i < endpoints@.len() && #[trigger] endpoints@[i]@ == "/responses"@) && (forall|
            i: int,
        |
            0 <= i < endpoints@.len() ==> #[trigger] endpoints@[i]@ != "/chat/completions"@),
        !needs_responses(None),
{
}

/// What is sent for a message: where it goes, in whose name, to which model, and with as much
/// of the diff as the limit of the model allows.
pub proof fn law_what_is_sent_for_a_message(
    r: Result<Generation, CopilotError>,
    auth: CopilotAuth,
    via_responses: bool,
    diff: Seq<char>,
    diff_stat: Seq<char>,
    style: CommitStyle,
    session_id: Seq<char>,
    machine_id: Seq<char>,
)
    requires
        is_generation(
            r,
            auth,
            via_responses,
            diff,
            diff_stat,
            style,
            session_id,
            machine_id,
        ),
    ensures
        r is Ok <==> auth.api_endpoint is Some && (auth.max_prompt_tokens matches Some(t) ==> t
            > 4_000),
        auth.api_endpoint is None ==> (r matches Err(CopilotError::Api(msg)) && msg@
            == "No API endpoint found in auth"@),
        auth.api_endpoint is Some && r is Err ==> (r matches Err(CopilotError::Api(msg)) && msg@
            == "Model context limit too small for commit generation"@),
        r matches Ok(g) ==> ({
            let model = match auth.model {
                Some(model) => model@,
                None => "gpt-4.1"@,
            };
            let tokens = match auth.max_prompt_tokens {
                Some(t) => t as int,
                None => 128_000,
            };
            let max = (tokens - 4_000) * 4;
            let cut = encode_utf8(diff).len() > max;
            &&& auth.api_endpoint matches Some(endpoint)
            &&& g.request@.method == Method::PostJson
            &&& g.request@.url == endpoint@ + (if via_responses {
                "/responses"@
            } else {
                "/chat/completions"@
            })
            &&& g.request@.form.len() == 0
            &&& g.request@.headers == seq![
                ("Authorization"@, "Bearer "@ + auth.access@),
                ("Copilot-Integration-Id"@, "vscode-chat"@),
                ("Editor-Version"@, "vscode/1.95.0"@),
                ("Content-Type"@, "application/json"@),
                ("Accept"@, "text/event-stream"@),
                ("x-request-id"@, session_id),
                ("vscode-sessionid"@, session_id),
                ("vscode-machineid"@, machine_id),
            ]
            &&& exists|shown: Seq<char>|
                {
                    &&& #[trigger] shown.is_prefix_of(diff)
                    &&& encode_utf8(shown).len() <= max
                    &&& !cut ==> shown == diff
                    &&& forall|longer: Seq<char>| #[trigger]
                        longer.is_prefix_of(diff) && longer.len() > shown.len() ==> encode_utf8(
                            longer,
                        ).len() > max
                    &&& match g.body {
                        RequestBody::Chat(chat) => {
                            &&& !via_responses
                            &&& chat.model@ == model
                            &&& chat.temperature == 0
                            &&& chat.top_p == 1
                            &&& chat.n == 1
                            &&& chat.stream
                            &&& chat.intent
                            &&& chat.messages@.len() == 2
                            &&& chat.messages@[0].role@ == "system"@
                            &&& chat.messages@[0].content@ == SYSTEM_PROMPT@
                            &&& chat.messages@[1].role@ == "user"@
                            &&& chat.messages@[1].content@ == prompt::prompt_text(
                                shown,
                                diff_stat,
                                style,
                                cut,
                            )
                        },
                        RequestBody::Responses(responses) => {
                            &&& via_responses
                            &&& responses.model@ == model
                            &&& responses.stream
                            &&& text::opt_text(responses.instructions) == Some(SYSTEM_PROMPT@)
                            &&& responses.input@ == prompt::prompt_text(
                                shown,
                                diff_stat,
                                style,
                                cut,
                            )
                        },
                    }
                }
            &&& text::opt_text(g.warning) == if cut {
                Some(
                    "Warning: Diff is large ("@ + text::decimal(encode_utf8(diff).len())
                        + " bytes), truncating to ~"@ + text::decimal(max as nat) + " bytes"@,
                )
            } else {
                None
            }
        }),
{
    if let Ok(g) = r {
        let max = prompt::max_diff_bytes(auth.max_prompt_tokens);
        prompt::law_as_much_of_the_diff_as_fits(diff, max);
        let shown = prompt::shortened(diff, max as int);
        assert(shown.is_prefix_of(diff));
        let prompt = prompt::prompt_text(
            shown,
            diff_stat,
            style,
            encode_utf8(diff).len() > max,
        );
        match g.body {
            RequestBody::Chat(chat) => {
                let messages = chat.messages@.map_values(|m: ChatMessage| (m.role@, m.content@));
                assert(messages == seq![("system"@, SYSTEM_PROMPT@), ("user"@, prompt)]);
                assert(messages.len() == 2);
                assert(messages[0] == (chat.messages@[0].role@, chat.messages@[0].content@));
                assert(messages[1] == (chat.messages@[1].role@, chat.messages@[1].content@));
            },
            RequestBody::Responses(responses) => {},
        }
    }
}

/// The models are asked for at the address of the API, with the token.
pub proof fn law_models_are_asked_for_with_the_token(endpoint: Seq<char>, access: Seq<char>)
    ensures
        models_request_model(endpoint, access).method == Method::Get,
        models_request_model(endpoint, access).url == endpoint + "/models"@,
        models_request_model(endpoint, access).headers == seq![
            ("Authorization"@, "Bearer "@ + access),
            ("Copilot-Integration-Id"@, "vscode-chat"@),
            ("Editor-Version"@, "vscode/1.95.0"@),
        ],
        models_request_model(endpoint, access).form.len() == 0,
{
}

/// A machine that has a name keeps it, and another one gets a random one.
pub proof fn law_a_machine_keeps_its_name(auth: CopilotAuth, name: Seq<char>)
    requires
        is_machine_name(auth, name),
    ensures
        auth.machine_id matches Some(id) ==> name == id@,
        auth.machine_id is None ==> outside::is_random_uuid(name),
{
}

/// Every error says of which sort it is, and then its text as it is. Of a refused request
/// only the status 400 has words of its own here.
pub proof fn law_copilot_errors_keep_their_text(text: String, e: AuthError, failure: HttpFailure)
    ensures
        copilot_error_text(CopilotError::Auth(e)) == "Auth error: "@ + auth::auth_error_text(e),
        copilot_error_text(CopilotError::Network(text)) == "Network error: "@ + text@,
        copilot_error_text(CopilotError::Api(text)) == "API error: "@ + text@,
        failure != HttpFailure::StatusCode(400) ==> copilot_failure_text(failure)
            == http::failure_text(failure),
        copilot_failure_text(HttpFailure::StatusCode(400))
            == "Request failed (HTTP 400). Check if the model is enabled at https://github.com/settings/copilot/features"@,
{
}

/// A reply over texts is its fields, and one of which nothing has been read is empty.
pub proof fn law_a_reply_is_its_fields(reply: Reply)
    ensures
        reply@.message == reply.message@,
        reply@.received == reply.received,
        reply@.finished == reply.finished,
        nothing_read().message.len() == 0,
        !nothing_read().received,
        !nothing_read().finished,
{
}

/// The model is told to give the message and nothing else.
pub proof fn law_the_message_alone_is_asked_for()
    ensures
        SYSTEM_PROMPT@ == "You are an expert software engineer."@
            + " Output only the raw commit message."@
            + " No explanations, markdown, or extra text."@,
{
    reveal_strlit(
        "You are an expert software engineer. Output only the raw commit message. No explanations, markdown, or extra text.",
    );
    reveal_strlit("You are an expert software engineer.");
    reveal_strlit(" Output only the raw commit message.");
    reveal_strlit(" No explanations, markdown, or extra text.");
    assert(SYSTEM_PROMPT@ =~= "You are an expert software engineer."@
        + " Output only the raw commit message."@ + " No explanations, markdown, or extra text."@);
}

} // verus!
