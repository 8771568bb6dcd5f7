//! The requests that the program sends, as plain values, and what can go wrong with them.

use vstd::prelude::*;

use crate::text;
use crate::text::{concat, decimal_text};

verus! {

/// How long a request may take in all, in seconds.
pub const REQUEST_TIMEOUT_SECONDS: u64 = 30;

/// How a request is sent.
#[derive(Debug, Clone, Copy, PartialEq, Eq, Structural)]
pub enum Method {
    /// A GET request.
    Get,
    /// A POST request whose body is the form of the request.
    PostForm,
    /// A POST request whose body is a JSON document.
    PostJson,
}

/// A request: where it goes, its headers, and the form that it carries.
#[derive(Debug)]
pub struct HttpRequest {
    pub method: Method,
    pub url: String,
    pub headers: Vec<(String, String)>,
    pub form: Vec<(String, String)>,
}

/// The names and values held by a list of fields.
pub open spec fn fields(v: Seq<(String, String)>) -> Seq<(Seq<char>, Seq<char>)> {
    v.map_values(|p: (String, String)| (p.0@, p.1@))
}

/// What a request is, over texts.
#[verifier::ext_equal]
pub struct RequestModel {
    pub method: Method,
    pub url: Seq<char>,
    pub headers: Seq<(Seq<char>, Seq<char>)>,
    pub form: Seq<(Seq<char>, Seq<char>)>,
}

impl View for HttpRequest {
    type V = RequestModel;

    open spec fn view(&self) -> RequestModel {
        RequestModel {
            method: self.method,
            url: self.url@,
            headers: fields(self.headers@),
            form: fields(self.form@),
        }
    }
}

/// Adds a field to a list of fields.
pub fn push_field(v: &mut Vec<(String, String)>, name: &str, value: &str)
    ensures
        fields(final(v)@) == fields(old(v)@).push((name@, value@)),
{
    let ghost before = fields(v@);
    v.push((name.to_owned(), value.to_owned()));
    assert(fields(v@) =~= before.push((name@, value@)));
}

/// Why a request got no usable answer.
#[derive(Debug)]
pub enum HttpFailure {
    /// The server answered with this status.
    StatusCode(u16),
    /// The answer took too long.
    Timeout,
    /// The name of the server could not be resolved.
    HostNotFound,
    /// No connection came about.
    ConnectionFailed,
    /// Anything else, in the words of the HTTP client.
    Other(String),
}

/// What the user is told about a failed request, whatever it was for.
pub open spec fn failure_text(f: HttpFailure) -> Seq<char> {
    match f {
        HttpFailure::StatusCode(code) => if code == 401 {
            "Authentication failed. Try 'ghcc login'"@
        } else if code == 403 {
            "Access denied. Is your Copilot subscription active?"@
        } else {
            "Request failed (HTTP "@ + text::decimal(code as nat) + ")"@
        },
        HttpFailure::Timeout => "Request timed out. Check your connection."@,
        HttpFailure::HostNotFound => "Could not reach GitHub. Check your internet connection."@,
        HttpFailure::ConnectionFailed => "Connection failed. Check your network."@,
        HttpFailure::Other(e) => "Network error: "@ + e@,
    }
}

impl HttpFailure {
    /// What the user is told about the failure.
    pub fn describe(&self) -> (r: String)
        ensures
            r@ == failure_text(*self),
    {
        match self {
            HttpFailure::StatusCode(code) => {
                if *code == 401 {
                    "Authentication failed. Try 'ghcc login'".to_owned()
                } else if *code == 403 {
                    "Access denied. Is your Copilot subscription active?".to_owned()
                } else {
                    let mut r: String = "Request failed (HTTP ".to_owned();
                    r.append(decimal_text(*code as u64).as_str());
                    r.append(")");
                    r
                }
            },
            HttpFailure::Timeout => "Request timed out. Check your connection.".to_owned(),
            HttpFailure::HostNotFound => {
                "Could not reach GitHub. Check your internet connection.".to_owned()
            },
            HttpFailure::ConnectionFailed => "Connection failed. Check your network.".to_owned(),
            HttpFailure::Other(e) => concat("Network error: ", e.as_str()),
        }
    }
}

/// A refused request is told with its status, but for the two for which there is advice; and
/// every other failure in words of its own.
pub proof fn law_failures_are_told_apart(code: u16, e: String)
    ensures
        code != 401 && code != 403 ==> failure_text(HttpFailure::StatusCode(code))
            == "Request failed (HTTP "@ + text::decimal(code as nat) + ")"@,
        failure_text(HttpFailure::StatusCode(401)) == "Authentication failed. Try 'ghcc login'"@,
        failure_text(HttpFailure::StatusCode(403))
            == "Access denied. Is your Copilot subscription active?"@,
        failure_text(HttpFailure::Timeout) == "Request timed out. Check your connection."@,
        failure_text(HttpFailure::HostNotFound)
            == "Could not reach GitHub. Check your internet connection."@,
        failure_text(HttpFailure::ConnectionFailed) == "Connection failed. Check your network."@,
        failure_text(HttpFailure::Other(e)) == "Network error: "@ + e@,
{
}

/// Two requests are the same over texts only if every name and value of their headers and
/// their forms is.
pub proof fn law_a_request_keeps_every_field(r: HttpRequest, i: int)
    ensures
        r@.method == r.method,
        r@.url == r.url@,
        r@.headers.len() == r.headers@.len(),
        r@.form.len() == r.form@.len(),
        0 <= i < r.headers@.len() ==> r@.headers[i] == (r.headers@[i].0@, r.headers@[i].1@),
        0 <= i < r.form@.len() ==> r@.form[i] == (r.form@[i].0@, r.form@[i].1@),
{
}

} // verus!
