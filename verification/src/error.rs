//! What can go wrong with a call of a model.
use crate::text::{concat, decimal, decimal_text};
use vstd::prelude::*;

verus! {

/// Why a call of a model failed.
#[derive(Debug)]
pub enum AiError {
    /// The request failed below the API, in the words of the HTTP client.
    Http(String),
    Api { status: u16, message: String },
    Stream(String),
    /// The answer is not what the API describes, in the words of the JSON reader.
    Serde(String),
    Config(String),
    UnsupportedProvider(String),
    ModelNotFound(String),
    RateLimited { retry_after: u64, message: String },
    Auth(String),
    Io(String),
    Other(String),
}

/// An error as a value.
pub enum AiErrorView {
    Http(Seq<char>),
    Api { status: u16, message: Seq<char> },
    Stream(Seq<char>),
    Serde(Seq<char>),
    Config(Seq<char>),
    UnsupportedProvider(Seq<char>),
    ModelNotFound(Seq<char>),
    RateLimited { retry_after: u64, message: Seq<char> },
    Auth(Seq<char>),
    Io(Seq<char>),
    Other(Seq<char>),
}

impl View for AiError {
    type V = AiErrorView;

    open spec fn view(&self) -> AiErrorView {
        match self {
            AiError::Http(text) => AiErrorView::Http(text@),
            AiError::Api { status, message } => AiErrorView::Api {
                status: *status,
                message: message@,
            },
            AiError::Stream(text) => AiErrorView::Stream(text@),
            AiError::Serde(text) => AiErrorView::Serde(text@),
            AiError::Config(text) => AiErrorView::Config(text@),
            AiError::UnsupportedProvider(text) => AiErrorView::UnsupportedProvider(text@),
            AiError::ModelNotFound(text) => AiErrorView::ModelNotFound(text@),
            AiError::RateLimited { retry_after, message } => AiErrorView::RateLimited {
                retry_after: *retry_after,
                message: message@,
            },
            AiError::Auth(text) => AiErrorView::Auth(text@),
            AiError::Io(text) => AiErrorView::Io(text@),
            AiError::Other(text) => AiErrorView::Other(text@),
        }
    }
}

/// The words for an error.
pub open spec fn ai_error_text(e: AiErrorView) -> Seq<char> {
    match e {
        AiErrorView::Http(text) => "HTTP error: "@ + text,
        AiErrorView::Api { status, message } => "API error: "@ + decimal_text(status as nat) + " - "@
            + message,
        AiErrorView::Stream(text) => "Stream error: "@ + text,
        AiErrorView::Serde(text) => "Serialization error: "@ + text,
        AiErrorView::Config(text) => "Configuration error: "@ + text,
        AiErrorView::UnsupportedProvider(text) => "Provider not supported: "@ + text,
        AiErrorView::ModelNotFound(text) => "Model not found: "@ + text,
        AiErrorView::RateLimited { retry_after, message } => "Rate limited, retry after "@
            + decimal_text(retry_after as nat) + "s: "@ + message,
        AiErrorView::Auth(text) => "Authentication failed: "@ + text,
        AiErrorView::Io(text) => "I/O error: "@ + text,
        AiErrorView::Other(text) => text,
    }
}

impl AiError {
    /// The words for this error.
    pub fn message(&self) -> (text: String)
        ensures
            text@ == ai_error_text(self@),
    {
        match self {
            AiError::Http(text) => concat("HTTP error: ", text.as_str()),
            AiError::Api { status, message } => {
                let mut text = concat("API error: ", decimal(*status as u64).as_str());
                text.append(" - ");
                text.append(message.as_str());
                text
            },
            AiError::Stream(text) => concat("Stream error: ", text.as_str()),
            AiError::Serde(text) => concat("Serialization error: ", text.as_str()),
            AiError::Config(text) => concat("Configuration error: ", text.as_str()),
            AiError::UnsupportedProvider(text) => concat("Provider not supported: ", text.as_str()),
            AiError::ModelNotFound(text) => concat("Model not found: ", text.as_str()),
            AiError::RateLimited { retry_after, message } => {
                let mut text = concat(
                    "Rate limited, retry after ",
                    decimal(*retry_after).as_str(),
                );
                text.append("s: ");
                text.append(message.as_str());
                text
            },
            AiError::Auth(text) => concat("Authentication failed: ", text.as_str()),
            AiError::Io(text) => concat("I/O error: ", text.as_str()),
            AiError::Other(text) => text.clone(),
        }
    }
}

/// The mark on a failure to get a request out at all: no name for the host, no
/// connection, or no answer in time. Where every model fails in this way it is
/// the network that is down, not the models.
pub const TRANSPORT_FAILURE_MARKER: &'static str = "[transport]";

/// What the HTTP client says of a request that failed.
#[derive(Debug)]
pub struct SendFailure {
    pub is_connect: bool,
    pub is_timeout: bool,
    pub is_request: bool,
    pub message: String,
}

/// Whether the request did not get out.
pub open spec fn not_sent(e: SendFailure) -> bool {
    e.is_connect || e.is_timeout || e.is_request
}

/// Whether the request did not get out.
pub fn is_transport_failure(e: &SendFailure) -> (b: bool)
    ensures
        b == not_sent(*e),
{
    e.is_connect || e.is_timeout || e.is_request
}

/// A text behind the mark of a transport failure.
pub open spec fn marked(text: Seq<char>) -> Seq<char> {
    TRANSPORT_FAILURE_MARKER@ + " "@ + text
}

fn mark(text: &str) -> (r: String)
    ensures
        r@ == marked(text@),
{
    let mut r = concat(TRANSPORT_FAILURE_MARKER, " ");
    r.append(text);
    r
}

/// The error for a request that failed.
pub open spec fn send_error(e: SendFailure) -> AiErrorView {
    if e.is_timeout {
        AiErrorView::Other(marked("Request timed out"@))
    } else if e.is_connect {
        AiErrorView::Other(marked("Connection failed: "@ + e.message@))
    } else if not_sent(e) {
        AiErrorView::Other(marked("Request failed: "@ + e.message@))
    } else {
        AiErrorView::Http(e.message@)
    }
}

/// The error for a request that failed.
pub fn send_failed(e: &SendFailure) -> (error: AiError)
    ensures
        error@ == send_error(*e),
{
    if e.is_timeout {
        AiError::Other(mark("Request timed out"))
    } else if e.is_connect {
        AiError::Other(mark(concat("Connection failed: ", e.message.as_str()).as_str()))
    } else if is_transport_failure(e) {
        AiError::Other(mark(concat("Request failed: ", e.message.as_str()).as_str()))
    } else {
        AiError::Http(e.message.clone())
    }
}

/// The words for a streamed request that failed.
pub open spec fn stream_failure_text(e: SendFailure) -> Seq<char> {
    let text = "Request failed: "@ + e.message@;
    if not_sent(e) {
        marked(text)
    } else {
        text
    }
}

/// The words for a streamed request that failed.
pub fn stream_send_failed(e: &SendFailure) -> (text: String)
    ensures
        text@ == stream_failure_text(*e),
{
    let text = concat("Request failed: ", e.message.as_str());
    if is_transport_failure(e) {
        mark(text.as_str())
    } else {
        text
    }
}

/// A failure to get a request out is marked, whatever its kind, and no other
/// failure is turned into a marked one.
pub proof fn only_transport_failures_are_marked(e: SendFailure)
    ensures
        not_sent(e) <==> send_error(e) is Other,
        not_sent(e) ==> marked(""@).is_prefix_of(send_error(e)->Other_0) && marked(
            ""@,
        ).is_prefix_of(stream_failure_text(e)),
{
    reveal_strlit("");
    reveal_strlit("Request timed out");
    reveal_strlit("Connection failed: ");
    reveal_strlit("Request failed: ");
    reveal_strlit(" ");
    let start = marked(""@);
    assert(start =~= TRANSPORT_FAILURE_MARKER@ + " "@);
    if not_sent(e) {
        let words = send_error(e)->Other_0;
        assert(start =~= words.subrange(0, start.len() as int));
        let spoken = stream_failure_text(e);
        assert(start =~= spoken.subrange(0, start.len() as int));
    }
}

} // verus!
