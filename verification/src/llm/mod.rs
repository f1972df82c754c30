//! The client of a chat-completion service: what it asks, how it reads the answer, and when it
//! tries again.
pub mod endpoint;
pub mod request;
pub mod sse;
pub mod title;

use crate::text::{decimal, decimal_text, strip_end, strip_end_text, CharClass};
use crate::types::{
    Float32, Message, MessageV, ModelConfig, ThinkLevel, TokenUsage, ToolCall, ToolCallV,
    ToolDefinition, ToolDefinitionV,
};
use crate::views::{opt_view, views};
use vstd::prelude::*;

verus! {

/// What is asked of the model.
#[derive(Debug)]
pub struct LlmRequest {
    pub model: String,
    /// The system prompt, put before the messages where it is not empty.
    pub system: String,
    pub messages: Vec<Message>,
    pub tools: Vec<ToolDefinition>,
    pub max_tokens: usize,
    pub temperature: Float32,
    /// How much the model is to reason.
    pub think: ThinkLevel,
}

/// What an [`LlmRequest`] stands for.
pub struct LlmRequestV {
    pub model: Seq<char>,
    pub system: Seq<char>,
    pub messages: Seq<MessageV>,
    pub tools: Seq<ToolDefinitionV>,
    pub max_tokens: usize,
    pub temperature: Float32,
    pub think: ThinkLevel,
}

impl View for LlmRequest {
    type V = LlmRequestV;

    open spec fn view(&self) -> LlmRequestV {
        LlmRequestV {
            model: self.model@,
            system: self.system@,
            messages: views(self.messages@),
            tools: views(self.tools@),
            max_tokens: self.max_tokens,
            temperature: self.temperature,
            think: self.think,
        }
    }
}

/// What comes in while the model answers.
#[derive(Debug)]
pub enum StreamEvent {
    /// A piece of the answer.
    Delta(String),
    /// A piece of the reasoning.
    ThinkDelta(String),
    /// A whole tool call.
    ToolCall(ToolCall),
    /// The whole answer.
    Done {
        content: String,
        tool_calls: Vec<ToolCall>,
        usage: Option<TokenUsage>,
        finish_reason: Option<String>,
    },
    /// Something failed.
    Error(String),
}

/// What a [`StreamEvent`] stands for.
pub enum StreamEventV {
    Delta(Seq<char>),
    ThinkDelta(Seq<char>),
    ToolCall(ToolCallV),
    Done {
        content: Seq<char>,
        tool_calls: Seq<ToolCallV>,
        usage: Option<TokenUsage>,
        finish_reason: Option<Seq<char>>,
    },
    Error(Seq<char>),
}

impl View for StreamEvent {
    type V = StreamEventV;

    open spec fn view(&self) -> StreamEventV {
        match *self {
            StreamEvent::Delta(t) => StreamEventV::Delta(t@),
            StreamEvent::ThinkDelta(t) => StreamEventV::ThinkDelta(t@),
            StreamEvent::ToolCall(c) => StreamEventV::ToolCall(c@),
            StreamEvent::Done { content, tool_calls, usage, finish_reason } => StreamEventV::Done {
                content: content@,
                tool_calls: views(tool_calls@),
                usage,
                finish_reason: opt_view(finish_reason),
            },
            StreamEvent::Error(e) => StreamEventV::Error(e@),
        }
    }
}

/// What can go wrong with a request.
#[derive(Debug)]
pub enum LlmError {
    Serialize(String),
    BadUrl(String),
    Unsupported(String),
    Connect(String),
    Handshake(String),
    BuildRequest(String),
    Request(String),
    Read(String),
    Status(u16, String),
}

/// What an [`LlmError`] stands for.
pub enum LlmErrorV {
    Serialize(Seq<char>),
    BadUrl(Seq<char>),
    Unsupported(Seq<char>),
    Connect(Seq<char>),
    Handshake(Seq<char>),
    BuildRequest(Seq<char>),
    Request(Seq<char>),
    Read(Seq<char>),
    Status(u16, Seq<char>),
}

impl View for LlmError {
    type V = LlmErrorV;

    open spec fn view(&self) -> LlmErrorV {
        match *self {
            LlmError::Serialize(s) => LlmErrorV::Serialize(s@),
            LlmError::BadUrl(s) => LlmErrorV::BadUrl(s@),
            LlmError::Unsupported(s) => LlmErrorV::Unsupported(s@),
            LlmError::Connect(s) => LlmErrorV::Connect(s@),
            LlmError::Handshake(s) => LlmErrorV::Handshake(s@),
            LlmError::BuildRequest(s) => LlmErrorV::BuildRequest(s@),
            LlmError::Request(s) => LlmErrorV::Request(s@),
            LlmError::Read(s) => LlmErrorV::Read(s@),
            LlmError::Status(code, s) => LlmErrorV::Status(code, s@),
        }
    }
}

impl LlmErrorV {
    /// What is said of the error.
    pub open spec fn message(self) -> Seq<char> {
        match self {
            LlmErrorV::Serialize(s) => "serialize error: "@ + s,
            LlmErrorV::BadUrl(s) => "bad URL: "@ + s,
            LlmErrorV::Unsupported(s) => "unsupported: "@ + s,
            LlmErrorV::Connect(s) => "connect failed: "@ + s,
            LlmErrorV::Handshake(s) => "handshake failed: "@ + s,
            LlmErrorV::BuildRequest(s) => "request build failed: "@ + s,
            LlmErrorV::Request(s) => "request failed: "@ + s,
            LlmErrorV::Read(s) => "read failed: "@ + s,
            LlmErrorV::Status(code, s) => "HTTP "@ + decimal(code as nat) + ": "@ + s,
        }
    }

    /// Whether the error is one of making the connection, after which another try makes sense.
    pub open spec fn transient(self) -> bool {
        self is Connect || self is Handshake
    }
}

/// `prefix` and `s` after it.
fn prefixed(prefix: &str, s: &String) -> (r: String)
    ensures
        r@ == prefix@ + s@,
{
    let mut r = prefix.to_owned();
    r.push_str(s.as_str());
    r
}

impl LlmError {
    /// What is said of the error.
    pub fn message(&self) -> (r: String)
        ensures
            r@ == self@.message(),
    {
        match self {
            LlmError::Serialize(s) => prefixed("serialize error: ", s),
            LlmError::BadUrl(s) => prefixed("bad URL: ", s),
            LlmError::Unsupported(s) => prefixed("unsupported: ", s),
            LlmError::Connect(s) => prefixed("connect failed: ", s),
            LlmError::Handshake(s) => prefixed("handshake failed: ", s),
            LlmError::BuildRequest(s) => prefixed("request build failed: ", s),
            LlmError::Request(s) => prefixed("request failed: ", s),
            LlmError::Read(s) => prefixed("read failed: ", s),
            LlmError::Status(code, s) => {
                let mut r = "HTTP ".to_owned();
                r.push_str(decimal_text(*code as u64).as_str());
                r.push_str(": ");
                r.push_str(s.as_str());
                r
            },
        }
    }
}

/// How often a request is tried.
pub const MAX_ATTEMPTS: u32 = 3;

/// What is done after a failed try.
#[derive(Debug)]
pub enum Retry {
    /// Wait that long and try again.
    After { wait_ms: u64 },
    /// Report the error.
    GiveUp(LlmError),
}

/// What a [`Retry`] stands for.
pub enum RetryV {
    After { wait_ms: nat },
    GiveUp(LlmErrorV),
}

impl View for Retry {
    type V = RetryV;

    open spec fn view(&self) -> RetryV {
        match *self {
            Retry::After { wait_ms } => RetryV::After { wait_ms: wait_ms as nat },
            Retry::GiveUp(e) => RetryV::GiveUp(e@),
        }
    }
}

/// Four to the power of `n`.
pub open spec fn power_of_four(n: nat) -> nat
    decreases n,
{
    if n == 0 {
        1
    } else {
        4 * power_of_four((n - 1) as nat)
    }
}

/// What is done after try number `attempt`, counted from 0, has failed: connections are tried again
/// after 100 ms, then after four times as long, and at last reported as failed connections; all
/// other errors are reported at once.
pub open spec fn retry_of(attempt: u32, err: LlmErrorV) -> RetryV {
    match err {
        LlmErrorV::Connect(e) | LlmErrorV::Handshake(e) => if attempt + 1 < MAX_ATTEMPTS {
            RetryV::After { wait_ms: 100 * power_of_four(attempt as nat) }
        } else {
            RetryV::GiveUp(LlmErrorV::Connect(e))
        },
        other => RetryV::GiveUp(other),
    }
}

/// What is done after try number `attempt`, counted from 0, has failed.
pub fn after_failure(attempt: u32, err: LlmError) -> (r: Retry)
    requires
        attempt < MAX_ATTEMPTS,
    ensures
        r@ == retry_of(attempt, err@),
{
    proof {
        reveal_with_fuel(power_of_four, 3);
    }
    match err {
        LlmError::Connect(e) | LlmError::Handshake(e) => {
            if attempt == 0 {
                Retry::After { wait_ms: 100 }
            } else if attempt == 1 {
                Retry::After { wait_ms: 400 }
            } else {
                Retry::GiveUp(LlmError::Connect(e))
            }
        },
        other => Retry::GiveUp(other),
    }
}

/// A request is tried at most three times, and only as long as the connection is what fails.
pub proof fn law_retries_are_bounded(attempt: u32, err: LlmErrorV)
    ensures
        retry_of(attempt, err) is After ==> err.transient() && attempt + 1 < MAX_ATTEMPTS,
        !err.transient() ==> retry_of(attempt, err) == RetryV::GiveUp(err),
{
}

/// The client: where the service is and how to get there.
#[derive(Debug)]
pub struct LlmClient {
    pub base_url: String,
    pub api_key: String,
    /// The proxy to go through; empty for none.
    pub proxy: String,
}

impl LlmClient {
    /// The client for a model; slashes at the end of its address are dropped.
    pub fn new(model: &ModelConfig) -> (r: LlmClient)
        ensures
            r.base_url@ == strip_end(model.base_url@, CharClass::Only('/')),
            r.api_key@ == model.api_key@,
            r.proxy@ == model.proxy@,
    {
        LlmClient {
            base_url: strip_end_text(model.base_url.as_str(), CharClass::Only('/')),
            api_key: model.api_key.clone(),
            proxy: model.proxy.clone(),
        }
    }
}

impl Clone for LlmClient {
    fn clone(&self) -> (r: LlmClient)
        ensures
            r == *self,
    {
        LlmClient {
            base_url: self.base_url.clone(),
            api_key: self.api_key.clone(),
            proxy: self.proxy.clone(),
        }
    }
}

/// A connection that could not be made is tried three times, and each time the wait is four times
/// as long as before; then the failure is told.
pub proof fn law_waits_grow(attempt: u32, err: LlmErrorV)
    requires
        err is Connect || err is Handshake,
    ensures
        attempt + 1 < 3 ==> retry_of(attempt, err) is After,
        retry_of(0, err) == (RetryV::After { wait_ms: 100 }),
        retry_of(1, err) == (RetryV::After { wait_ms: 400 }),
        attempt + 1 >= 3 ==> retry_of(attempt, err) is GiveUp && retry_of(attempt, err)->GiveUp_0
            is Connect,
        attempt + 1 >= 3 && err is Connect ==> retry_of(attempt, err) == RetryV::GiveUp(err),
        power_of_four((attempt + 1) as nat) == 4 * power_of_four(attempt as nat),
{
    assert(power_of_four(0) == 1);
    assert(power_of_four(1) == 4 * power_of_four(0));
}

/// A failure is told by what failed and why.
pub proof fn law_failures_tell_why(s: Seq<char>, code: u16)
    ensures
        LlmErrorV::Serialize(s).message() == "serialize error: "@ + s,
        LlmErrorV::BadUrl(s).message() == "bad URL: "@ + s,
        LlmErrorV::Unsupported(s).message() == "unsupported: "@ + s,
        LlmErrorV::Connect(s).message() == "connect failed: "@ + s,
        LlmErrorV::Handshake(s).message() == "handshake failed: "@ + s,
        LlmErrorV::BuildRequest(s).message() == "request build failed: "@ + s,
        LlmErrorV::Request(s).message() == "request failed: "@ + s,
        LlmErrorV::Read(s).message() == "read failed: "@ + s,
        LlmErrorV::Status(code, s).message() == "HTTP "@ + decimal(code as nat) + ": "@ + s,
{
}

} // verus!
