use vstd::prelude::*;

use crate::model::{ChatResponse, OllamaModel};

verus! {

/// What came of one request to the completion service. `body` is the decoded
/// payload, or `None` where it could not be decoded into the expected shape.
pub enum Exchange<T> {
    Unreachable,
    Answered { status: u16, body: Option<T> },
}

/// Why the completion service gave no usable answer.
#[derive(Clone, Copy, Debug, PartialEq, Eq, Structural)]
pub enum ServiceFailure {
    /// The endpoint could not be reached.
    ServiceUnavailable,
    /// The endpoint answered with a status that is not a success.
    ServiceError,
    /// The payload did not have the expected shape.
    ProtocolError,
    /// A success that carried no message.
    EmptyResponse,
}

pub open spec fn failure_text(f: ServiceFailure) -> Seq<char> {
    match f {
        ServiceFailure::ServiceUnavailable => "completion service unreachable"@,
        ServiceFailure::ServiceError => "completion service returned an error"@,
        ServiceFailure::ProtocolError => "completion service reply could not be read"@,
        ServiceFailure::EmptyResponse => "no response from model"@,
    }
}

impl ServiceFailure {
    pub fn describe(&self) -> (r: &'static str)
        ensures
            r@ == failure_text(*self),
    {
        match self {
            ServiceFailure::ServiceUnavailable => "completion service unreachable",
            ServiceFailure::ServiceError => "completion service returned an error",
            ServiceFailure::ProtocolError => "completion service reply could not be read",
            ServiceFailure::EmptyResponse => "no response from model",
        }
    }
}

/// A status in the success class.
pub open spec fn is_success(status: u16) -> bool {
    200 <= status <= 299
}

/// What a reply to a request for `T` gives, before its payload is looked at.
pub open spec fn answered_payload<T>(reply: Exchange<T>) -> Result<T, ServiceFailure> {
    match reply {
        Exchange::Unreachable => Err(ServiceFailure::ServiceUnavailable),
        Exchange::Answered { status, body } => if !is_success(status) {
            Err(ServiceFailure::ServiceError)
        } else {
            match body {
                None => Err(ServiceFailure::ProtocolError),
                Some(b) => Ok(b),
            }
        },
    }
}

/// What a chat reply gives: the content of its message.
pub open spec fn chat_outcome(reply: Exchange<ChatResponse>) -> Result<String, ServiceFailure> {
    match answered_payload(reply) {
        Err(f) => Err(f),
        Ok(resp) => match resp.message {
            None => Err(ServiceFailure::EmptyResponse),
            Some(msg) => Ok(msg.content),
        },
    }
}

pub fn status_is_success(status: u16) -> (r: bool)
    ensures
        r == is_success(status),
{
    200 <= status && status <= 299
}

/// Whether a status probe found the service up: an unreachable endpoint is
/// an ordinary `false`.
pub fn check_status<T>(probe: &Exchange<T>) -> (r: bool)
    ensures
        r == (probe is Answered && is_success(probe->status)),
        probe is Unreachable ==> !r,
{
    match probe {
        Exchange::Unreachable => false,
        Exchange::Answered { status, .. } => status_is_success(*status),
    }
}

fn read_payload<T>(reply: Exchange<T>) -> (r: Result<T, ServiceFailure>)
    ensures
        r == answered_payload(reply),
{
    match reply {
        Exchange::Unreachable => Err(ServiceFailure::ServiceUnavailable),
        Exchange::Answered { status, body } => {
            if !status_is_success(status) {
                Err(ServiceFailure::ServiceError)
            } else {
                match body {
                    None => Err(ServiceFailure::ProtocolError),
                    Some(b) => Ok(b),
                }
            }
        },
    }
}

/// The models of a model-listing reply.
pub fn read_models(reply: Exchange<Vec<OllamaModel>>) -> (r: Result<Vec<OllamaModel>, ServiceFailure>)
    ensures
        r == answered_payload(reply),
{
    read_payload(reply)
}

/// The content of a chat reply's message.
pub fn read_chat_reply(reply: Exchange<ChatResponse>) -> (r: Result<String, ServiceFailure>)
    ensures
        r == chat_outcome(reply),
{
    match read_payload(reply) {
        Err(f) => Err(f),
        Ok(resp) => match resp.message {
            None => Err(ServiceFailure::EmptyResponse),
            Some(msg) => Ok(msg.content),
        },
    }
}

/// The address of the model listing, which also serves as the status probe.
pub fn tags_url(base: &str) -> (r: String)
    ensures
        r@ == base@ + "/api/tags"@,
{
    let mut s = String::from_str(base);
    s.append("/api/tags");
    s
}

/// The address of the chat completion call.
pub fn chat_url(base: &str) -> (r: String)
    ensures
        r@ == base@ + "/api/chat"@,
{
    let mut s = String::from_str(base);
    s.append("/api/chat");
    s
}

} // verus!
