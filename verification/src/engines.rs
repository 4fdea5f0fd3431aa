//! Inference engines: what a generation is asked for, what it gives, and how it can
//! fail.

pub mod openai;
pub mod sse;

use crate::engines::openai::REQUEST_TIMEOUT;
use crate::json::Json;
use crate::text::{number_text, text_view, written};
use vstd::prelude::*;

verus! {

/// One message of a chat.
#[derive(Debug)]
pub struct Message {
    pub role: String,
    pub content: String,
}

/// What a generation is asked for.
#[derive(Debug)]
pub struct GenerateRequest {
    /// The model that the requester named.
    pub model: String,
    pub messages: Vec<Message>,
    pub max_tokens: u64,
    /// The temperature as JSON: a number, or null for one that is not finite.
    pub temperature: Option<Json>,
    /// The nucleus mass as JSON: a number, or null for one that is not finite.
    pub top_p: Option<Json>,
    pub seed: Option<u64>,
}

/// What a generation gave.
#[derive(Debug)]
pub struct GenerateResponse {
    /// The whole answer; empty where it was streamed.
    pub text: String,
    pub tokens_in: u64,
    pub tokens_out: u64,
}

/// What a generation gave, as the contracts speak of it.
pub struct Answer {
    pub text: Seq<char>,
    pub tokens_in: u64,
    pub tokens_out: u64,
}

impl View for GenerateResponse {
    type V = Answer;

    open spec fn view(&self) -> Answer {
        Answer { text: self.text@, tokens_in: self.tokens_in, tokens_out: self.tokens_out }
    }
}

/// Why a generation failed.
#[derive(Debug)]
pub enum EngineError {
    /// The request's body could not be written as JSON, for the reason given.
    Encode(String),
    /// The endpoint answered with this status, which is no success.
    Status(String),
    /// The endpoint answered a streamed request with this status, which is no success.
    StreamStatus(String),
    /// The endpoint's answer is no JSON, for the reason given.
    Decode(String),
    /// The stream timed out or stalled.
    Stalled,
}

/// What an error tells a reader.
///
/// No message holds anything of a response's body: endpoints often echo the prompt
/// in one.
pub open spec fn error_text(e: EngineError) -> Seq<char> {
    match e {
        EngineError::Encode(reason) => reason@,
        EngineError::Status(status) => "endpoint returned HTTP "@ + status@
            + " (body elided to avoid content logging)"@,
        EngineError::StreamStatus(status) => "endpoint returned HTTP "@ + status@
            + " (streaming body elided to avoid content logging)"@,
        EngineError::Decode(_) => "parsing endpoint JSON response"@,
        EngineError::Stalled => "endpoint stream timed out or stalled (exceeded "@ + written(
            REQUEST_TIMEOUT as nat,
        ) + "s)"@,
    }
}

/// What lies under an error's message.
pub open spec fn error_cause(e: EngineError) -> Option<Seq<char>> {
    match e {
        EngineError::Decode(reason) => Some(reason@),
        _ => None,
    }
}

impl EngineError {
    /// What the error tells a reader.
    pub fn message(&self) -> (r: String)
        ensures
            r@ == error_text(*self),
    {
        match self {
            EngineError::Encode(reason) => reason.clone(),
            EngineError::Status(status) => "endpoint returned HTTP ".to_owned().concat(
                status.as_str(),
            ).concat(" (body elided to avoid content logging)"),
            EngineError::StreamStatus(status) => "endpoint returned HTTP ".to_owned().concat(
                status.as_str(),
            ).concat(" (streaming body elided to avoid content logging)"),
            EngineError::Decode(_) => "parsing endpoint JSON response".to_owned(),
            EngineError::Stalled => "endpoint stream timed out or stalled (exceeded ".to_owned().concat(
                number_text(REQUEST_TIMEOUT).as_str(),
            ).concat("s)"),
        }
    }

    /// What lies under the error's message: why an answer is no JSON.
    pub fn cause(&self) -> (r: Option<String>)
        ensures
            text_view(r) == error_cause(*self),
    {
        match self {
            EngineError::Decode(reason) => Some(reason.clone()),
            _ => None,
        }
    }
}

// -- Laws --

/// What a response's contract speaks of is the response: its text and its two counts.
pub proof fn law_response_parts(r: GenerateResponse)
    ensures
        r@.text == r.text@,
        r@.tokens_in == r.tokens_in,
        r@.tokens_out == r.tokens_out,
{
}

/// An error of the endpoint's names the status, the whole of it, between fixed words; the
/// message of an answer that is no JSON is fixed, and its reason lies under it; a stall names
/// the limit.
pub proof fn law_error_messages(status: String, reason: String)
    ensures
        error_text(EngineError::Status(status)) == "endpoint returned HTTP "@ + status@
            + " (body elided to avoid content logging)"@,
        error_text(EngineError::StreamStatus(status)) == "endpoint returned HTTP "@ + status@
            + " (streaming body elided to avoid content logging)"@,
        error_text(EngineError::Decode(reason)) == "parsing endpoint JSON response"@,
        error_cause(EngineError::Decode(reason)) == Some(reason@),
        error_text(EngineError::Encode(reason)) == reason@,
        error_text(EngineError::Stalled) == "endpoint stream timed out or stalled (exceeded "@
            + written(REQUEST_TIMEOUT as nat) + "s)"@,
        error_cause(EngineError::Status(status)) is None,
        error_cause(EngineError::StreamStatus(status)) is None,
        error_cause(EngineError::Encode(reason)) is None,
        error_cause(EngineError::Stalled) is None,
{
}

} // verus!
