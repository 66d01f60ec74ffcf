//! Wrapping a back end's answer into a DAP response.
use vstd::prelude::*;

use crate::dap::types::{Body, ProtocolMessage};

verus! {

/// Whether `m` is the response numbered `seq` to request `request_seq`.
pub open spec fn is_response(
    m: ProtocolMessage,
    seq: i64,
    request_seq: i64,
    command: Seq<char>,
    result: Result<Option<Body>, String>,
) -> bool {
    match m {
        ProtocolMessage::Response { seq: s, request_seq: q, success, command: c, message, body } => {
            &&& s == seq
            &&& q == request_seq
            &&& c@ == command
            &&& match result {
                Ok(b) => success && message is None && body == b,
                Err(e) => !success && message == Some(e) && body is None,
            }
        },
        _ => false,
    }
}

/// The response numbered `rseq` to the request numbered `seq`: a success
/// carrying the body (none for an empty answer), or a failure carrying
/// the error's message and no body.
pub fn respond(rseq: i64, seq: i64, command: &str, result: Result<Option<Body>, String>) -> (r:
    ProtocolMessage)
    ensures
        is_response(r, rseq, seq, command@, result),
{
    match result {
        Ok(body) => ProtocolMessage::Response {
            seq: rseq,
            request_seq: seq,
            success: true,
            command: command.to_owned(),
            message: None,
            body,
        },
        Err(e) => ProtocolMessage::Response {
            seq: rseq,
            request_seq: seq,
            success: false,
            command: command.to_owned(),
            message: Some(e),
            body: None,
        },
    }
}

} // verus!
