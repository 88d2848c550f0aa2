use vstd::prelude::*;
use crate::json::{JsonValue, json_of, parse_json};

verus! {

/// What one HTTP exchange handed back: the status code, the response headers
/// rendered as text (kept only for diagnostics), and the body text.
#[derive(Debug)]
pub struct Response {
    pub status: u16,
    pub headers: String,
    pub body: String,
}

/// One observation of the transport: either the connection itself failed, or
/// the server replied.
#[derive(Debug)]
pub enum TransportEvent {
    Failed { message: String },
    Replied { response: Response },
}

/// The error taxonomy of a single logical request.
///
/// `TooManyRetries`: the retry budget ran out on rate-limited replies.
/// `Decode`: the reply was not valid JSON; the raw status, headers and body
/// are kept for diagnosis, and the request is never retried on this account.
/// `Transport`: the connection failed; propagated immediately.
#[derive(Debug)]
pub enum FetchError {
    TooManyRetries,
    Decode { status: u16, headers: String, body: String },
    Transport { message: String },
}

/// Decides what a non-rate-limited reply means: the parsed body on valid
/// JSON, and otherwise a `Decode` error carrying the raw reply.
pub fn interpret_response(resp: &Response) -> (r: Result<JsonValue, FetchError>)
    ensures
        match r {
            Ok(v) => json_of(resp.body@) == Some(v),
            Err(e) => json_of(resp.body@) is None && e == (FetchError::Decode {
                status: resp.status,
                headers: resp.headers,
                body: resp.body,
            }),
        },
{
    match parse_json(resp.body.as_str()) {
        Some(v) => Ok(v),
        None => Err(FetchError::Decode {
            status: resp.status,
            headers: resp.headers.clone(),
            body: resp.body.clone(),
        }),
    }
}

} // verus!
