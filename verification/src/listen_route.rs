//! How the local transcription service answers a `/listen` request: a query that does not
//! parse is refused, a WebSocket upgrade starts a live session, and any other request is
//! a batch job whose body must not be empty and whose answer is streamed as server-sent
//! events when the client accepts them, or returned as one JSON document.
//!
//! The front end parses the query, loads the model, reads the body and runs the session
//! or the batch job; what is done with each of those results is decided here.

use vstd::prelude::*;
use crate::text::{ascii_lowercase, ascii_lower_char, chars_of, concat};
use crate::command_popup::{contains_seq, contains_text};

verus! {

/// What the service does with a request once its headers and query are known.
#[derive(Debug)]
pub enum ListenStep {
    /// Answer 400 with this message.
    Reject(String),
    /// Load the model and upgrade the connection to a live session.
    Upgrade,
    /// Read the body of a batch job.
    ReadBody,
}

/// What the service does with a batch job once its body is read.
#[derive(Clone, Copy, Debug, PartialEq, Eq, Structural)]
pub enum BatchRoute {
    /// Answer 400: the body is empty.
    RejectEmpty,
    /// Transcribe, streaming progress as server-sent events.
    Sse,
    /// Transcribe and answer with one JSON document.
    Json,
}

/// Whether `a` and `b` are equal ignoring ASCII case, as `str::eq_ignore_ascii_case`
/// compares them.
pub open spec fn eq_ignore_ascii_case(a: Seq<char>, b: Seq<char>) -> bool {
    ascii_lowercase(a) == ascii_lowercase(b)
}

/// The request asks for a WebSocket upgrade: its `upgrade` header is `websocket` in any
/// ASCII case.
pub open spec fn wants_websocket(upgrade: Option<Seq<char>>) -> bool {
    match upgrade {
        Some(u) => eq_ignore_ascii_case(u, "websocket"@),
        None => false,
    }
}

fn ascii_case_eq(a: &str, b: &str) -> (r: bool)
    ensures
        r == eq_ignore_ascii_case(a@, b@),
{
    let av = chars_of(a);
    let bv = chars_of(b);
    if av.len() != bv.len() {
        proof {
            assert(ascii_lowercase(a@).len() != ascii_lowercase(b@).len());
        }
        return false;
    }
    let mut i: usize = 0;
    while i < av.len()
        invariant
            i <= av@.len() == bv@.len(),
            av@ == a@,
            bv@ == b@,
            forall|j: int| 0 <= j < i ==> ascii_lowercase(a@)[j] == ascii_lowercase(b@)[j],
        decreases av.len() - i,
    {
        if ascii_lower_char(av[i]) != ascii_lower_char(bv[i]) {
            proof {
                assert(ascii_lowercase(a@)[i as int] != ascii_lowercase(b@)[i as int]);
            }
            return false;
        }
        i += 1;
    }
    proof {
        assert(ascii_lowercase(a@) =~= ascii_lowercase(b@));
    }
    true
}

/// The first decision on a request: a query that did not parse is refused with the parse
/// error's message, else an upgrade request becomes a live session and any other request
/// a batch job.
pub fn listen_step(upgrade: Option<&str>, query_error: Option<String>) -> (r: ListenStep)
    ensures
        match query_error {
            Some(e) => r matches ListenStep::Reject(m) && m == e,
            None => if wants_websocket(
                match upgrade {
                    Some(u) => Some(u@),
                    None => None,
                },
            ) {
                r is Upgrade
            } else {
                r is ReadBody
            },
        },
{
    if let Some(e) = query_error {
        return ListenStep::Reject(e);
    }
    let ws = match upgrade {
        Some(u) => ascii_case_eq(u, "websocket"),
        None => false,
    };
    if ws {
        ListenStep::Upgrade
    } else {
        ListenStep::ReadBody
    }
}

/// The route of a batch job: an empty body is refused, a client that accepts
/// `text/event-stream` gets server-sent events, any other gets JSON.
pub fn batch_route(accept: &str, body_len: usize) -> (r: BatchRoute)
    ensures
        r == if body_len == 0 {
            BatchRoute::RejectEmpty
        } else if contains_seq(accept@, "text/event-stream"@) {
            BatchRoute::Sse
        } else {
            BatchRoute::Json
        },
{
    if body_len == 0 {
        BatchRoute::RejectEmpty
    } else if contains_text(accept, "text/event-stream") {
        BatchRoute::Sse
    } else {
        BatchRoute::Json
    }
}

/// The message of a refused empty batch body.
pub fn empty_body_message() -> (r: String)
    ensures
        r@ == "request body is empty"@,
{
    "request body is empty".to_owned()
}

/// The message of a live session whose model did not load (answered with 500).
pub fn model_load_failure(error: &str) -> (r: String)
    ensures
        r@ == "failed to load model: "@ + error@,
{
    concat("failed to load model: ", error)
}

} // verus!
