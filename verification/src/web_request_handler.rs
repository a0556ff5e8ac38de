//! The network worker's decisions: which headers of a typed header text
//! are sent, what is asked of the HTTP client for a request, and what the
//! worker does next on each thing that happens to it.

use std::str::FromStr;
use vstd::prelude::*;
use vstd::utf8::*;
use crate::persistence::{entries_of, header_entries, parse_entries, KeyValuePair};
use crate::{Method, Request, Response, WebRequest};

verus! {

/// Whether a byte can stand in a header value: a tab, or anything from
/// the space on but the delete character.
pub open spec fn value_byte_accepted(b: u8) -> bool {
    (b >= 32 && b != 127) || b == 9
}

/// Whether a text can be a header value: each byte of its encoding can
/// stand in one.
pub open spec fn value_accepted(value: Seq<char>) -> bool {
    forall|i: int|
        0 <= i < encode_utf8(value).len() ==> value_byte_accepted(#[trigger] encode_utf8(value)[i])
}

/// Whether `HeaderName::from_str` of the HTTP library accepts a text as
/// a header name.
pub uninterp spec fn name_accepted(name: Seq<char>) -> bool;

/// Asks `HeaderValue::from_str` whether `value` can be a header value. It
/// accepts a text exactly when each of its bytes is a tab, or is at least
/// a space and not the delete character.
#[verifier::external_body]
fn header_value_is_valid(value: &str) -> (r: bool)
    ensures
        r == value_accepted(value@),
{
    reqwest::header::HeaderValue::from_str(value).is_ok()
}

/// Asks `HeaderName::from_str` whether `name` can be a header name. The
/// answer is named, not described: it is whatever that function decides
/// for this text.
#[verifier::external_body]
fn header_name_is_valid(name: &str) -> (r: bool)
    ensures
        r == name_accepted(name@),
{
    reqwest::header::HeaderName::from_str(name).is_ok()
}

/// Whether a header is sent: its value and its name are both accepted.
pub open spec fn entry_accepted(entry: (Seq<char>, Seq<char>)) -> bool {
    value_accepted(entry.1) && name_accepted(entry.0)
}

/// Those of the first `n` entries that are sent, in their order.
pub open spec fn accepted_entries(entries: Seq<(Seq<char>, Seq<char>)>, n: int) -> Seq<
    (Seq<char>, Seq<char>),
>
    decreases n,
{
    if n <= 0 {
        Seq::empty()
    } else if entry_accepted(entries[n - 1]) {
        accepted_entries(entries, n - 1).push(entries[n - 1])
    } else {
        accepted_entries(entries, n - 1)
    }
}

/// The headers that are sent for a header text: those of its lines that
/// hold a colon, and whose name and value are accepted.
pub open spec fn sent_headers(text: Seq<char>) -> Seq<(Seq<char>, Seq<char>)> {
    accepted_entries(header_entries(text), header_entries(text).len() as int)
}

/// Keeps of `parsed` the headers that are sent.
pub fn accepted_of(parsed: &Vec<KeyValuePair>) -> (r: Vec<KeyValuePair>)
    ensures
        entries_of(r@) == accepted_entries(entries_of(parsed@), parsed@.len() as int),
{
    let mut out: Vec<KeyValuePair> = Vec::new();
    let mut i: usize = 0;
    assert(entries_of(out@) =~= Seq::empty());
    while i < parsed.len()
        invariant
            i <= parsed.len(),
            entries_of(out@) == accepted_entries(entries_of(parsed@), i as int),
        decreases parsed.len() - i,
    {
        let pair = &parsed[i];
        let ghost before = entries_of(out@);
        assert(entries_of(parsed@)[i as int] == (pair.key@, pair.value@));
        if header_value_is_valid(pair.value.as_str()) && header_name_is_valid(pair.key.as_str()) {
            out.push(KeyValuePair { key: pair.key.clone(), value: pair.value.clone() });
            assert(entries_of(out@) =~= before.push((pair.key@, pair.value@)));
        }
        i = i + 1;
    }
    out
}

/// Reads the headers to send from a typed header text. Lines without a
/// colon, and headers whose name or value is not accepted, are passed
/// over without an error.
pub fn parse_headers(text: &str) -> (r: Vec<KeyValuePair>)
    ensures
        entries_of(r@) == sent_headers(text@),
{
    let parsed = parse_entries(text);
    assert(entries_of(parsed@).len() == parsed@.len());
    accepted_of(&parsed)
}

/// What is asked of the HTTP client for one request.
#[derive(Debug)]
pub struct HttpCall {
    pub method: Method,
    pub url: String,
    pub headers: Vec<KeyValuePair>,
    pub body: Option<String>,
}

/// The call for a request: its method and URL, the headers that are sent
/// for its header text, and its body unless that is empty.
pub fn prepare_call(request: Request) -> (r: HttpCall)
    ensures
        r.method == request.method,
        r.url == request.url,
        entries_of(r.headers@) == sent_headers(request.headers@),
        request.body@.len() == 0 ==> r.body is None,
        request.body@.len() > 0 ==> r.body == Some(request.body),
{
    let headers = parse_headers(request.headers.as_str());
    let body = if request.body.as_str().is_empty() {
        None
    } else {
        Some(request.body)
    };
    HttpCall { method: request.method, url: request.url, headers, body }
}

/// What the worker waits for.
#[derive(Copy, Clone, PartialEq, Eq, Structural, Debug)]
pub enum WorkerState {
    /// The next message of the dispatch queue.
    Idle,
    /// The answer of the HTTP client to a call.
    Exchanging,
    /// The next chunk of the body, or the next message of the dispatch
    /// queue, whichever comes first.
    Streaming,
    /// Nothing: the dispatch queue was closed.
    Stopped,
}

/// What can happen to the worker.
#[derive(Debug)]
pub enum WorkerEvent {
    /// A message came from the dispatch queue.
    Inbound(WebRequest),
    /// The dispatch queue was closed.
    Closed,
    /// The HTTP client got an answer, with this status and these headers.
    Connected(u16, Vec<KeyValuePair>),
    /// The HTTP client got no answer.
    ConnectFailed,
    /// A chunk of the body arrived.
    Chunk(Vec<u8>),
    /// The body ended, or reading it failed.
    StreamEnded,
    /// The reader of the answer is gone.
    ReplyFailed,
}

/// What the worker does on an event: the state that it goes to, the call
/// to make where it goes to `Exchanging`, and the messages to send to
/// the reader of the answer, in order.
#[derive(Debug)]
pub struct WorkerStep {
    pub state: WorkerState,
    pub call: Option<HttpCall>,
    pub emit: Vec<Response>,
}

/// The state that the worker goes to from `state` on `event`. An event
/// that the worker does not wait for in its state leaves the state.
pub open spec fn next_state(state: WorkerState, event: WorkerEvent) -> WorkerState {
    match (state, event) {
        (WorkerState::Idle, WorkerEvent::Inbound(WebRequest::Request(_))) => WorkerState::Exchanging,
        (WorkerState::Idle, WorkerEvent::Closed) => WorkerState::Stopped,
        (WorkerState::Exchanging, WorkerEvent::Connected(_, _)) => WorkerState::Streaming,
        (WorkerState::Exchanging, WorkerEvent::ConnectFailed) => WorkerState::Idle,
        (WorkerState::Streaming, WorkerEvent::Inbound(WebRequest::Request(_))) => WorkerState::Exchanging,
        (WorkerState::Streaming, WorkerEvent::Inbound(WebRequest::Cancel)) => WorkerState::Idle,
        (WorkerState::Streaming, WorkerEvent::Closed) => WorkerState::Stopped,
        (WorkerState::Streaming, WorkerEvent::StreamEnded) => WorkerState::Idle,
        (WorkerState::Streaming, WorkerEvent::ReplyFailed) => WorkerState::Idle,
        _ => state,
    }
}

/// The messages that the worker sends from `state` on `event`: status
/// and headers when the answer comes, a body message for each chunk
/// while it streams, and a failure when no answer comes.
pub open spec fn emitted(state: WorkerState, event: WorkerEvent) -> Seq<Response> {
    match (state, event) {
        (WorkerState::Exchanging, WorkerEvent::Connected(status, headers)) => seq![
            Response::Status(status),
            Response::Headers(headers),
        ],
        (WorkerState::Exchanging, WorkerEvent::ConnectFailed) => seq![Response::Failure],
        (WorkerState::Streaming, WorkerEvent::Chunk(bytes)) => seq![Response::Body(bytes)],
        _ => Seq::empty(),
    }
}

/// The request that the worker takes up from `state` on `event`, if any:
/// a request that comes while it is idle, or while it streams.
pub open spec fn taken_up(state: WorkerState, event: WorkerEvent) -> Option<Request> {
    match (state, event) {
        (WorkerState::Idle, WorkerEvent::Inbound(WebRequest::Request(request))) => Some(request),
        (WorkerState::Streaming, WorkerEvent::Inbound(WebRequest::Request(request))) => Some(
            request,
        ),
        _ => None,
    }
}

/// Decides what the worker does in `state` on `event`.
pub fn worker_step(state: WorkerState, event: WorkerEvent) -> (r: WorkerStep)
    ensures
        r.state == next_state(state, event),
        r.emit@ == emitted(state, event),
        match taken_up(state, event) {
            None => r.call is None,
            Some(request) => {
                &&& r.call is Some
                &&& r.call->0.method == request.method
                &&& r.call->0.url == request.url
                &&& entries_of(r.call->0.headers@) == sent_headers(request.headers@)
                &&& request.body@.len() == 0 ==> r.call->0.body is None
                &&& request.body@.len() > 0 ==> r.call->0.body == Some(request.body)
            },
        },
{
    let mut emit: Vec<Response> = Vec::new();
    match state {
        WorkerState::Idle => match event {
            WorkerEvent::Inbound(WebRequest::Request(request)) => WorkerStep {
                state: WorkerState::Exchanging,
                call: Some(prepare_call(request)),
                emit,
            },
            WorkerEvent::Closed => WorkerStep { state: WorkerState::Stopped, call: None, emit },
            _ => WorkerStep { state, call: None, emit },
        },
        WorkerState::Exchanging => match event {
            WorkerEvent::Connected(status, headers) => {
                emit.push(Response::Status(status));
                emit.push(Response::Headers(headers));
                assert(emit@ =~= emitted(state, event));
                WorkerStep { state: WorkerState::Streaming, call: None, emit }
            },
            WorkerEvent::ConnectFailed => {
                emit.push(Response::Failure);
                assert(emit@ =~= emitted(state, event));
                WorkerStep { state: WorkerState::Idle, call: None, emit }
            },
            _ => WorkerStep { state, call: None, emit },
        },
        WorkerState::Streaming => match event {
            WorkerEvent::Chunk(bytes) => {
                emit.push(Response::Body(bytes));
                assert(emit@ =~= emitted(state, event));
                WorkerStep { state: WorkerState::Streaming, call: None, emit }
            },
            WorkerEvent::Inbound(WebRequest::Request(request)) => WorkerStep {
                state: WorkerState::Exchanging,
                call: Some(prepare_call(request)),
                emit,
            },
            WorkerEvent::Inbound(WebRequest::Cancel) => WorkerStep {
                state: WorkerState::Idle,
                call: None,
                emit,
            },
            WorkerEvent::Closed => WorkerStep { state: WorkerState::Stopped, call: None, emit },
            WorkerEvent::StreamEnded => WorkerStep { state: WorkerState::Idle, call: None, emit },
            WorkerEvent::ReplyFailed => WorkerStep { state: WorkerState::Idle, call: None, emit },
            _ => WorkerStep { state, call: None, emit },
        },
        WorkerState::Stopped => WorkerStep { state, call: None, emit },
    }
}

/// The messages that the worker sends over a run of events from `state`.
pub open spec fn run_emitted(state: WorkerState, events: Seq<WorkerEvent>) -> Seq<Response>
    decreases events.len(),
{
    if events.len() == 0 {
        Seq::empty()
    } else {
        emitted(state, events[0]) + run_emitted(next_state(state, events[0]), events.drop_first())
    }
}

/// The state of the worker after a run of events from `state`.
pub open spec fn run_state(state: WorkerState, events: Seq<WorkerEvent>) -> WorkerState
    decreases events.len(),
{
    if events.len() == 0 {
        state
    } else {
        run_state(next_state(state, events[0]), events.drop_first())
    }
}

/// The arrival of each of `chunks`, in order.
pub open spec fn chunk_events(chunks: Seq<Vec<u8>>) -> Seq<WorkerEvent> {
    chunks.map_values(|c: Vec<u8>| WorkerEvent::Chunk(c))
}

/// A body message for each of `chunks`, in order.
pub open spec fn body_messages(chunks: Seq<Vec<u8>>) -> Seq<Response> {
    chunks.map_values(|c: Vec<u8>| Response::Body(c))
}

/// While it streams, the worker sends a body message for each chunk that
/// arrives, in the order of arrival, and goes on streaming.
pub proof fn lemma_stream_chunks(chunks: Seq<Vec<u8>>, then: Seq<WorkerEvent>)
    ensures
        run_emitted(WorkerState::Streaming, chunk_events(chunks) + then) == body_messages(chunks)
            + run_emitted(WorkerState::Streaming, then),
        run_state(WorkerState::Streaming, chunk_events(chunks) + then) == run_state(
            WorkerState::Streaming,
            then,
        ),
    decreases chunks.len(),
{
    let events = chunk_events(chunks) + then;
    if chunks.len() == 0 {
        assert(events =~= then);
        assert(body_messages(chunks) + run_emitted(WorkerState::Streaming, then) =~= run_emitted(
            WorkerState::Streaming,
            then,
        ));
    } else {
        let rest = chunks.drop_first();
        lemma_stream_chunks(rest, then);
        assert(events[0] == WorkerEvent::Chunk(chunks[0]));
        assert(events.drop_first() =~= chunk_events(rest) + then);
        assert(body_messages(chunks) =~= seq![Response::Body(chunks[0])] + body_messages(rest));
        assert(run_emitted(WorkerState::Streaming, events) =~= body_messages(chunks) + run_emitted(
            WorkerState::Streaming,
            then,
        ));
    }
}

/// For a request whose exchange succeeds, the worker sends the status,
/// then the headers, then one body message for each chunk in the order
/// of arrival, and nothing else; when the body ends it is idle again.
pub proof fn lemma_streaming_order(
    request: Request,
    status: u16,
    headers: Vec<KeyValuePair>,
    chunks: Seq<Vec<u8>>,
)
    ensures
        run_emitted(
            WorkerState::Idle,
            seq![
                WorkerEvent::Inbound(WebRequest::Request(request)),
                WorkerEvent::Connected(status, headers),
            ] + chunk_events(chunks) + seq![WorkerEvent::StreamEnded],
        ) == seq![Response::Status(status), Response::Headers(headers)] + body_messages(chunks),
        run_state(
            WorkerState::Idle,
            seq![
                WorkerEvent::Inbound(WebRequest::Request(request)),
                WorkerEvent::Connected(status, headers),
            ] + chunk_events(chunks) + seq![WorkerEvent::StreamEnded],
        ) == WorkerState::Idle,
{
    let first = WorkerEvent::Inbound(WebRequest::Request(request));
    let second = WorkerEvent::Connected(status, headers);
    let tail = seq![WorkerEvent::StreamEnded];
    let events = seq![first, second] + chunk_events(chunks) + tail;
    let after_first = events.drop_first();
    let after_second = after_first.drop_first();
    assert(events[0] == first);
    assert(after_first[0] == second);
    assert(after_second =~= chunk_events(chunks) + tail);
    lemma_stream_chunks(chunks, tail);
    assert(tail.drop_first() =~= Seq::<WorkerEvent>::empty());
    assert(run_emitted(WorkerState::Streaming, tail) =~= Seq::<Response>::empty()) by {
        reveal_with_fuel(run_emitted, 2);
    }
    assert(run_state(WorkerState::Streaming, tail) == WorkerState::Idle) by {
        reveal_with_fuel(run_state, 2);
    }
    assert(run_emitted(WorkerState::Exchanging, after_first) =~= seq![
        Response::Status(status),
        Response::Headers(headers),
    ] + body_messages(chunks));
    assert(run_emitted(WorkerState::Idle, events) =~= run_emitted(
        WorkerState::Exchanging,
        after_first,
    ));
    assert(run_state(WorkerState::Exchanging, after_first) == run_state(
        WorkerState::Streaming,
        after_second,
    ));
    assert(run_state(WorkerState::Idle, events) == run_state(WorkerState::Exchanging, after_first));
}

/// Some message before message `i` of `messages` is a status.
pub open spec fn status_before(messages: Seq<Response>, i: int) -> bool {
    exists|j: int| 0 <= j < i && (#[trigger] messages[j]) is Status
}

/// A message that comes while the worker streams ends the stream: the
/// worker leaves the streaming state without sending anything.
pub proof fn lemma_inbound_ends_stream(message: WebRequest)
    ensures
        next_state(WorkerState::Streaming, WorkerEvent::Inbound(message)) != WorkerState::Streaming,
        emitted(WorkerState::Streaming, WorkerEvent::Inbound(message)).len() == 0,
{
}

/// Once the worker has left a stream, whatever happens next, it sends no
/// body message before it has sent the status of a new answer: no chunk
/// of an abandoned stream is passed on.
pub proof fn lemma_no_body_before_status(state: WorkerState, events: Seq<WorkerEvent>, i: int)
    requires
        state != WorkerState::Streaming,
        0 <= i < run_emitted(state, events).len(),
        run_emitted(state, events)[i] is Body,
    ensures
        status_before(run_emitted(state, events), i),
    decreases events.len(),
{
    let messages = run_emitted(state, events);
    if events.len() > 0 {
        let now = emitted(state, events[0]);
        let next = next_state(state, events[0]);
        let later = run_emitted(next, events.drop_first());
        assert(messages == now + later);
        if next == WorkerState::Streaming {
            assert(messages[0] is Status);
        } else {
            assert(i >= now.len());
            assert(later[i - now.len()] == messages[i]);
            lemma_no_body_before_status(next, events.drop_first(), i - now.len());
            let j = choose|j: int| 0 <= j < i - now.len() && (#[trigger] later[j]) is Status;
            assert(messages[j + now.len()] == later[j]);
        }
    }
}

} // verus!
