use rester::persistence::KeyValuePair;
use rester::web_request_handler::{
    parse_headers, prepare_call, worker_step, WorkerEvent, WorkerState,
};
use rester::{Method, Request, Response, WebRequest};

fn request(url: &str) -> Request {
    Request {
        method: Method::GET,
        url: url.to_string(),
        headers: String::new(),
        body: String::new(),
    }
}

fn pairs(headers: &[KeyValuePair]) -> Vec<(&str, &str)> {
    headers.iter().map(|p| (p.key.as_str(), p.value.as_str())).collect()
}

/// Runs the events through the worker and collects what it emits.
fn run(mut state: WorkerState, events: Vec<WorkerEvent>) -> (WorkerState, Vec<Response>) {
    let mut seen = Vec::new();
    for event in events {
        let step = worker_step(state, event);
        state = step.state;
        seen.extend(step.emit);
    }
    (state, seen)
}

fn kinds(messages: &[Response]) -> Vec<&'static str> {
    messages
        .iter()
        .map(|m| match m {
            Response::Status(_) => "Status",
            Response::Headers(_) => "Headers",
            Response::Body(_) => "Body",
            Response::Failure => "Failure",
        })
        .collect()
}

#[test]
fn header_parsing_skips_lines_without_a_colon() {
    let headers = parse_headers("X-Test: ok\nbroken-line\nY: 1");
    assert_eq!(pairs(&headers), vec![("X-Test", "ok"), ("Y", "1")]);
}

#[test]
fn header_parsing_takes_carriage_returns_as_white_space() {
    let headers = parse_headers("X-Test: ok\r\nY: 1\r\n");
    assert_eq!(pairs(&headers), vec![("X-Test", "ok"), ("Y", "1")]);
}

#[test]
fn header_parsing_drops_names_that_are_not_accepted() {
    let headers = parse_headers("bad name: 1\n: 2\nna(me: 3\nGood-Name: 4\nx_y.z~: 5");
    assert_eq!(pairs(&headers), vec![("Good-Name", "4"), ("x_y.z~", "5")]);
}

#[test]
fn header_parsing_drops_values_that_are_not_accepted() {
    let headers = parse_headers("A: one\u{7f}two\nB: bell\u{7}\nC: tab\tinside\nD: caf\u{e9}\nE:");
    assert_eq!(pairs(&headers), vec![("C", "tab\tinside"), ("D", "caf\u{e9}"), ("E", "")]);
}

#[test]
fn header_parsing_of_nothing_gives_nothing() {
    assert!(parse_headers("").is_empty());
    assert!(parse_headers("\n\n").is_empty());
}

#[test]
fn call_has_a_body_only_where_the_request_has_one() {
    let mut with_body = request("http://example.test");
    with_body.method = Method::POST;
    with_body.headers = "A: 1\nskip me".to_string();
    with_body.body = "payload".to_string();
    let call = prepare_call(with_body);
    assert_eq!(call.method, Method::POST);
    assert_eq!(call.url, "http://example.test");
    assert_eq!(pairs(&call.headers), vec![("A", "1")]);
    assert_eq!(call.body.as_deref(), Some("payload"));
    let call = prepare_call(request("http://example.test"));
    assert!(call.body.is_none());
    assert!(call.headers.is_empty());
}

#[test]
fn exchange_with_three_chunks_is_sent_in_order() {
    let headers = vec![KeyValuePair { key: "a".to_string(), value: "b".to_string() }];
    let (state, seen) = run(
        WorkerState::Idle,
        vec![
            WorkerEvent::Inbound(WebRequest::Request(request("http://example.test/ok"))),
            WorkerEvent::Connected(200, headers),
            WorkerEvent::Chunk(vec![1]),
            WorkerEvent::Chunk(vec![2, 2]),
            WorkerEvent::Chunk(vec![3, 3, 3]),
            WorkerEvent::StreamEnded,
        ],
    );
    assert_eq!(state, WorkerState::Idle);
    assert_eq!(kinds(&seen), vec!["Status", "Headers", "Body", "Body", "Body"]);
    assert!(matches!(seen[0], Response::Status(200)));
    assert!(matches!(&seen[1], Response::Headers(h) if h.len() == 1 && h[0].key == "a"));
    assert!(matches!(&seen[2], Response::Body(b) if b == &vec![1]));
    assert!(matches!(&seen[3], Response::Body(b) if b == &vec![2, 2]));
    assert!(matches!(&seen[4], Response::Body(b) if b == &vec![3, 3, 3]));
}

#[test]
fn a_request_is_taken_up_with_its_call() {
    let mut first = request("http://example.test");
    first.headers = "A: 1".to_string();
    let step = worker_step(WorkerState::Idle, WorkerEvent::Inbound(WebRequest::Request(first)));
    assert_eq!(step.state, WorkerState::Exchanging);
    assert!(step.emit.is_empty());
    let call = step.call.unwrap();
    assert_eq!(call.url, "http://example.test");
    assert_eq!(pairs(&call.headers), vec![("A", "1")]);
}

#[test]
fn a_failed_exchange_sends_one_failure() {
    let (state, seen) = run(
        WorkerState::Idle,
        vec![
            WorkerEvent::Inbound(WebRequest::Request(request("http://nowhere.test"))),
            WorkerEvent::ConnectFailed,
        ],
    );
    assert_eq!(state, WorkerState::Idle);
    assert_eq!(kinds(&seen), vec!["Failure"]);
}

#[test]
fn a_second_request_ends_the_first_stream() {
    let (state, seen) = run(
        WorkerState::Idle,
        vec![
            WorkerEvent::Inbound(WebRequest::Request(request("http://first.test"))),
            WorkerEvent::Connected(200, Vec::new()),
            WorkerEvent::Chunk(vec![1]),
            WorkerEvent::Inbound(WebRequest::Request(request("http://second.test"))),
            WorkerEvent::Chunk(vec![9]),
            WorkerEvent::Chunk(vec![9]),
            WorkerEvent::Connected(404, Vec::new()),
            WorkerEvent::Chunk(vec![2]),
            WorkerEvent::StreamEnded,
        ],
    );
    assert_eq!(state, WorkerState::Idle);
    assert_eq!(
        kinds(&seen),
        vec!["Status", "Headers", "Body", "Status", "Headers", "Body"]
    );
    assert!(matches!(seen[3], Response::Status(404)));
    assert!(matches!(&seen[5], Response::Body(b) if b == &vec![2]));
}

#[test]
fn the_second_request_is_the_one_that_is_called() {
    let step = worker_step(
        WorkerState::Streaming,
        WorkerEvent::Inbound(WebRequest::Request(request("http://second.test"))),
    );
    assert_eq!(step.state, WorkerState::Exchanging);
    assert!(step.emit.is_empty());
    assert_eq!(step.call.unwrap().url, "http://second.test");
}

#[test]
fn a_cancel_ends_the_stream_without_a_call() {
    let step = worker_step(WorkerState::Streaming, WorkerEvent::Inbound(WebRequest::Cancel));
    assert_eq!(step.state, WorkerState::Idle);
    assert!(step.call.is_none());
    assert!(step.emit.is_empty());
    let step = worker_step(WorkerState::Idle, WorkerEvent::Inbound(WebRequest::Cancel));
    assert_eq!(step.state, WorkerState::Idle);
    assert!(step.call.is_none());
}

#[test]
fn a_lost_reader_ends_the_stream() {
    let step = worker_step(WorkerState::Streaming, WorkerEvent::ReplyFailed);
    assert_eq!(step.state, WorkerState::Idle);
    assert!(step.emit.is_empty());
}

#[test]
fn a_closed_queue_stops_the_worker() {
    assert_eq!(worker_step(WorkerState::Idle, WorkerEvent::Closed).state, WorkerState::Stopped);
    assert_eq!(
        worker_step(WorkerState::Streaming, WorkerEvent::Closed).state,
        WorkerState::Stopped
    );
    let step = worker_step(
        WorkerState::Stopped,
        WorkerEvent::Inbound(WebRequest::Request(request("http://late.test"))),
    );
    assert_eq!(step.state, WorkerState::Stopped);
    assert!(step.call.is_none());
}

#[test]
fn events_that_are_not_waited_for_change_nothing() {
    let step = worker_step(WorkerState::Idle, WorkerEvent::Chunk(vec![1]));
    assert_eq!(step.state, WorkerState::Idle);
    assert!(step.emit.is_empty());
    let step = worker_step(WorkerState::Exchanging, WorkerEvent::Chunk(vec![1]));
    assert_eq!(step.state, WorkerState::Exchanging);
    assert!(step.emit.is_empty());
    let step = worker_step(WorkerState::Idle, WorkerEvent::Connected(200, Vec::new()));
    assert_eq!(step.state, WorkerState::Idle);
    assert!(step.emit.is_empty());
}
