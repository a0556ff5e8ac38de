use rester::persistence::{parse_entries, KeyValuePair, Request, RequestBuilder, RequestCollection};
use rester::Method;

fn preset(key: &str, url: &str) -> Request {
    let mut builder = RequestBuilder::new(key);
    builder.url(url);
    builder.build()
}

#[test]
fn pair_to_string_quotes_key_and_value() {
    let pair = KeyValuePair { key: "Accept".to_string(), value: "text/html".to_string() };
    assert_eq!(pair.to_string(), "\"Accept\":\"text/html\"");
    let pair = KeyValuePair { key: "a\"b".to_string(), value: "c\nd".to_string() };
    assert_eq!(pair.to_string(), "\"a\\\"b\":\"c\\nd\"");
}

#[test]
fn headers_to_string_joins_the_pairs() {
    let mut request = preset("k", "http://x");
    assert_eq!(request.headers_to_string(), "");
    request.headers = Some(vec![
        KeyValuePair { key: "A".to_string(), value: "1".to_string() },
        KeyValuePair { key: "B".to_string(), value: "2".to_string() },
    ]);
    assert_eq!(request.headers_to_string(), "\"A\":\"1\"\r\n\"B\":\"2\"");
    request.headers = Some(vec![KeyValuePair { key: "A".to_string(), value: "1".to_string() }]);
    assert_eq!(request.headers_to_string(), "\"A\":\"1\"");
    request.headers = Some(Vec::new());
    assert_eq!(request.headers_to_string(), "");
}

#[test]
fn parse_entries_splits_lines_at_the_first_colon() {
    let pairs = parse_entries("Host: example.test:8080\nAccept:*/*");
    assert_eq!(pairs.len(), 2);
    assert_eq!((pairs[0].key.as_str(), pairs[0].value.as_str()), ("Host", "example.test:8080"));
    assert_eq!((pairs[1].key.as_str(), pairs[1].value.as_str()), ("Accept", "*/*"));
}

#[test]
fn parse_entries_trims_white_space_and_carriage_returns() {
    let pairs = parse_entries("  X-Test \t:  ok  \r\nY:1\r");
    assert_eq!(pairs.len(), 2);
    assert_eq!((pairs[0].key.as_str(), pairs[0].value.as_str()), ("X-Test", "ok"));
    assert_eq!((pairs[1].key.as_str(), pairs[1].value.as_str()), ("Y", "1"));
}

#[test]
fn parse_entries_passes_over_lines_without_a_colon() {
    let pairs = parse_entries("X-Test: ok\nbroken-line\n\nY: 1\n");
    assert_eq!(pairs.len(), 2);
    assert_eq!(pairs[0].key, "X-Test");
    assert_eq!(pairs[1].key, "Y");
    assert!(parse_entries("").is_empty());
    assert!(parse_entries("no colon here").is_empty());
}

#[test]
fn parse_entries_keeps_empty_names_and_values() {
    let pairs = parse_entries(":\n a :");
    assert_eq!(pairs.len(), 2);
    assert_eq!((pairs[0].key.as_str(), pairs[0].value.as_str()), ("", ""));
    assert_eq!((pairs[1].key.as_str(), pairs[1].value.as_str()), ("a", ""));
}

#[test]
fn builder_starts_with_get_and_nothing_else() {
    let builder = RequestBuilder::new("name");
    assert_eq!(builder.key, "name");
    assert_eq!(builder.method, Method::GET);
    assert!(builder.url.is_none());
    assert!(builder.headers.is_none());
    assert!(builder.body.is_none());
}

#[test]
fn builder_builds_what_was_set() {
    let mut builder = RequestBuilder::new("name");
    builder.url("http://example.test");
    builder.method(Method::PUT);
    builder.headers("A: 1\nnothing\nB : 2");
    builder.body("payload");
    let request = builder.build();
    assert_eq!(request.key, "name");
    assert_eq!(request.method, Method::PUT);
    assert_eq!(request.url, "http://example.test");
    assert_eq!(request.body.as_deref(), Some("payload"));
    let headers = request.headers.unwrap();
    assert_eq!(headers.len(), 2);
    assert_eq!((headers[0].key.as_str(), headers[0].value.as_str()), ("A", "1"));
    assert_eq!((headers[1].key.as_str(), headers[1].value.as_str()), ("B", "2"));
}

#[test]
fn builder_setters_hand_back_the_builder() {
    let mut builder = RequestBuilder::new("name");
    assert_eq!(builder.url("http://x").url.as_deref(), Some("http://x"));
    assert_eq!(builder.method(Method::PATCH).method, Method::PATCH);
    assert_eq!(builder.headers("A: 1").headers.as_deref(), Some("A: 1"));
    assert_eq!(builder.body("b").body.as_deref(), Some("b"));
}

#[test]
fn header_text_without_headers_builds_none() {
    let mut builder = RequestBuilder::new("name");
    builder.url("http://x");
    builder.headers("no colon\n\n");
    let request = builder.build();
    assert!(request.headers.is_none());
    assert!(request.body.is_none());
    assert!(preset("k", "u").headers.is_none());
}

#[test]
fn adding_a_new_key_appends() {
    let mut collection = RequestCollection::new();
    assert!(collection.requests.is_empty());
    collection.add_request(preset("a", "1"));
    collection.add_request(preset("b", "2"));
    let keys: Vec<&str> = collection.requests.iter().map(|r| r.key.as_str()).collect();
    assert_eq!(keys, vec!["a", "b"]);
}

#[test]
fn adding_a_key_twice_replaces_in_place() {
    let mut collection = RequestCollection::new();
    collection.add_request(preset("first", "http://1"));
    collection.add_request(preset("foo", "http://old"));
    collection.add_request(preset("last", "http://3"));
    collection.add_request(preset("foo", "http://new"));
    assert_eq!(collection.requests.len(), 3);
    let found: Vec<usize> =
        (0..3).filter(|i| collection.requests[*i].key == "foo").collect();
    assert_eq!(found, vec![1]);
    assert_eq!(collection.requests[1].url, "http://new");
    assert_eq!(collection.requests[0].url, "http://1");
    assert_eq!(collection.requests[2].url, "http://3");
}

#[test]
fn adding_a_key_twice_to_an_empty_collection_leaves_one() {
    let mut collection = RequestCollection::new();
    collection.add_request(preset("foo", "http://old"));
    collection.add_request(preset("foo", "http://new"));
    assert_eq!(collection.requests.len(), 1);
    assert_eq!(collection.requests[0].url, "http://new");
}

#[test]
fn removing_takes_out_the_preset_at_the_index() {
    let mut collection = RequestCollection::new();
    collection.add_request(preset("a", "1"));
    collection.add_request(preset("b", "2"));
    collection.add_request(preset("c", "3"));
    collection.remove_request(1);
    let keys: Vec<&str> = collection.requests.iter().map(|r| r.key.as_str()).collect();
    assert_eq!(keys, vec!["a", "c"]);
    collection.remove_request(5);
    assert_eq!(collection.requests.len(), 2);
}
