//! Which output mode a request asks for.

use headroom_proxy::eventstream_to_sse::OutputMode;
use http::HeaderMap;

fn mode_of(accept: &str) -> OutputMode {
    let mut h = HeaderMap::new();
    h.insert(http::header::ACCEPT, accept.parse().unwrap());
    OutputMode::from_accept(&h, &OutputMode::default_eventstream_accept_values())
}

#[test]
fn accept_eventstream_selects_passthrough() {
    let mut h = HeaderMap::new();
    h.insert(
        http::header::ACCEPT,
        "application/vnd.amazon.eventstream".parse().unwrap(),
    );
    let mode = OutputMode::from_accept(&h, &OutputMode::default_eventstream_accept_values());
    assert_eq!(mode, OutputMode::EventStream);
}

#[test]
fn accept_eventstream_with_q_param_still_selects_passthrough() {
    // Quality parameters are stripped before comparison.
    let mut h = HeaderMap::new();
    h.insert(
        http::header::ACCEPT,
        "application/vnd.amazon.eventstream;q=0.9".parse().unwrap(),
    );
    let mode = OutputMode::from_accept(&h, &OutputMode::default_eventstream_accept_values());
    assert_eq!(mode, OutputMode::EventStream);
}

#[test]
fn accept_text_event_stream_selects_sse() {
    let mut h = HeaderMap::new();
    h.insert(http::header::ACCEPT, "text/event-stream".parse().unwrap());
    let mode = OutputMode::from_accept(&h, &OutputMode::default_eventstream_accept_values());
    assert_eq!(mode, OutputMode::Sse);
}

#[test]
fn no_accept_header_defaults_to_sse() {
    let h = HeaderMap::new();
    let mode = OutputMode::from_accept(&h, &OutputMode::default_eventstream_accept_values());
    assert_eq!(mode, OutputMode::Sse);
}

#[test]
fn multi_accept_with_eventstream_among_them_selects_passthrough() {
    let mut h = HeaderMap::new();
    h.insert(
        http::header::ACCEPT,
        "text/html, application/vnd.amazon.eventstream;q=0.9, */*"
            .parse()
            .unwrap(),
    );
    let mode = OutputMode::from_accept(&h, &OutputMode::default_eventstream_accept_values());
    assert_eq!(mode, OutputMode::EventStream);
}

#[test]
fn default_values_are_the_one_media_type() {
    assert_eq!(
        OutputMode::default_eventstream_accept_values(),
        vec!["application/vnd.amazon.eventstream".to_string()]
    );
}

#[test]
fn anything_goes_selects_sse() {
    assert_eq!(mode_of("*/*"), OutputMode::Sse);
    assert_eq!(mode_of(""), OutputMode::Sse);
    assert_eq!(mode_of(",,;,"), OutputMode::Sse);
}

#[test]
fn accept_is_compared_without_case_and_outer_spaces() {
    assert_eq!(
        mode_of("  APPLICATION/VND.Amazon.EventStream  ; q=1"),
        OutputMode::EventStream
    );
    assert_eq!(
        mode_of("application/vnd.amazon.eventstreams"),
        OutputMode::Sse
    );
    assert_eq!(
        mode_of("application/vnd.amazon .eventstream"),
        OutputMode::Sse
    );
}

#[test]
fn an_accept_value_that_is_no_text_selects_sse() {
    let mut h = HeaderMap::new();
    let raw = http::HeaderValue::from_bytes(b"application/vnd.amazon.eventstream\xff").unwrap();
    h.insert(http::header::ACCEPT, raw);
    let mode = OutputMode::from_accept(&h, &OutputMode::default_eventstream_accept_values());
    assert_eq!(mode, OutputMode::Sse);
}

#[test]
fn only_the_first_accept_header_counts() {
    let mut h = HeaderMap::new();
    h.append("accept", "text/html".parse().unwrap());
    h.append(
        "accept",
        "application/vnd.amazon.eventstream".parse().unwrap(),
    );
    let mode = OutputMode::from_accept(&h, &OutputMode::default_eventstream_accept_values());
    assert_eq!(mode, OutputMode::Sse);
}

#[test]
fn configured_values_take_the_place_of_the_default() {
    let values = vec!["application/x-one".to_string(), "application/x-two".to_string()];
    assert_eq!(
        OutputMode::for_accept_value("text/html, Application/X-Two", &values),
        OutputMode::EventStream
    );
    assert_eq!(
        OutputMode::for_accept_value("application/vnd.amazon.eventstream", &values),
        OutputMode::Sse
    );
    assert_eq!(
        OutputMode::for_accept_value("application/x-one", &[]),
        OutputMode::Sse
    );
}

#[test]
fn one_entry_is_enough() {
    let values = OutputMode::default_eventstream_accept_values();
    let hit = "application/vnd.amazon.eventstream";
    for (a, b) in [(hit, "*/*"), ("*/*", hit), (hit, hit), ("*/*", "*/*")] {
        let joined = OutputMode::for_accept_value(&format!("{a},{b}"), &values);
        let alone = OutputMode::for_accept_value(a, &values) == OutputMode::EventStream
            || OutputMode::for_accept_value(b, &values) == OutputMode::EventStream;
        assert_eq!(joined == OutputMode::EventStream, alone);
    }
}
