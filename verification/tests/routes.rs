//! The route table.

use headroom_proxy::routes::{app_routes, Handler, Verb};
use std::collections::HashSet;

fn has(bedrock: bool, conversations: bool, path: &str, verb: Verb, handler: Handler) -> bool {
    app_routes(bedrock, conversations)
        .iter()
        .any(|r| r.path == path && r.verb == verb && r.handler == handler)
}

#[test]
fn routes_are_as_many_as_are_switched_on() {
    assert_eq!(app_routes(false, false).len(), 6);
    assert_eq!(app_routes(true, false).len(), 10);
    assert_eq!(app_routes(false, true).len(), 14);
    assert_eq!(app_routes(true, true).len(), 18);
}

#[test]
fn base_routes_are_always_there() {
    for (bedrock, conversations) in [(false, false), (true, false), (false, true), (true, true)] {
        assert!(has(
            bedrock,
            conversations,
            "/healthz",
            Verb::Get,
            Handler::Healthz
        ));
        assert!(has(
            bedrock,
            conversations,
            "/healthz/upstream",
            Verb::Get,
            Handler::HealthzUpstream
        ));
        assert!(has(
            bedrock,
            conversations,
            "/metrics",
            Verb::Get,
            Handler::Metrics
        ));
        assert!(has(
            bedrock,
            conversations,
            "/v1/chat/completions",
            Verb::Post,
            Handler::ChatCompletions
        ));
    }
}

#[test]
fn bedrock_routes_follow_their_switch() {
    let path = "/model/:model_id/invoke-with-response-stream";
    let handler = Handler::BedrockInvokeStreaming;
    assert!(has(true, false, path, Verb::Post, handler));
    assert!(!has(false, true, path, Verb::Post, handler));
    let flagged: Vec<&str> = app_routes(true, true)
        .iter()
        .filter(|r| r.bedrock)
        .map(|r| r.path)
        .collect();
    assert_eq!(
        flagged,
        vec![
            "/model/:model_id/invoke",
            "/model/:model_id/converse",
            "/model/:model_id/invoke-with-response-stream",
            "/model/:model_id/converse-stream",
        ]
    );
}

#[test]
fn conversation_routes_follow_their_switch() {
    let path = "/v1/conversations/:conversation_id";
    assert!(has(
        false,
        true,
        path,
        Verb::Delete,
        Handler::ConversationsDelete
    ));
    assert!(!has(
        true,
        false,
        path,
        Verb::Delete,
        Handler::ConversationsDelete
    ));
}

#[test]
fn no_two_routes_share_path_and_method() {
    let routes = app_routes(true, true);
    let distinct: HashSet<String> = routes
        .iter()
        .map(|r| format!("{:?} {}", r.verb, r.path))
        .collect();
    assert_eq!(distinct.len(), routes.len());
}
