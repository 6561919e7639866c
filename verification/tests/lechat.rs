use vmux_desktop::lechat::{
    bridge_request_action, call_tool_params, delivery_error, delivery_result, is_chat_origin,
    BridgeAction, PendingBridgeCalls,
};
use vmux_desktop::settings_path::JsonValue;

fn obj(members: Vec<(&str, JsonValue)>) -> JsonValue {
    JsonValue::Object(members.into_iter().map(|(k, v)| (k.to_string(), v)).collect())
}

fn str_of(v: Option<&JsonValue>) -> Option<&str> {
    match v {
        Some(JsonValue::Str(s)) => Some(s.as_str()),
        _ => None,
    }
}

#[test]
fn is_chat_origin_accepts_prod_and_local() {
    assert!(is_chat_origin("https://chat.mistral.ai/"));
    assert!(is_chat_origin("https://chat.mistral.ai/chat/abc?x=1"));
    assert!(is_chat_origin("https://chat.local.mistral.ai:8443/"));
    assert!(is_chat_origin("https://chat.local.mistral.ai:8443"));
}

#[test]
fn is_chat_origin_rejects_others() {
    assert!(!is_chat_origin("http://chat.mistral.ai/"));
    assert!(!is_chat_origin("https://evil.com/"));
    assert!(!is_chat_origin("https://chat.mistral.ai.evil.com/"));
    assert!(!is_chat_origin("https://notchat.mistral.ai/"));
    assert!(!is_chat_origin("https://chat.local.mistral.ai/"));
    assert!(!is_chat_origin("vmux://terminal/"));
    assert!(!is_chat_origin(""));
}

#[test]
fn delivery_result_shapes_id_and_result() {
    let payload = delivery_result("lcm-3", obj(vec![("content", JsonValue::Array(vec![]))]));
    assert_eq!(str_of(payload.get_field("id")), Some("lcm-3"));
    assert!(matches!(
        payload.get_field("result").and_then(|r| r.get_field("content")),
        Some(JsonValue::Array(a)) if a.is_empty()
    ));
    assert!(payload.get_field("error").is_none());
}

#[test]
fn delivery_error_shapes_id_and_error() {
    let payload = delivery_error("lcm-4", "boom".to_string());
    assert_eq!(str_of(payload.get_field("id")), Some("lcm-4"));
    assert_eq!(str_of(payload.get_field("error")), Some("boom"));
    assert!(payload.get_field("result").is_none());
}

#[test]
fn bridge_requests_route_by_channel_and_method() {
    assert_eq!(bridge_request_action("other", "listTools"), BridgeAction::Ignore);
    assert_eq!(bridge_request_action("le-chat-mcp", "listTools"), BridgeAction::ListTools);
    assert_eq!(bridge_request_action("le-chat-mcp", "callTool"), BridgeAction::CallTool);
    assert_eq!(
        bridge_request_action("le-chat-mcp", "frob"),
        BridgeAction::Unknown("unknown method: frob".to_string())
    );
}

#[test]
fn call_tool_params_need_a_name() {
    let (name, args) = call_tool_params(obj(vec![
        ("name", JsonValue::Str("browser_open".into())),
        ("arguments", obj(vec![("url", JsonValue::Str("https://x".into()))])),
    ]))
    .unwrap();
    assert_eq!(name, "browser_open");
    assert_eq!(str_of(args.get_field("url")), Some("https://x"));
    let (_, args) = call_tool_params(obj(vec![("name", JsonValue::Str("t".into()))])).unwrap();
    assert!(matches!(args, JsonValue::Object(m) if m.is_empty()));
    assert_eq!(call_tool_params(obj(vec![])).unwrap_err(), "callTool missing name");
}

#[test]
fn a_result_is_delivered_once() {
    let mut calls = PendingBridgeCalls::new();
    calls.register(42, 7, "lcm-1".to_string());
    assert_eq!(calls.take(42), Some((7, "lcm-1".to_string())));
    assert_eq!(calls.take(42), None);
    assert_eq!(calls.take(43), None);
}
