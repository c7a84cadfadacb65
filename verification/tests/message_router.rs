use scheduler_module::message_router::{
    build_system_prompt, build_user_content, decide, normalize_azure_endpoint, parse_response, pre_route,
    reply_markers_ordered, RouterConfig, RouterDecision, DEFAULT_MODEL, DEFAULT_OPENAI_URL, FORWARD_MARKER,
};

#[test]
fn router_config_defaults() {
    let config = RouterConfig::from_settings(None, None, None, None, None, None);
    assert_eq!(config.openai_url, DEFAULT_OPENAI_URL);
    assert_eq!(config.model, DEFAULT_MODEL);
    assert!(config.enabled);
    assert!(!config.use_azure_auth);
    assert!(config.openai_api_key.is_none());
}

#[test]
fn router_config_prefers_azure_pair() {
    let config = RouterConfig::from_settings(
        Some(" azkey ".to_string()),
        Some(" https://x.openai.azure.com// ".to_string()),
        Some("sk-1".to_string()),
        None,
        Some("m".to_string()),
        Some("FALSE".to_string()),
    );
    assert_eq!(config.openai_api_key.as_deref(), Some("azkey"));
    assert_eq!(config.openai_url, "https://x.openai.azure.com/openai/v1");
    assert!(config.use_azure_auth);
    assert_eq!(config.model, "m");
    assert!(!config.enabled);
}

#[test]
fn normalizes_azure_endpoints() {
    assert_eq!(normalize_azure_endpoint("https://a.b/"), "https://a.b/openai/v1");
    assert_eq!(normalize_azure_endpoint(" https://a.b/openai/v1/ "), "https://a.b/openai/v1");
}

#[test]
fn forward_marker_detected() {
    let response = "FORWARD_TO_AGENT";
    assert!(response.contains(FORWARD_MARKER));
    let response_with_extra = "I think this needs FORWARD_TO_AGENT handling";
    assert!(response_with_extra.contains(FORWARD_MARKER));
}

#[test]
fn parse_response_with_memory() {
    let response = "Great! I'll remember that.\n\n<MEMORY_UPDATE>\n## Profile\n- Goes to Stanford\n</MEMORY_UPDATE>";
    assert!(reply_markers_ordered(response));
    let (reply, memory) = parse_response(response);
    assert_eq!(reply, "Great! I'll remember that.");
    assert!(memory.is_some());
    assert!(memory.unwrap().contains("Stanford"));
}

#[test]
fn parse_response_without_memory() {
    let response = "Hello! How can I help you today?";
    let (reply, memory) = parse_response(response);
    assert_eq!(reply, response);
    assert!(memory.is_none());
}

#[test]
fn parse_response_with_empty_memory_block() {
    let (reply, memory) = parse_response("Ok <MEMORY_UPDATE>   </MEMORY_UPDATE>");
    assert_eq!(reply, "Ok");
    assert!(memory.is_none());
    let (reply, memory) = parse_response("Sure<MEMORY_UPDATE> - likes tea");
    assert_eq!(reply, "Sure");
    assert_eq!(memory.as_deref(), Some("- likes tea"));
}

#[test]
fn misordered_markers_are_reported() {
    assert!(!reply_markers_ordered("</MEMORY_UPDATE> x <MEMORY_UPDATE>"));
    assert!(reply_markers_ordered("plain"));
}

#[test]
fn decide_routes_answers() {
    assert!(matches!(decide(Err("timeout".to_string())), RouterDecision::Passthrough));
    assert!(matches!(decide(Ok("  FORWARD_TO_AGENT ".to_string())), RouterDecision::Complex));
    match decide(Ok(" Hi there <MEMORY_UPDATE>\n- name: Ann\n</MEMORY_UPDATE> ".to_string())) {
        RouterDecision::Simple { response, memory_update } => {
            assert_eq!(response, "Hi there");
            assert_eq!(memory_update.as_deref(), Some("- name: Ann"));
        }
        _ => panic!("expected a simple reply"),
    }
}

#[test]
fn pre_route_decides_without_model() {
    let off = RouterConfig::from_settings(None, None, Some("k".to_string()), None, None, Some("false".to_string()));
    assert!(matches!(pre_route(&off, "hi"), Some(RouterDecision::Passthrough)));
    let on = RouterConfig::from_settings(None, None, Some("k".to_string()), None, None, None);
    assert!(matches!(pre_route(&on, "   "), Some(RouterDecision::Passthrough)));
    let long = "x".repeat(301);
    assert!(matches!(pre_route(&on, &long), Some(RouterDecision::Complex)));
    assert!(pre_route(&on, "hello").is_none());
    let wide = "é".repeat(300);
    assert!(wide.len() > 300);
    assert!(pre_route(&on, &wide).is_none());
    let wide_long = "é".repeat(301);
    assert!(matches!(pre_route(&on, &wide_long), Some(RouterDecision::Complex)));
    let no_key = RouterConfig::from_settings(None, None, None, None, None, None);
    assert!(matches!(pre_route(&no_key, "hello"), Some(RouterDecision::Passthrough)));
}

#[test]
fn builds_user_content_sections() {
    assert_eq!(build_user_content("hi", None, None), "Message: hi");
    assert_eq!(
        build_user_content("hi", Some(" mem "), Some("ctx")),
        "User memory:\n```\nmem\n```\n\nConversation context:\n```\nctx\n```\n\nMessage: hi"
    );
    assert_eq!(build_user_content("hi", Some("  "), None), "Message: hi");
}

#[test]
fn build_system_prompt_defaults_to_boiled_egg() {
    let prompt = build_system_prompt(None);
    assert!(prompt.contains("You are Boiled-Egg"));
    assert!(!prompt.contains("You are Oliver"));
}

#[test]
fn build_system_prompt_uses_oliver_for_discord() {
    let prompt = build_system_prompt(Some("Oliver"));
    assert!(prompt.contains("You are Oliver"));
    assert!(!prompt.contains("Boiled-Egg"));
}

#[test]
fn build_system_prompt_uses_boiled_egg_for_slack() {
    let prompt = build_system_prompt(Some("Boiled-Egg"));
    assert!(prompt.contains("You are Boiled-Egg"));
}

#[test]
fn build_system_prompt_uses_custom_name_for_telegram() {
    let prompt = build_system_prompt(Some("TeleBot"));
    assert!(prompt.contains("You are TeleBot"));
    assert!(!prompt.contains("Boiled-Egg"));
}

#[test]
fn build_system_prompt_uses_custom_name_for_whatsapp() {
    let prompt = build_system_prompt(Some("WhatsHelper"));
    assert!(prompt.contains("You are WhatsHelper"));
    assert!(!prompt.contains("Boiled-Egg"));
}

#[test]
fn build_system_prompt_uses_custom_name_for_bluebubbles() {
    let prompt = build_system_prompt(Some("iAssistant"));
    assert!(prompt.contains("You are iAssistant"));
    assert!(!prompt.contains("Boiled-Egg"));
}
