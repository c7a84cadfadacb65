use scheduler_module::channel::{Attachment, Channel, ChannelMetadata, InboundMessage};
use scheduler_module::gateway::{
    build_dedupe_key, has_discord_routes, normalize_email, normalize_phone_number, normalize_route_key,
    should_enqueue_discord_message, should_enqueue_slack_message, GatewayConfig, GatewayDefaultsConfig,
    RouteKey, RouteTarget, SlackEventWrapper, SlackMessageEvent,
};
use scheduler_module::ingestion::build_queue_payload;

fn target() -> RouteTarget {
    RouteTarget { tenant_id: Some("staging".to_string()), employee_id: "little_bear".to_string() }
}

fn mk_config(routes: Vec<RouteKey>, defaults: Vec<Channel>) -> GatewayConfig {
    GatewayConfig {
        defaults: GatewayDefaultsConfig::default(),
        routes: routes.into_iter().map(|r| (r, target())).collect(),
        channel_defaults: defaults.into_iter().map(|c| (c, target())).collect(),
    }
}

#[test]
fn has_discord_routes_false_when_not_configured() {
    let config = mk_config(vec![], vec![]);
    assert!(!has_discord_routes(&config));
}

#[test]
fn has_discord_routes_true_when_default_exists() {
    let config = mk_config(vec![], vec![Channel::Discord]);
    assert!(has_discord_routes(&config));
}

#[test]
fn has_discord_routes_true_when_explicit_route_exists() {
    let config = mk_config(vec![RouteKey { channel: Channel::Discord, key: "U12345".to_string() }], vec![]);
    assert!(has_discord_routes(&config));
}

#[test]
fn has_discord_routes_false_with_other_channels_only() {
    let config = mk_config(
        vec![RouteKey { channel: Channel::Slack, key: "U1".to_string() }],
        vec![Channel::Email, Channel::Telegram],
    );
    assert!(!has_discord_routes(&config));
}

#[test]
fn should_enqueue_discord_message_allows_direct_messages_without_mentions() {
    assert!(should_enqueue_discord_message(true, false, false));
}

#[test]
fn should_enqueue_discord_message_requires_signal_in_guild_channels() {
    assert!(!should_enqueue_discord_message(false, false, false));
    assert!(should_enqueue_discord_message(false, true, false));
    assert!(should_enqueue_discord_message(false, false, true));
}

fn message(channel: Channel, attachment: Attachment) -> InboundMessage {
    InboundMessage {
        channel,
        sender: "a@example.com".to_string(),
        sender_name: None,
        recipient: "svc@example.com".to_string(),
        subject: Some("s".to_string()),
        text_body: Some("t".to_string()),
        html_body: None,
        thread_id: "thread-1".to_string(),
        message_id: Some("m1".to_string()),
        attachments: vec![attachment],
        reply_to: vec!["a@example.com".to_string()],
        raw_payload: b"{}".to_vec(),
        metadata: ChannelMetadata::default(),
    }
}

#[test]
fn build_queue_payload_clears_email_attachments() {
    let message = message(
        Channel::Email,
        Attachment { name: "a.txt".to_string(), content_type: "text/plain".to_string(), content: "Zm9v".to_string() },
    );
    let payload = build_queue_payload(Channel::Email, &message);
    assert!(payload.attachments.is_empty());
    assert_eq!(payload.sender, "a@example.com");
    assert_eq!(payload.thread_id, "thread-1");
}

#[test]
fn build_queue_payload_keeps_non_email_attachments() {
    let message = InboundMessage {
        channel: Channel::Slack,
        sender: "U123".to_string(),
        sender_name: None,
        recipient: "C456".to_string(),
        subject: None,
        text_body: Some("hello".to_string()),
        html_body: None,
        thread_id: "thread-1".to_string(),
        message_id: Some("m1".to_string()),
        attachments: vec![Attachment {
            name: "file.pdf".to_string(),
            content_type: "application/pdf".to_string(),
            content: "placeholder".to_string(),
        }],
        reply_to: vec!["C456".to_string()],
        raw_payload: b"{}".to_vec(),
        metadata: ChannelMetadata::default(),
    };
    let payload = build_queue_payload(Channel::Slack, &message);
    assert_eq!(payload.attachments.len(), 1);
}

fn slack_event(event_type: &str, channel: &str, text: &str, channel_type: &str) -> SlackMessageEvent {
    SlackMessageEvent {
        event_type: event_type.to_string(),
        subtype: None,
        channel: Some(channel.to_string()),
        user: Some("U1".to_string()),
        text: Some(text.to_string()),
        ts: "1.01".to_string(),
        thread_ts: None,
        bot_id: None,
        app_id: None,
        files: None,
        channel_type: Some(channel_type.to_string()),
        event_ts: None,
    }
}

fn wrapper(event: SlackMessageEvent, id: &str) -> SlackEventWrapper {
    SlackEventWrapper {
        event_type: "event_callback".to_string(),
        challenge: None,
        token: None,
        team_id: Some("T1".to_string()),
        api_app_id: Some("A1".to_string()),
        event: Some(event),
        event_id: Some(id.to_string()),
        event_time: None,
    }
}

#[test]
fn should_enqueue_slack_message_accepts_app_mention() {
    let w = wrapper(slack_event("app_mention", "C1", "<@B1> hi", "channel"), "Ev1");
    assert!(should_enqueue_slack_message(&w, Some("B1")));
}

#[test]
fn should_enqueue_slack_message_rejects_channel_message_without_bot_mention() {
    let w = wrapper(slack_event("message", "C1", "hello world", "channel"), "Ev2");
    assert!(!should_enqueue_slack_message(&w, Some("B1")));
}

#[test]
fn should_enqueue_slack_message_accepts_dm_message() {
    let w = wrapper(slack_event("message", "D1", "hello in dm", "im"), "Ev3");
    assert!(should_enqueue_slack_message(&w, None));
}

#[test]
fn should_enqueue_slack_message_accepts_channel_mention_of_bot() {
    let w = wrapper(slack_event("message", "C1", "ping <@B1> please", "channel"), "Ev4");
    assert!(should_enqueue_slack_message(&w, Some("B1")));
}

#[test]
fn should_enqueue_slack_message_rejects_subtypes() {
    let mut e = slack_event("message", "D1", "edited", "im");
    e.subtype = Some("message_changed".to_string());
    let w = wrapper(e, "Ev5");
    assert!(!should_enqueue_slack_message(&w, None));
}

#[test]
fn normalizes_route_keys_per_channel() {
    assert_eq!(normalize_email("  Alice@Example.COM "), "alice@example.com");
    assert_eq!(normalize_phone_number("+1 (555) 010-9999"), "+15550109999");
    assert_eq!(normalize_route_key(Channel::Email, " Bob@X.io "), "bob@x.io");
    assert_eq!(normalize_route_key(Channel::Sms, "+44 20 7946"), "+44207946");
    assert_eq!(normalize_route_key(Channel::Slack, "  U123  "), "U123");
    assert_eq!(normalize_route_key(Channel::Email, " * "), "*");
}

#[test]
fn dedupe_key_prefers_message_id_then_payload_digest() {
    let a = build_dedupe_key("tenant", "employee", Channel::Slack, Some("m-1"), b"abc");
    assert_eq!(a, "tenant:employee:slack:m-1");
    let b = build_dedupe_key("tenant", "employee", Channel::Email, None, b"abc");
    assert_eq!(b, "tenant:employee:email:900150983cd24fb0d6963f7d28e17f72");
    let c = build_dedupe_key("t", "e", Channel::Sms, None, b"");
    assert!(c.starts_with("t:e:sms:"));
    assert_eq!(c.len(), "t:e:sms:".len() + 36);
}

use scheduler_module::ingestion::{decode_raw_payload, encode_raw_payload, IngestionEnvelope};

#[test]
fn raw_payload_round_trips_through_base64() {
    assert_eq!(encode_raw_payload(b""), None);
    let encoded = encode_raw_payload(b"hello world").expect("bytes");
    assert_eq!(encoded, "aGVsbG8gd29ybGQ=");
    assert_eq!(decode_raw_payload(Some(&encoded)), b"hello world".to_vec());
    assert_eq!(decode_raw_payload(None), Vec::<u8>::new());
    assert_eq!(decode_raw_payload(Some("   ")), Vec::<u8>::new());
    assert_eq!(decode_raw_payload(Some("not base64!")), Vec::<u8>::new());
}

#[test]
fn envelope_rebuilds_its_message() {
    let message = message(
        Channel::Slack,
        Attachment { name: "f".to_string(), content_type: "text/plain".to_string(), content: "x".to_string() },
    );
    let envelope = IngestionEnvelope {
        envelope_id: 7,
        received_at: 1_700_000_000_000,
        tenant_id: Some("t".to_string()),
        employee_id: "e".to_string(),
        channel: Channel::Slack,
        external_message_id: Some("m1".to_string()),
        dedupe_key: "t:e:slack:m1".to_string(),
        payload: build_queue_payload(Channel::Slack, &message),
        raw_payload_b64: encode_raw_payload(b"{}"),
    };
    let rebuilt = envelope.to_inbound_message();
    assert_eq!(rebuilt.raw_payload, b"{}".to_vec());
    assert_eq!(rebuilt.sender, message.sender);
    assert_eq!(rebuilt.attachments, message.attachments);
    assert_eq!(rebuilt.channel, Channel::Slack);
}

use scheduler_module::gateway::{resolve_slack_bot_user_id, slack_bot_user_key};

#[test]
fn slack_bot_user_key_names_the_employee() {
    assert_eq!(slack_bot_user_key("little-bear"), "LITTLE_BEAR_SLACK_BOT_USER_ID");
    assert_eq!(slack_bot_user_key("Boiled_Egg"), "BOILED_EGG_SLACK_BOT_USER_ID");
}

#[test]
fn slack_bot_user_prefers_the_employee_setting() {
    let s = |v: &str| Some(v.to_string());
    assert_eq!(resolve_slack_bot_user_id(s(" U1 "), s("U2")), s("U1"));
    assert_eq!(resolve_slack_bot_user_id(s("  "), s(" U2 ")), s("U2"));
    assert_eq!(resolve_slack_bot_user_id(None, s("")), None);
    assert_eq!(resolve_slack_bot_user_id(None, None), None);
}

use scheduler_module::gateway::{contains_no_reply_marker, payload_contains_no_reply_marker};

#[test]
fn payload_contains_no_reply_marker_detects_from() {
    assert!(payload_contains_no_reply_marker(br#"{"From":"noreply@example.com"}"#));
}

#[test]
fn payload_contains_no_reply_marker_detects_reply_to() {
    assert!(payload_contains_no_reply_marker(br#"{"From":"user@example.com","ReplyTo":"no-reply@x.com"}"#));
}

#[test]
fn payload_contains_no_reply_marker_allows_normal_sender() {
    assert!(!payload_contains_no_reply_marker(br#"{"From":"user@example.com"}"#));
}

#[test]
fn no_reply_marker_needs_an_address() {
    assert!(contains_no_reply_marker("Service <Do-Not-Reply@Example.com>"));
    assert!(!contains_no_reply_marker("noreply team <team@example.com>"));
    assert!(!contains_no_reply_marker("noreply"));
    assert!(!payload_contains_no_reply_marker(b"not json"));
}
