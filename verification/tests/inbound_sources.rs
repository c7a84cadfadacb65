use hmac::{Hmac, Mac};
use scheduler_module::channel::Channel;
use scheduler_module::collaboration_store::{ArtifactRole, SessionStatus};
use scheduler_module::discord_gateway::DiscordGuildPaths;
use scheduler_module::github_inbound::{
    extract_github_sender_from_headers, extract_github_sender_from_text, extract_github_sender_login,
    extract_github_sender_login_from_postmark_payload, is_github_notifications_postmark_payload,
    is_github_notifications_sender, normalize_github_login,
};
use scheduler_module::google_workspace_poller::{GoogleWorkspacePollerConfig, WorkspaceFileType};
use scheduler_module::notion_webhook::{
    build_notion_payload, comment_ref, event_action, notion_dedupe_key, notion_page_url, resolve_notion_employee,
    verify_notion_signature, workspace_employee_key, NotionDataParent, NotionEventAction, NotionEventType,
    NotionWebhookAuthor, NotionWebhookData, NotionWebhookEvent, NotionEntity,
};
use sha2::Sha256;

fn headers(pairs: &[(&str, &str)]) -> Vec<(String, String)> {
    pairs.iter().map(|(a, b)| (a.to_string(), b.to_string())).collect()
}

#[test]
fn extracts_sender_from_github_header() {
    let payload = br#"{
        "From": "Bingran You <notifications@github.com>",
        "Headers": [{"Name":"X-GitHub-Sender","Value":"bingran-you"}],
        "TextBody": "something else"
    }"#;
    let sender = extract_github_sender_login_from_postmark_payload(payload);
    assert_eq!(sender, Some("bingran-you".to_string()));
}

#[test]
fn falls_back_to_text_activity_line() {
    let payload = br#"{
        "From": "notifications@github.com",
        "TextBody": "bingran-you left a comment (KnoWhiz/DoWhiz#568)"
    }"#;
    let sender = extract_github_sender_login_from_postmark_payload(payload);
    assert_eq!(sender, Some("bingran-you".to_string()));
}

#[test]
fn falls_back_to_html_activity_line() {
    let payload = br#"{
        "From": "notifications@github.com",
        "HtmlBody": "<div><strong>bingran-you</strong> left a comment (KnoWhiz/DoWhiz#568)</div>"
    }"#;
    let sender = extract_github_sender_login_from_postmark_payload(payload);
    assert_eq!(sender, Some("bingran-you".to_string()));
}

#[test]
fn returns_none_for_non_github_sender() {
    let payload = br#"{
        "From": "Alice <alice@example.com>",
        "Headers": [{"Name":"X-GitHub-Sender","Value":"bingran-you"}],
        "TextBody": "bingran-you left a comment"
    }"#;
    let sender = extract_github_sender_login_from_postmark_payload(payload);
    assert_eq!(sender, None);
}

#[test]
fn normalizes_header_sender_case() {
    let payload = br#"{
        "From": "notifications@github.com",
        "Headers": [{"Name":"X-GitHub-Sender","Value":"Bingran-You"}]
    }"#;
    let sender = extract_github_sender_login_from_postmark_payload(payload);
    assert_eq!(sender, Some("bingran-you".to_string()));
}

#[test]
fn detects_github_notification_sender_from_postmark_payload() {
    let payload = br#"{
        "From": "Bingran You <notifications@github.com>"
    }"#;
    assert!(is_github_notifications_postmark_payload(payload));
}

#[test]
fn detects_github_notification_sender_with_lowercase_from_key() {
    let payload = br#"{
        "from": "notifications@github.com"
    }"#;
    assert!(is_github_notifications_postmark_payload(payload));
}

#[test]
fn sender_pieces_and_odd_payloads() {
    let sender = extract_github_sender_login(&headers(&[("x-github-sender", "Bingran-You")]), None, None, None);
    assert_eq!(sender, Some("bingran-you".to_string()));
    assert_eq!(extract_github_sender_from_headers(&headers(&[("Other", "x")])), None);
    assert!(!is_github_notifications_postmark_payload(b"not json"));
    assert!(!is_github_notifications_postmark_payload(br#"{"From": 7, "from": "notifications@github.com"}"#));
    assert!(is_github_notifications_sender("\"GitHub\" <Notifications@GitHub.com>, other@x.org"));
    assert!(!is_github_notifications_sender("notifications@github.com.evil"));
    let odd_headers = br#"{"From":"notifications@github.com","Headers":"x","TextBody":"octo left a comment"}"#;
    assert_eq!(extract_github_sender_login_from_postmark_payload(odd_headers), Some("octo".to_string()));
}

#[test]
fn rejects_invalid_sender_tokens() {
    assert_eq!(normalize_github_login("bingran_you"), None);
    assert_eq!(normalize_github_login("bingran you"), None);
    assert_eq!(normalize_github_login(""), None);
}

#[test]
fn normalizes_quoted_and_bot_logins() {
    assert_eq!(normalize_github_login(" \"Octo-Cat\" ").as_deref(), Some("octo-cat"));
    assert_eq!(normalize_github_login("dependabot[bot]").as_deref(), Some("dependabot[bot]"));
    assert_eq!(normalize_github_login("-leading"), None);
    assert_eq!(extract_github_sender_from_text("   "), None);
    assert_eq!(extract_github_sender_from_text("hello\n  Alice reviewed the change").as_deref(), Some("alice"));
}

#[test]
fn notion_event_kinds_and_actions() {
    assert_eq!(NotionEventType::from_tag("comment.created"), NotionEventType::CommentCreated);
    assert_eq!(NotionEventType::from_tag("page.created"), NotionEventType::PageCreated);
    assert_eq!(NotionEventType::from_tag("page.content_updated"), NotionEventType::PageContentUpdated);
    assert_eq!(NotionEventType::from_tag("database.deleted"), NotionEventType::Unknown);
    assert_eq!(event_action(&NotionEventType::CommentCreated), NotionEventAction::HandleComment);
    assert_eq!(event_action(&NotionEventType::PageCreated), NotionEventAction::Acknowledge);
    assert_eq!(event_action(&NotionEventType::Unknown), NotionEventAction::IgnoreUnknown);
}

#[test]
fn notion_signature_is_checked() {
    let body = br#"{"type":"comment.created"}"#;
    let mut mac = Hmac::<Sha256>::new_from_slice(b"secret").unwrap();
    mac.update(body);
    let sig = format!("v1={}", hex::encode(mac.finalize().into_bytes()));
    assert!(verify_notion_signature(Some("secret"), Some(&sig), body).is_ok());
    assert!(verify_notion_signature(None, None, body).is_ok());
    assert!(verify_notion_signature(Some(""), None, body).is_ok());
    assert_eq!(verify_notion_signature(Some("secret"), None, body).unwrap_err(), "missing X-Notion-Signature header");
    assert_eq!(verify_notion_signature(Some("secret"), Some("sha=1"), body).unwrap_err(), "invalid signature format");
    assert_eq!(verify_notion_signature(Some("secret"), Some("v1=00"), body).unwrap_err(), "signature mismatch");
}

fn comment_event(entity: Option<&str>, page: Option<&str>) -> NotionWebhookEvent {
    NotionWebhookEvent {
        event_type: NotionEventType::CommentCreated,
        data: Some(NotionWebhookData {
            parent: Some(NotionDataParent { id: page.map(String::from), parent_type: Some("page".to_string()) }),
        }),
        entity: entity.map(|id| NotionEntity { id: id.to_string(), entity_type: Some("comment".to_string()) }),
        timestamp: None,
        workspace_id: Some("ws-1".to_string()),
        subscription_id: None,
        integration_id: None,
        authors: Some(vec![NotionWebhookAuthor { id: Some("user-9".to_string()), author_type: None }]),
    }
}

#[test]
fn notion_comment_references() {
    let r = comment_ref(&comment_event(Some("c-1"), Some("p-1"))).expect("complete event");
    assert_eq!(r.comment_id, "c-1");
    assert_eq!(r.page_id, "p-1");
    assert_eq!(r.workspace_id.as_deref(), Some("ws-1"));
    assert_eq!(r.author_id.as_deref(), Some("user-9"));
    assert_eq!(comment_ref(&comment_event(None, Some("p-1"))).err(), Some("missing_entity"));
    assert_eq!(comment_ref(&comment_event(Some("c-1"), None)).err(), Some("missing_page_id"));
}

#[test]
fn notion_routing_and_payload() {
    assert_eq!(workspace_employee_key("ab-cd"), "NOTION_WORKSPACE_AB_CD_EMPLOYEE");
    assert_eq!(notion_page_url("12-34-ab"), "https://notion.so/1234ab");
    assert_eq!(notion_dedupe_key("c9"), "notion:comment:c9");
    assert_eq!(
        resolve_notion_employee(Some("".into()), Some("n".into()), Some("g".into()), None).as_deref(),
        Some("n")
    );
    assert_eq!(resolve_notion_employee(None, None, None, Some("d".into())).as_deref(), Some("d"));
    let p = build_notion_payload("emp", "page", Some("ws"), None, "hello", "c1");
    assert_eq!(p.sender, "Unknown Notion User");
    assert_eq!(p.thread_id, "notion:page:page");
    assert_eq!(p.subject.as_deref(), Some("Notion comment on page page"));
    assert_eq!(p.reply_to, vec!["Unknown Notion User".to_string()]);
    assert_eq!(p.metadata.notion_comment_id.as_deref(), Some("c1"));
}

#[test]
fn collaboration_vocabularies_round_trip() {
    for s in [SessionStatus::Active, SessionStatus::Completed, SessionStatus::Stale] {
        assert_eq!(SessionStatus::parse(s.as_str()).unwrap(), s);
    }
    assert_eq!(SessionStatus::parse("ACTIVE").unwrap(), SessionStatus::Active);
    assert_eq!(SessionStatus::parse("gone").unwrap_err(), "unknown session status: gone");
    for r in [ArtifactRole::Target, ArtifactRole::Reference] {
        assert_eq!(ArtifactRole::parse(r.as_str()).unwrap(), r);
    }
    assert_eq!(ArtifactRole::parse("x").unwrap_err(), "unknown artifact role: x");
    assert_eq!(SessionStatus::default(), SessionStatus::Active);
}

#[test]
fn channel_names_round_trip() {
    let all = [
        Channel::Email,
        Channel::Slack,
        Channel::Discord,
        Channel::Sms,
        Channel::Telegram,
        Channel::WhatsApp,
        Channel::BlueBubbles,
        Channel::GoogleDocs,
        Channel::GoogleSheets,
        Channel::GoogleSlides,
        Channel::Notion,
    ];
    for c in all {
        assert_eq!(Channel::parse_name(c.as_str()), Some(c));
    }
    assert_eq!(Channel::parse_name("EMAIL"), Some(Channel::Email));
    assert_eq!(Channel::parse_name("fax"), None);
}

#[test]
fn workspace_file_types() {
    assert_eq!(WorkspaceFileType::Sheets.channel(), Channel::GoogleSheets);
    assert_eq!(WorkspaceFileType::Slides.channel(), Channel::GoogleSlides);
    assert_eq!(WorkspaceFileType::Sheets.name(), "sheets");
    assert_eq!(WorkspaceFileType::Slides.display_name(), "Google Slides");
}

#[test]
fn workspace_poller_config_from_settings() {
    let c = GoogleWorkspacePollerConfig::from_settings(
        Some("true".into()),
        None,
        Some("30".into()),
        Some(" Extra@Example.com , bad, extra@example.com".into()),
        "/ws".into(),
        "/ws/db.sqlite".into(),
        Some("emp".into()),
    );
    assert!(c.sheets_enabled);
    assert!(!c.slides_enabled);
    assert!(c.is_enabled());
    assert_eq!(c.poll_interval_secs, 30);
    assert!(c.employee_emails.iter().any(|e| e == "extra@example.com"));
    let mut sorted = c.employee_emails.clone();
    sorted.sort();
    sorted.dedup();
    assert_eq!(sorted.len(), c.employee_emails.len());
}

#[test]
fn discord_guild_paths() {
    let p = DiscordGuildPaths::new("/root/ws", "42");
    assert_eq!(DiscordGuildPaths::user_id("42"), "discord:42");
    assert_eq!(p.root, "/root/ws/discord/42");
    assert_eq!(p.state_dir, "/root/ws/discord/42/state");
    assert_eq!(p.tasks_db_path, "/root/ws/discord/42/state/tasks.db");
    assert_eq!(p.workspaces_root, "/root/ws/discord/42/workspaces");
}

use scheduler_module::discord_gateway::{
    discord_message_files, discord_thread_hash, discord_thread_key, discord_workspace_dir,
    guild_key,
};

#[test]
fn discord_conversation_keys_and_workspace() {
    assert_eq!(guild_key(Some("42".to_string())), "42");
    assert_eq!(guild_key(None), "dm");
    assert_eq!(discord_thread_key("dm", "7", "thread-42"), "discord:dm:7:thread-42");
    assert_eq!(discord_thread_hash("thread-42"), "1abff996");
    assert_eq!(discord_thread_hash(""), "d41d8cd9");
    assert_eq!(discord_workspace_dir("/ws/discord/42/workspaces", "7", "thread-42"), "/ws/discord/42/workspaces/7/1abff996");
}

#[test]
fn discord_message_files_are_numbered() {
    assert_eq!(
        discord_message_files(3),
        ("00003_discord_raw.json".to_string(), "00003_discord_message.txt".to_string(), "00003_discord_meta.json".to_string())
    );
    assert_eq!(discord_message_files(123456).0, "123456_discord_raw.json");
    assert_eq!(discord_message_files(0).1, "00000_discord_message.txt");
}

#[test]
fn workspace_poller_default_is_off() {
    let d = GoogleWorkspacePollerConfig::default();
    assert!(!d.is_enabled());
    assert_eq!(d.poll_interval_secs, 30);
    assert!(d.employee_emails.is_empty());
    assert_eq!(d.workspace_root, "workspaces");
    assert_eq!(d.processed_db_path, "google_workspace_processed.db");
    assert_eq!(d.employee_id, "proto");
}

use scheduler_module::google_workspace_poller::{files_with_comments, owner_email};

#[test]
fn poll_reports_files_with_actionable_comments_in_order() {
    let files: Vec<String> = vec!["a", "b", "c", "d"].into_iter().map(String::from).collect();
    let counts = vec![Some(2), None, Some(0), Some(1)];
    assert_eq!(
        files_with_comments(true, files.clone(), counts.clone()),
        vec![("a".to_string(), 2), ("d".to_string(), 1)]
    );
    assert!(files_with_comments(false, files, counts).is_empty());
    assert_eq!(owner_email(&vec![Some("o@x.com".to_string()), None]), Some("o@x.com".to_string()));
    assert_eq!(owner_email(&vec![None, Some("p@x.com".to_string())]), None);
    assert_eq!(owner_email(&vec![]), None);
}

#[test]
fn guild_paths_join_like_unix_paths() {
    let p = DiscordGuildPaths::new("ws/", "42");
    assert_eq!(p.root, "ws/discord/42");
    let q = DiscordGuildPaths::new("", "dm");
    assert_eq!(q.root, "discord/dm");
    assert_eq!(q.tasks_db_path, "discord/dm/state/tasks.db");
    let r = DiscordGuildPaths::new("ws", "/abs");
    assert_eq!(r.root, "/abs");
}
