//! Notion webhook events: their shape, their signature, and how a new
//! comment becomes an inbound message.

use vstd::prelude::*;
use crate::digest::{hex_lower, hmac_sha256};
use crate::text::{opt_str, starts_with};
use crate::channel::ChannelMetadata;
use crate::ingestion::IngestionPayload;

verus! {

/// Kinds of Notion events.
#[derive(Debug, Clone, PartialEq, Eq, Structural)]
pub enum NotionEventType {
    CommentCreated,
    PageCreated,
    PageContentUpdated,
    Unknown,
}

impl NotionEventType {
    /// The kind a `type` tag names; any other tag is `Unknown`.
    pub fn from_tag(tag: &str) -> (r: NotionEventType)
        ensures
            r == (if tag@ == "comment.created"@ {
                NotionEventType::CommentCreated
            } else if tag@ == "page.created"@ {
                NotionEventType::PageCreated
            } else if tag@ == "page.content_updated"@ {
                NotionEventType::PageContentUpdated
            } else {
                NotionEventType::Unknown
            }),
    {
        if crate::text::str_eq(tag, "comment.created") {
            NotionEventType::CommentCreated
        } else if crate::text::str_eq(tag, "page.created") {
            NotionEventType::PageCreated
        } else if crate::text::str_eq(tag, "page.content_updated") {
            NotionEventType::PageContentUpdated
        } else {
            NotionEventType::Unknown
        }
    }
}

/// An entity an event refers to.
#[derive(Debug, Clone)]
pub struct NotionEntity {
    pub id: String,
    pub entity_type: Option<String>,
}

/// The parent of the changed object.
#[derive(Debug, Clone)]
pub struct NotionDataParent {
    pub id: Option<String>,
    pub parent_type: Option<String>,
}

/// Data of an event (only the parent reference is sent).
#[derive(Debug, Clone)]
pub struct NotionWebhookData {
    pub parent: Option<NotionDataParent>,
}

/// An author of an event.
#[derive(Debug, Clone)]
pub struct NotionWebhookAuthor {
    pub id: Option<String>,
    pub author_type: Option<String>,
}

/// A Notion webhook event.
#[derive(Debug, Clone)]
pub struct NotionWebhookEvent {
    pub event_type: NotionEventType,
    pub data: Option<NotionWebhookData>,
    pub entity: Option<NotionEntity>,
    pub timestamp: Option<String>,
    pub workspace_id: Option<String>,
    pub subscription_id: Option<String>,
    pub integration_id: Option<String>,
    pub authors: Option<Vec<NotionWebhookAuthor>>,
}

/// The verification request Notion sends while a webhook is set up.
#[derive(Debug, Clone)]
pub struct NotionVerificationRequest {
    pub verification_token: Option<String>,
}

/// The signature check: no secret (or an empty one) admits everything;
/// otherwise the header must read `v1=` and the hex HMAC-SHA256 of the body.
pub open spec fn notion_signature_answer(secret: Option<&str>, signature: Option<&str>, body: Seq<u8>) -> Result<(), &'static str> {
    if !(secret matches Some(s) && s@.len() > 0) {
        Ok(())
    } else if signature is None {
        Err("missing X-Notion-Signature header")
    } else if !starts_with(signature.unwrap()@, "v1="@) {
        Err("invalid signature format")
    } else if hex_lower(hmac_sha256(vstd::utf8::encode_utf8(secret.unwrap()@), body))
        != signature.unwrap()@.skip(3) {
        Err("signature mismatch")
    } else {
        Ok(())
    }
}

/// Checks the `X-Notion-Signature` header of a webhook request.
pub fn verify_notion_signature(secret: Option<&str>, signature: Option<&str>, body: &[u8]) -> (r: Result<(), &'static str>)
    ensures
        r == notion_signature_answer(secret, signature, body@),
{
    let secret = match secret {
        Some(s) => if s.is_empty() {
            return Ok(());
        } else {
            s
        },
        None => {
            return Ok(());
        },
    };
    let signature = match signature {
        Some(s) => s,
        None => {
            return Err("missing X-Notion-Signature header");
        },
    };
    let sig = crate::text::to_chars(signature);
    let prefix = crate::text::to_chars("v1=");
    if !crate::text::starts_with_chars(sig.as_slice(), prefix.as_slice()) {
        return Err("invalid signature format");
    }
    proof {
        reveal_strlit("v1=");
    }
    let expected = crate::text::slice_range(sig.as_slice(), 3, sig.len());
    let tag = crate::digest::hmac_sha256_bytes(secret.as_bytes(), body);
    let computed = crate::digest::hex_encode(tag.as_slice());
    let computed_chars = crate::text::to_chars(computed.as_str());
    proof {
        assert(expected@ =~= signature@.skip(3));
    }
    if !crate::text::chars_eq(computed_chars.as_slice(), expected.as_slice()) {
        return Err("signature mismatch");
    }
    Ok(())
}

/// How the gateway answers an event kind: comments are handled, page events
/// acknowledged, other kinds noted as unknown.
#[derive(Debug, Clone, PartialEq, Eq, Structural)]
pub enum NotionEventAction {
    HandleComment,
    Acknowledge,
    IgnoreUnknown,
}

pub fn event_action(t: &NotionEventType) -> (r: NotionEventAction)
    ensures
        r == (match *t {
            NotionEventType::CommentCreated => NotionEventAction::HandleComment,
            NotionEventType::PageCreated => NotionEventAction::Acknowledge,
            NotionEventType::PageContentUpdated => NotionEventAction::Acknowledge,
            NotionEventType::Unknown => NotionEventAction::IgnoreUnknown,
        }),
{
    match t {
        NotionEventType::CommentCreated => NotionEventAction::HandleComment,
        NotionEventType::PageCreated | NotionEventType::PageContentUpdated => NotionEventAction::Acknowledge,
        NotionEventType::Unknown => NotionEventAction::IgnoreUnknown,
    }
}

/// What a comment event refers to.
#[derive(Debug, Clone)]
pub struct NotionCommentRef {
    pub comment_id: String,
    pub page_id: String,
    pub workspace_id: Option<String>,
    pub author_id: Option<String>,
}

/// The page a comment event's data names.
pub open spec fn event_page_id(e: NotionWebhookEvent) -> Option<Seq<char>> {
    match e.data {
        Some(d) => match d.parent {
            Some(p) => opt_str(p.id),
            None => None,
        },
        None => None,
    }
}

/// The id of the first author of an event.
pub open spec fn event_author_id(e: NotionWebhookEvent) -> Option<Seq<char>> {
    match e.authors {
        Some(a) => if a@.len() > 0 {
            opt_str(a@[0].id)
        } else {
            None
        },
        None => None,
    }
}

/// What a `comment.created` event refers to, or the status reported when a
/// part is missing (`missing_entity`, then `missing_page_id`).
pub fn comment_ref(event: &NotionWebhookEvent) -> (r: Result<NotionCommentRef, &'static str>)
    ensures
        event.entity is None ==> r == Err::<NotionCommentRef, &'static str>("missing_entity"),
        event.entity is Some && event_page_id(*event) is None ==> r == Err::<NotionCommentRef, &'static str>("missing_page_id"),
        event.entity is Some && event_page_id(*event) is Some ==> (r matches Ok(c)
            && c.comment_id@ == event.entity.unwrap().id@
            && c.page_id@ == event_page_id(*event).unwrap()
            && opt_str(c.workspace_id) == opt_str(event.workspace_id)
            && opt_str(c.author_id) == event_author_id(*event)),
{
    let comment_id = match &event.entity {
        Some(entity) => entity.id.clone(),
        None => {
            return Err("missing_entity");
        },
    };
    let page_id = match &event.data {
        Some(d) => match &d.parent {
            Some(p) => crate::text::clone_opt(&p.id),
            None => None,
        },
        None => None,
    };
    let page_id = match page_id {
        Some(p) => p,
        None => {
            return Err("missing_page_id");
        },
    };
    let author_id = match &event.authors {
        Some(a) => if a.len() > 0 {
            crate::text::clone_opt(&a[0].id)
        } else {
            None
        },
        None => None,
    };
    Ok(NotionCommentRef {
        comment_id,
        page_id,
        workspace_id: crate::text::clone_opt(&event.workspace_id),
        author_id,
    })
}

/// The text with every `-` replaced by `_`.
pub open spec fn dashes_to_underscores(s: Seq<char>) -> Seq<char> {
    s.map_values(|c: char| if c == '-' {
        '_'
    } else {
        c
    })
}

/// The text with every `-` removed.
pub open spec fn without_dashes(s: Seq<char>) -> Seq<char>
    decreases s.len(),
{
    if s.len() == 0 {
        s
    } else if s.last() == '-' {
        without_dashes(s.drop_last())
    } else {
        without_dashes(s.drop_last()).push(s.last())
    }
}

/// Name of the setting that routes a workspace to an employee.
pub fn workspace_employee_key(workspace_id: &str) -> (r: String)
    ensures
        r@ == "NOTION_WORKSPACE_"@ + crate::google_auth::unicode_upper(dashes_to_underscores(workspace_id@))
            + "_EMPLOYEE"@,
{
    let v = crate::text::to_chars(workspace_id);
    let mut out: Vec<char> = Vec::new();
    let mut i: usize = 0;
    while i < v.len()
        invariant
            i <= v@.len(),
            out@ == dashes_to_underscores(v@.take(i as int)),
        decreases v@.len() - i,
    {
        out.push(if v[i] == '-' {
            '_'
        } else {
            v[i]
        });
        i = i + 1;
        proof {
            assert(out@ =~= dashes_to_underscores(v@.take(i as int)));
        }
    }
    proof {
        assert(v@.take(v@.len() as int) =~= v@);
    }
    let replaced = crate::text::from_chars(out.as_slice());
    let upper = crate::google_auth::upper(replaced.as_str());
    crate::text::concat3("NOTION_WORKSPACE_", upper.as_str(), "_EMPLOYEE")
}

/// A setting that counts when it is present and not empty.
pub open spec fn non_empty(v: Option<String>) -> bool {
    v matches Some(s) && s@.len() > 0
}

/// The employee a comment goes to: the workspace's own setting, then the
/// Notion default, then the gateway default, then the directory default.
pub open spec fn notion_employee(
    workspace_setting: Option<String>,
    notion_default: Option<String>,
    gateway_default: Option<String>,
    directory_default: Option<String>,
) -> Option<String> {
    if non_empty(workspace_setting) {
        workspace_setting
    } else if non_empty(notion_default) {
        notion_default
    } else if gateway_default is Some {
        gateway_default
    } else {
        directory_default
    }
}

pub fn resolve_notion_employee(
    workspace_setting: Option<String>,
    notion_default: Option<String>,
    gateway_default: Option<String>,
    directory_default: Option<String>,
) -> (r: Option<String>)
    ensures
        r == notion_employee(workspace_setting, notion_default, gateway_default, directory_default),
{
    if let Some(e) = &workspace_setting {
        if !e.as_str().is_empty() {
            return workspace_setting;
        }
    }
    if let Some(e) = &notion_default {
        if !e.as_str().is_empty() {
            return notion_default;
        }
    }
    match gateway_default {
        Some(g) => Some(g),
        None => directory_default,
    }
}

/// Link to a Notion page.
pub fn notion_page_url(page_id: &str) -> (r: String)
    ensures
        r@ == "https://notion.so/"@ + without_dashes(page_id@),
{
    let v = crate::text::to_chars(page_id);
    let mut out: Vec<char> = Vec::new();
    let mut i: usize = 0;
    while i < v.len()
        invariant
            i <= v@.len(),
            out@ == without_dashes(v@.take(i as int)),
        decreases v@.len() - i,
    {
        proof {
            assert(v@.take(i + 1).drop_last() =~= v@.take(i as int));
        }
        if v[i] != '-' {
            out.push(v[i]);
        }
        i = i + 1;
    }
    proof {
        assert(v@.take(v@.len() as int) =~= v@);
    }
    let tail = crate::text::from_chars(out.as_slice());
    crate::text::concat2("https://notion.so/", tail.as_str())
}

/// Key under which a comment is enqueued at most once.
pub fn notion_dedupe_key(comment_id: &str) -> (r: String)
    ensures
        r@ == "notion:comment:"@ + comment_id@,
{
    crate::text::concat2("notion:comment:", comment_id)
}

/// The sender shown for a comment.
pub open spec fn notion_sender(author_name: Option<&str>) -> Seq<char> {
    match author_name {
        Some(a) => a@,
        None => "Unknown Notion User"@,
    }
}

/// The inbound message a comment becomes.
pub fn build_notion_payload(
    employee_id: &str,
    page_id: &str,
    workspace_id: Option<&str>,
    author_name: Option<&str>,
    comment_text: &str,
    comment_id: &str,
) -> (p: IngestionPayload)
    ensures
        p.sender@ == notion_sender(author_name),
        opt_str(p.sender_name) == crate::webhook::opt_text(author_name),
        p.recipient@ == employee_id@,
        opt_str(p.subject) == Some("Notion comment on page "@ + page_id@),
        opt_str(p.text_body) == Some(comment_text@),
        p.html_body is None,
        p.thread_id@ == "notion:page:"@ + page_id@,
        opt_str(p.message_id) == Some(comment_id@),
        p.attachments@.len() == 0,
        crate::text::strs(p.reply_to@) == seq![notion_sender(author_name)],
        opt_str(p.metadata.notion_workspace_id) == crate::webhook::opt_text(workspace_id),
        opt_str(p.metadata.notion_page_id) == Some(page_id@),
        opt_str(p.metadata.notion_comment_id) == Some(comment_id@),
        p.metadata.slack_channel_id is None,
        p.metadata.discord_channel_id is None,
        p.metadata.discord_guild_id is None,
        p.metadata.sms_from is None,
        p.metadata.sms_to is None,
{
    let sender = match author_name {
        Some(a) => crate::text::owned(a),
        None => crate::text::owned("Unknown Notion User"),
    };
    let mut metadata = ChannelMetadata::default();
    metadata.notion_workspace_id = match workspace_id {
        Some(w) => Some(crate::text::owned(w)),
        None => None,
    };
    metadata.notion_page_id = Some(crate::text::owned(page_id));
    metadata.notion_comment_id = Some(crate::text::owned(comment_id));
    let reply_to = vec![sender.clone()];
    proof {
        assert(crate::text::strs(reply_to@) =~= seq![notion_sender(author_name)]);
    }
    IngestionPayload {
        sender,
        sender_name: match author_name {
            Some(a) => Some(crate::text::owned(a)),
            None => None,
        },
        recipient: crate::text::owned(employee_id),
        subject: Some(crate::text::concat2("Notion comment on page ", page_id)),
        text_body: Some(crate::text::owned(comment_text)),
        html_body: None,
        thread_id: crate::text::concat2("notion:page:", page_id),
        message_id: Some(crate::text::owned(comment_id)),
        attachments: Vec::new(),
        reply_to,
        metadata,
    }
}

} // verus!
