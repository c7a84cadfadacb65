//! Messaging channels and inbound messages.

use vstd::prelude::*;
use crate::text::owned;

verus! {

/// A channel a message can arrive on.
#[derive(Debug, Clone, Copy, PartialEq, Eq, Hash, Structural)]
pub enum Channel {
    Email,
    Slack,
    Discord,
    Sms,
    Telegram,
    WhatsApp,
    BlueBubbles,
    GoogleDocs,
    GoogleSheets,
    GoogleSlides,
    Notion,
}

/// The textual name of a channel.
pub open spec fn channel_name(c: Channel) -> Seq<char> {
    match c {
        Channel::Email => "email"@,
        Channel::Slack => "slack"@,
        Channel::Discord => "discord"@,
        Channel::Sms => "sms"@,
        Channel::Telegram => "telegram"@,
        Channel::WhatsApp => "whatsapp"@,
        Channel::BlueBubbles => "bluebubbles"@,
        Channel::GoogleDocs => "google_docs"@,
        Channel::GoogleSheets => "google_sheets"@,
        Channel::GoogleSlides => "google_slides"@,
        Channel::Notion => "notion"@,
    }
}

/// The channel whose name equals `s` ignoring ASCII case.
pub open spec fn channel_from_name(s: Seq<char>) -> Option<Channel> {
    let l = crate::text::lower_seq(s);
    if l == "email"@ {
        Some(Channel::Email)
    } else if l == "slack"@ {
        Some(Channel::Slack)
    } else if l == "discord"@ {
        Some(Channel::Discord)
    } else if l == "sms"@ {
        Some(Channel::Sms)
    } else if l == "telegram"@ {
        Some(Channel::Telegram)
    } else if l == "whatsapp"@ {
        Some(Channel::WhatsApp)
    } else if l == "bluebubbles"@ {
        Some(Channel::BlueBubbles)
    } else if l == "google_docs"@ {
        Some(Channel::GoogleDocs)
    } else if l == "google_sheets"@ {
        Some(Channel::GoogleSheets)
    } else if l == "google_slides"@ {
        Some(Channel::GoogleSlides)
    } else if l == "notion"@ {
        Some(Channel::Notion)
    } else {
        None
    }
}

/// Every channel is found again under its own name.
pub proof fn lemma_channel_name_roundtrip(c: Channel)
    ensures
        channel_from_name(channel_name(c)) == Some(c),
{
    reveal_strlit("email");
    reveal_strlit("slack");
    reveal_strlit("discord");
    reveal_strlit("sms");
    reveal_strlit("telegram");
    reveal_strlit("whatsapp");
    reveal_strlit("bluebubbles");
    reveal_strlit("google_docs");
    reveal_strlit("google_sheets");
    reveal_strlit("google_slides");
    reveal_strlit("notion");
    let n = channel_name(c);
    assert(crate::text::lower_seq(n) =~= n);
    let names = seq!["email"@, "slack"@, "discord"@, "sms"@, "telegram"@, "whatsapp"@, "bluebubbles"@,
        "google_docs"@, "google_sheets"@, "google_slides"@, "notion"@];
    assert forall|i: int, j: int| 0 <= i < j < names.len() implies names[i] != names[j] by {
        if names[i].len() == names[j].len() {
            if names[i][0] == names[j][0] {
                assert(names[i][8] != names[j][8]);
            } else {
                assert(names[i][0] != names[j][0]);
            }
        }
    }
    assert(n == names[0] || n == names[1] || n == names[2] || n == names[3] || n == names[4] || n == names[5]
        || n == names[6] || n == names[7] || n == names[8] || n == names[9] || n == names[10]);
}

impl Channel {
    /// The textual name of the channel.
    pub fn as_str(&self) -> (r: &'static str)
        ensures
            r@ == channel_name(*self),
    {
        match self {
            Channel::Email => "email",
            Channel::Slack => "slack",
            Channel::Discord => "discord",
            Channel::Sms => "sms",
            Channel::Telegram => "telegram",
            Channel::WhatsApp => "whatsapp",
            Channel::BlueBubbles => "bluebubbles",
            Channel::GoogleDocs => "google_docs",
            Channel::GoogleSheets => "google_sheets",
            Channel::GoogleSlides => "google_slides",
            Channel::Notion => "notion",
        }
    }

    /// The channel named `s` (ignoring ASCII case), if any.
    pub fn parse_name(s: &str) -> (r: Option<Channel>)
        ensures
            r == channel_from_name(s@),
    {
        let l = crate::text::lower_str(s);
        let l = l.as_str();
        if crate::text::str_eq(l, "email") {
            Some(Channel::Email)
        } else if crate::text::str_eq(l, "slack") {
            Some(Channel::Slack)
        } else if crate::text::str_eq(l, "discord") {
            Some(Channel::Discord)
        } else if crate::text::str_eq(l, "sms") {
            Some(Channel::Sms)
        } else if crate::text::str_eq(l, "telegram") {
            Some(Channel::Telegram)
        } else if crate::text::str_eq(l, "whatsapp") {
            Some(Channel::WhatsApp)
        } else if crate::text::str_eq(l, "bluebubbles") {
            Some(Channel::BlueBubbles)
        } else if crate::text::str_eq(l, "google_docs") {
            Some(Channel::GoogleDocs)
        } else if crate::text::str_eq(l, "google_sheets") {
            Some(Channel::GoogleSheets)
        } else if crate::text::str_eq(l, "google_slides") {
            Some(Channel::GoogleSlides)
        } else if crate::text::str_eq(l, "notion") {
            Some(Channel::Notion)
        } else {
            None
        }
    }
}

/// A file attached to a message.
#[derive(Debug, Clone, PartialEq, Eq)]
pub struct Attachment {
    pub name: String,
    pub content_type: String,
    pub content: String,
}

/// Channel-specific identifiers carried with a message.
#[derive(Debug, Clone, PartialEq, Eq)]
pub struct ChannelMetadata {
    pub slack_channel_id: Option<String>,
    pub discord_channel_id: Option<String>,
    pub discord_guild_id: Option<String>,
    pub sms_from: Option<String>,
    pub sms_to: Option<String>,
    pub notion_workspace_id: Option<String>,
    pub notion_page_id: Option<String>,
    pub notion_comment_id: Option<String>,
}

impl Default for ChannelMetadata {
    fn default() -> (r: Self)
        ensures
            r.slack_channel_id is None,
            r.discord_channel_id is None,
            r.discord_guild_id is None,
            r.sms_from is None,
            r.sms_to is None,
            r.notion_workspace_id is None,
            r.notion_page_id is None,
            r.notion_comment_id is None,
    {
        ChannelMetadata {
            slack_channel_id: None,
            discord_channel_id: None,
            discord_guild_id: None,
            sms_from: None,
            sms_to: None,
            notion_workspace_id: None,
            notion_page_id: None,
            notion_comment_id: None,
        }
    }
}

/// A message received on some channel.
#[derive(Debug, Clone, PartialEq, Eq)]
pub struct InboundMessage {
    pub channel: Channel,
    pub sender: String,
    pub sender_name: Option<String>,
    pub recipient: String,
    pub subject: Option<String>,
    pub text_body: Option<String>,
    pub html_body: Option<String>,
    pub thread_id: String,
    pub message_id: Option<String>,
    pub attachments: Vec<Attachment>,
    pub reply_to: Vec<String>,
    pub raw_payload: Vec<u8>,
    pub metadata: ChannelMetadata,
}

pub fn copy_attachment(a: &Attachment) -> (r: Attachment)
    ensures
        r == *a,
{
    Attachment { name: a.name.clone(), content_type: a.content_type.clone(), content: a.content.clone() }
}

pub fn copy_attachments(v: &Vec<Attachment>) -> (r: Vec<Attachment>)
    ensures
        r@ == v@,
{
    let mut r: Vec<Attachment> = Vec::new();
    let mut i: usize = 0;
    while i < v.len()
        invariant
            i <= v@.len(),
            r@ == v@.take(i as int),
        decreases v@.len() - i,
    {
        r.push(copy_attachment(&v[i]));
        i = i + 1;
        proof {
            assert(r@ =~= v@.take(i as int));
        }
    }
    proof {
        assert(v@.take(v@.len() as int) =~= v@);
    }
    r
}

pub fn copy_metadata(m: &ChannelMetadata) -> (r: ChannelMetadata)
    ensures
        r == *m,
{
    ChannelMetadata {
        slack_channel_id: crate::text::clone_opt(&m.slack_channel_id),
        discord_channel_id: crate::text::clone_opt(&m.discord_channel_id),
        discord_guild_id: crate::text::clone_opt(&m.discord_guild_id),
        sms_from: crate::text::clone_opt(&m.sms_from),
        sms_to: crate::text::clone_opt(&m.sms_to),
        notion_workspace_id: crate::text::clone_opt(&m.notion_workspace_id),
        notion_page_id: crate::text::clone_opt(&m.notion_page_id),
        notion_comment_id: crate::text::clone_opt(&m.notion_comment_id),
    }
}

} // verus!
