//! Queue payloads for inbound messages.

use vstd::prelude::*;
use crate::channel::{copy_attachments, copy_metadata, Attachment, Channel, ChannelMetadata, InboundMessage};
use crate::text::{clone_opt, clone_strings, opt_str, trim};

verus! {

/// The part of an inbound message that travels through the ingestion queue.
#[derive(Debug, Clone, PartialEq, Eq)]
pub struct IngestionPayload {
    pub sender: String,
    pub sender_name: Option<String>,
    pub recipient: String,
    pub subject: Option<String>,
    pub text_body: Option<String>,
    pub html_body: Option<String>,
    pub thread_id: String,
    pub message_id: Option<String>,
    pub attachments: Vec<Attachment>,
    pub reply_to: Vec<String>,
    pub metadata: ChannelMetadata,
}

/// `p` carries exactly the message fields of `m`.
pub open spec fn payload_matches(p: IngestionPayload, m: InboundMessage) -> bool {
    &&& p.sender == m.sender
    &&& p.sender_name == m.sender_name
    &&& p.recipient == m.recipient
    &&& p.subject == m.subject
    &&& p.text_body == m.text_body
    &&& p.html_body == m.html_body
    &&& p.thread_id == m.thread_id
    &&& p.message_id == m.message_id
    &&& p.attachments@ == m.attachments@
    &&& p.reply_to@ == m.reply_to@
    &&& p.metadata == m.metadata
}

impl IngestionPayload {
    /// The queue payload of a message.
    pub fn from_inbound(message: &InboundMessage) -> (p: Self)
        ensures
            payload_matches(p, *message),
    {
        IngestionPayload {
            sender: message.sender.clone(),
            sender_name: clone_opt(&message.sender_name),
            recipient: message.recipient.clone(),
            subject: clone_opt(&message.subject),
            text_body: clone_opt(&message.text_body),
            html_body: clone_opt(&message.html_body),
            thread_id: message.thread_id.clone(),
            message_id: clone_opt(&message.message_id),
            attachments: copy_attachments(&message.attachments),
            reply_to: clone_strings(&message.reply_to),
            metadata: copy_metadata(&message.metadata),
        }
    }

    /// The message this payload describes, on `channel`, with the given raw bytes.
    pub fn to_inbound_message(&self, channel: Channel, raw_payload: Vec<u8>) -> (m: InboundMessage)
        ensures
            payload_matches(*self, m),
            m.channel == channel,
            m.raw_payload == raw_payload,
    {
        InboundMessage {
            channel,
            sender: self.sender.clone(),
            sender_name: clone_opt(&self.sender_name),
            recipient: self.recipient.clone(),
            subject: clone_opt(&self.subject),
            text_body: clone_opt(&self.text_body),
            html_body: clone_opt(&self.html_body),
            thread_id: self.thread_id.clone(),
            message_id: clone_opt(&self.message_id),
            attachments: copy_attachments(&self.attachments),
            reply_to: clone_strings(&self.reply_to),
            raw_payload,
            metadata: copy_metadata(&self.metadata),
        }
    }
}

/// The queue payload for a message; email attachments are left out to keep
/// queue entries small (their bytes stay in the stored raw payload).
pub fn build_queue_payload(channel: Channel, message: &InboundMessage) -> (p: IngestionPayload)
    ensures
        channel == Channel::Email ==> p.attachments@.len() == 0,
        channel != Channel::Email ==> p.attachments@ == message.attachments@,
        p.sender == message.sender,
        p.sender_name == message.sender_name,
        p.recipient == message.recipient,
        p.subject == message.subject,
        p.text_body == message.text_body,
        p.html_body == message.html_body,
        p.thread_id == message.thread_id,
        p.message_id == message.message_id,
        p.reply_to@ == message.reply_to@,
        p.metadata == message.metadata,
{
    let mut payload = IngestionPayload::from_inbound(message);
    if channel == Channel::Email {
        payload.attachments.clear();
    }
    payload
}

/// A queued message: its route, dedupe key, payload and raw bytes (Base64).
/// The id is a UUID value and the time is in milliseconds since the epoch.
#[derive(Debug, Clone)]
pub struct IngestionEnvelope {
    pub envelope_id: u128,
    pub received_at: i64,
    pub tenant_id: Option<String>,
    pub employee_id: String,
    pub channel: Channel,
    pub external_message_id: Option<String>,
    pub dedupe_key: String,
    pub payload: IngestionPayload,
    pub raw_payload_b64: Option<String>,
}

/// Raw bytes as stored in a queue entry: standard Base64, absent when empty.
pub fn encode_raw_payload(payload: &[u8]) -> (r: Option<String>)
    ensures
        payload@.len() == 0 ==> r is None,
        payload@.len() > 0 ==> opt_str(r) == Some(crate::digest::base64_standard(payload@)),
        decoded_payload(opt_str(r)) == payload@,
{
    if payload.len() == 0 {
        None
    } else {
        let text = crate::digest::base64_encode(payload);
        proof {
            crate::text::lemma_trim_no_ws(text@);
        }
        Some(text)
    }
}

/// The bytes a stored text stands for: empty when absent, blank or not
/// valid Base64.
pub open spec fn decoded_payload(encoded: Option<Seq<char>>) -> Seq<u8> {
    match encoded {
        Some(v) => if trim(v).len() == 0 {
            Seq::empty()
        } else {
            match crate::digest::base64_standard_decode(vstd::utf8::encode_utf8(v)) {
                Some(b) => b,
                None => Seq::empty(),
            }
        },
        None => Seq::empty(),
    }
}

/// Raw bytes back from their stored text.
pub fn decode_raw_payload(encoded: Option<&str>) -> (r: Vec<u8>)
    ensures
        r@ == decoded_payload(crate::env_alias::opt_chars(encoded)),
{
    match encoded {
        Some(value) => {
            if crate::text::is_blank(value) {
                Vec::new()
            } else {
                match crate::digest::base64_decode(value.as_bytes()) {
                    Some(b) => b,
                    None => Vec::new(),
                }
            }
        },
        None => Vec::new(),
    }
}

impl IngestionEnvelope {
    /// The raw bytes of the queued message.
    pub fn raw_payload_bytes(&self) -> (r: Vec<u8>)
        ensures
            r@ == decoded_payload(opt_str(self.raw_payload_b64)),
    {
        decode_raw_payload(match &self.raw_payload_b64 {
            Some(s) => Some(s.as_str()),
            None => None,
        })
    }

    /// The message this entry carries.
    pub fn to_inbound_message(&self) -> (m: InboundMessage)
        ensures
            payload_matches(self.payload, m),
            m.channel == self.channel,
            m.raw_payload@ == decoded_payload(opt_str(self.raw_payload_b64)),
    {
        self.payload.to_inbound_message(self.channel, self.raw_payload_bytes())
    }
}

} // verus!
