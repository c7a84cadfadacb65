//! The memo write queue: which writes share a queue, where they go, and
//! how they fail.

use vstd::prelude::*;
use crate::gtm::ids::uuid_text;
use crate::text::{lower_seq, trim};

verus! {

/// Why a memo write could not be queued or applied.
#[derive(Debug, Clone)]
pub enum MemoryQueueError {
    /// An I/O failure, with its message.
    Io(String),
    LockPoisoned,
    ChannelClosed,
    BlobStore(String),
}

pub open spec fn memory_queue_error_text(e: MemoryQueueError) -> Seq<char> {
    match e {
        MemoryQueueError::Io(m) => "IO error: "@ + m@,
        MemoryQueueError::LockPoisoned => "Queue lock poisoned"@,
        MemoryQueueError::ChannelClosed => "Channel closed"@,
        MemoryQueueError::BlobStore(m) => "Blob storage error: "@ + m@,
    }
}

impl MemoryQueueError {
    /// The error's message.
    pub fn message(&self) -> (r: String)
        ensures
            r@ == memory_queue_error_text(*self),
    {
        match self {
            MemoryQueueError::Io(m) => crate::text::concat2("IO error: ", m.as_str()),
            MemoryQueueError::LockPoisoned => crate::text::owned("Queue lock poisoned"),
            MemoryQueueError::ChannelClosed => crate::text::owned("Channel closed"),
            MemoryQueueError::BlobStore(m) => crate::text::concat2("Blob storage error: ", m.as_str()),
        }
    }
}

/// The queue a memo write goes to: that of its unified account when it has
/// one, else that of its user. Writes on one queue are applied in order.
pub open spec fn queue_key_of(account_id: Option<u128>, user_id: Seq<char>) -> Seq<char> {
    match account_id {
        Some(id) => "account:"@ + uuid_text(id),
        None => "user:"@ + user_id,
    }
}

pub fn memory_queue_key(account_id: Option<u128>, user_id: &str) -> (r: String)
    ensures
        r@ == queue_key_of(account_id, user_id@),
{
    match account_id {
        Some(id) => {
            let t = crate::gtm::ids::uuid_hyphenated(id);
            crate::text::concat2("account:", t.as_str())
        },
        None => crate::text::concat2("user:", user_id),
    }
}

/// Whether memo writes go to blob storage: on unless the setting, trimmed
/// and lower-cased, is empty, `0` or `false` (an absent setting means on).
pub open spec fn use_blob_of(setting: Option<String>) -> bool {
    match setting {
        Some(v) => {
            let l = lower_seq(trim(v@));
            !(l.len() == 0 || l == "0"@ || l == "false"@)
        },
        None => true,
    }
}

pub fn memory_queue_use_blob(setting: Option<String>) -> (r: bool)
    ensures
        r == use_blob_of(setting),
{
    match &setting {
        Some(v) => {
            let t = crate::text::trim_string(v);
            let l = crate::text::lower_str(t.as_str());
            let n = crate::text::to_chars(l.as_str()).len();
            let l = l.as_str();
            !(n == 0 || crate::text::str_eq(l, "0") || crate::text::str_eq(l, "false"))
        },
        None => true,
    }
}

} // verus!
