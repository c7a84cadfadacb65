//! Where the Discord gateway keeps each guild's state and each
//! conversation's workspace, and how a message is filed there.

use vstd::prelude::*;
use crate::digest::{hex_lower, md5_digest};
use crate::number::{decimal, zero_padded};
use vstd::utf8::encode_utf8;

verus! {

/// What `std::path::Path::join` makes of two paths on Unix: an absolute
/// `part` replaces `base`; otherwise `part` follows `base`, after a `/`
/// unless `base` is empty or already ends with one.
pub open spec fn joined_path(base: Seq<char>, part: Seq<char>) -> Seq<char> {
    if part.len() > 0 && part[0] == '/' {
        part
    } else if base.len() == 0 || base.last() == '/' {
        base + part
    } else {
        base + "/"@ + part
    }
}

/// `Path::new(base).join(part)` on Unix, as text (both arguments are UTF-8, so the
/// lossy conversion back to text loses nothing).
#[verifier::external_body]
fn path_join(base: &str, part: &str) -> (r: String)
    ensures
        r@ == joined_path(base@, part@),
{
    std::path::Path::new(base).join(part).to_string_lossy().into_owned()
}

/// Directories and files of one guild: `{root}/discord/{guild_id}/` with a
/// `state` directory holding `tasks.db`, and a `workspaces` directory.
#[derive(Debug, Clone)]
pub struct DiscordGuildPaths {
    pub root: String,
    pub state_dir: String,
    pub tasks_db_path: String,
    pub workspaces_root: String,
}

impl DiscordGuildPaths {
    /// The paths of a guild under the workspace root.
    pub fn new(workspace_root: &str, guild_id: &str) -> (r: Self)
        ensures
            r.root@ == joined_path(joined_path(workspace_root@, "discord"@), guild_id@),
            r.state_dir@ == joined_path(r.root@, "state"@),
            r.tasks_db_path@ == joined_path(r.state_dir@, "tasks.db"@),
            r.workspaces_root@ == joined_path(r.root@, "workspaces"@),
    {
        let discord = path_join(workspace_root, "discord");
        let root = path_join(discord.as_str(), guild_id);
        let state_dir = path_join(root.as_str(), "state");
        let tasks_db_path = path_join(state_dir.as_str(), "tasks.db");
        let workspaces_root = path_join(root.as_str(), "workspaces");
        DiscordGuildPaths { root, state_dir, tasks_db_path, workspaces_root }
    }

    /// The user id the task index files a guild's tasks under.
    pub fn user_id(guild_id: &str) -> (r: String)
        ensures
            r@ == "discord:"@ + guild_id@,
    {
        crate::text::concat2("discord:", guild_id)
    }
}

/// The guild part of a conversation's keys: the guild id, or `dm` for a
/// direct message.
pub fn guild_key(guild_id: Option<String>) -> (r: String)
    ensures
        r@ == match guild_id {
            Some(g) => g@,
            None => "dm"@,
        },
{
    match guild_id {
        Some(g) => g,
        None => crate::text::owned("dm"),
    }
}

/// The key a conversation's thread state is kept under:
/// `discord:{guild}:{channel}:{thread}`.
pub fn discord_thread_key(guild: &str, channel_id: &str, thread_id: &str) -> (r: String)
    ensures
        r@ == "discord:"@ + guild@ + ":"@ + channel_id@ + ":"@ + thread_id@,
{
    let mut r = crate::text::concat3("discord:", guild, ":");
    r.append(channel_id);
    r.append(":");
    r.append(thread_id);
    r
}

/// The short name of a thread: the first eight hex digits of the MD5 digest
/// of its id.
pub open spec fn thread_hash_of(thread_id: Seq<char>) -> Seq<char> {
    hex_lower(md5_digest(encode_utf8(thread_id))).take(8)
}

pub fn discord_thread_hash(thread_id: &str) -> (r: String)
    ensures
        r@ == thread_hash_of(thread_id@),
{
    let h = crate::digest::md5_hex(thread_id.as_bytes());
    let c = crate::text::to_chars(h.as_str());
    let head = crate::text::slice_range(c.as_slice(), 0, 8);
    proof {
        assert(head@ =~= c@.take(8));
    }
    crate::text::from_chars(head.as_slice())
}

/// The workspace of a conversation: `{workspaces_root}/{channel}/{thread hash}`.
pub fn discord_workspace_dir(workspaces_root: &str, channel_id: &str, thread_id: &str) -> (r: String)
    ensures
        r@ == joined_path(joined_path(workspaces_root@, channel_id@), thread_hash_of(thread_id@)),
{
    let dir = path_join(workspaces_root, channel_id);
    let hash = discord_thread_hash(thread_id);
    path_join(dir.as_str(), hash.as_str())
}

/// The files a message is saved as in a workspace's `incoming_email`
/// directory: the raw event, the text and the metadata, each named by the
/// message's sequence number padded to five digits.
pub fn discord_message_files(seq: u64) -> (r: (String, String, String))
    ensures
        r.0@ == zero_padded(decimal(seq as nat), 5) + "_discord_raw.json"@,
        r.1@ == zero_padded(decimal(seq as nat), 5) + "_discord_message.txt"@,
        r.2@ == zero_padded(decimal(seq as nat), 5) + "_discord_meta.json"@,
{
    let n = crate::number::u64_padded5(seq);
    (
        crate::text::concat2(n.as_str(), "_discord_raw.json"),
        crate::text::concat2(n.as_str(), "_discord_message.txt"),
        crate::text::concat2(n.as_str(), "_discord_meta.json"),
    )
}

} // verus!
