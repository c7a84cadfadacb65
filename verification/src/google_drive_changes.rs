//! Settings and bookkeeping of Google Drive push-notification channels.

use vstd::prelude::*;
use crate::text::{eq_ic, opt_str};
use crate::number::uint_text;

verus! {

/// Lifetime requested for a new channel, in seconds.
pub const DEFAULT_CHANNEL_EXPIRATION_SECS: u64 = 3600;

/// A channel is renewed this many seconds before it expires.
pub const CHANNEL_RENEWAL_BUFFER_SECS: u64 = 300;

/// Settings of Drive push notifications.
#[derive(Debug, Clone)]
pub struct GoogleDriveChangesConfig {
    pub enabled: bool,
    pub webhook_url: Option<String>,
    pub channel_expiration_secs: u64,
}

impl Default for GoogleDriveChangesConfig {
    fn default() -> (r: Self)
        ensures
            !r.enabled,
            r.webhook_url is None,
            r.channel_expiration_secs == DEFAULT_CHANNEL_EXPIRATION_SECS,
    {
        GoogleDriveChangesConfig {
            enabled: false,
            webhook_url: None,
            channel_expiration_secs: DEFAULT_CHANNEL_EXPIRATION_SECS,
        }
    }
}

/// A flag setting is on when it reads `true` in any case, or `1`.
pub open spec fn flag_on(v: Option<Seq<char>>) -> bool {
    v matches Some(s) && (eq_ic(s, "true"@) || s == "1"@)
}

/// Whether a flag setting is on.
pub fn flag_enabled(v: &Option<String>) -> (r: bool)
    ensures
        r == flag_on(opt_str(*v)),
{
    match v {
        Some(s) => crate::text::str_eq_ic(s.as_str(), "true") || crate::text::str_eq(s.as_str(), "1"),
        None => false,
    }
}

/// A seconds setting: its value when it parses as an unsigned 64-bit number,
/// else the default.
pub open spec fn seconds_setting(v: Option<Seq<char>>, default: u64) -> u64 {
    match v {
        Some(s) => match uint_text(s) {
            Some(n) => if n <= u64::MAX {
                n as u64
            } else {
                default
            },
            None => default,
        },
        None => default,
    }
}

impl GoogleDriveChangesConfig {
    /// The configuration from its raw settings (each absent when unset).
    pub fn from_settings(
        push_enabled: Option<String>,
        webhook_url: Option<String>,
        channel_expiration_secs: Option<String>,
    ) -> (r: Self)
        ensures
            r.enabled == flag_on(opt_str(push_enabled)),
            r.webhook_url == webhook_url,
            r.channel_expiration_secs == seconds_setting(
                opt_str(channel_expiration_secs),
                DEFAULT_CHANNEL_EXPIRATION_SECS,
            ),
    {
        let enabled = flag_enabled(&push_enabled);
        let secs = match &channel_expiration_secs {
            Some(s) => match crate::number::parse_u64(s.as_str()) {
                Some(n) => n,
                None => DEFAULT_CHANNEL_EXPIRATION_SECS,
            },
            None => DEFAULT_CHANNEL_EXPIRATION_SECS,
        };
        GoogleDriveChangesConfig { enabled, webhook_url, channel_expiration_secs: secs }
    }

    /// Push notifications are on and have an address to reach.
    pub fn is_valid(&self) -> (r: bool)
        ensures
            r == (self.enabled && self.webhook_url is Some),
    {
        self.enabled && self.webhook_url.is_some()
    }

    /// The expiry to request for a channel opened at `now_ms`, in
    /// milliseconds since the epoch.
    pub fn requested_expiration_ms(&self, now_ms: u64) -> (r: u64)
        requires
            now_ms + self.channel_expiration_secs * 1000 <= u64::MAX,
        ensures
            r == now_ms + self.channel_expiration_secs * 1000,
    {
        now_ms + self.channel_expiration_secs * 1000
    }
}

/// The answer of `files.watch`.
#[derive(Debug, Clone)]
pub struct WatchChannelResponse {
    pub id: String,
    pub resource_id: String,
    pub resource_uri: Option<String>,
    pub expiration: Option<String>,
}

/// A push notification as its headers describe it.
#[derive(Debug, Clone)]
pub struct ChangeNotification {
    pub channel_id: String,
    pub resource_id: String,
    pub resource_state: String,
    pub message_number: Option<String>,
}

/// A channel being watched; times in milliseconds since the epoch.
#[derive(Debug, Clone)]
pub struct WatchChannel {
    pub id: String,
    pub file_id: String,
    pub resource_id: String,
    pub expires_at_ms: i64,
    pub created_at_ms: i64,
}

impl WatchChannel {
    /// Whether the channel is within the renewal buffer of its expiry at `now_ms`.
    pub fn needs_renewal(&self, now_ms: i64) -> (r: bool)
        ensures
            r == (now_ms >= self.expires_at_ms - CHANNEL_RENEWAL_BUFFER_SECS * 1000),
    {
        (now_ms as i128) >= (self.expires_at_ms as i128) - (CHANNEL_RENEWAL_BUFFER_SECS as i128) * 1000
    }

    /// Whether the channel has expired at `now_ms`.
    pub fn is_expired(&self, now_ms: i64) -> (r: bool)
        ensures
            r == (now_ms >= self.expires_at_ms),
    {
        now_ms >= self.expires_at_ms
    }
}

/// Position of the channel for file `f`, or the number of channels.
pub open spec fn chan_pos(v: Seq<WatchChannel>, f: Seq<char>) -> int
    decreases v.len(),
{
    if v.len() == 0 {
        0
    } else if v[0].file_id@ == f {
        0
    } else {
        1 + chan_pos(v.drop_first(), f)
    }
}

/// Position of the entry for resource `r`, or the number of entries.
pub open spec fn res_pos(v: Seq<(String, String)>, r: Seq<char>) -> int
    decreases v.len(),
{
    if v.len() == 0 {
        0
    } else if v[0].0@ == r {
        0
    } else {
        1 + res_pos(v.drop_first(), r)
    }
}

proof fn lemma_chan_pos(v: Seq<WatchChannel>, f: Seq<char>)
    ensures
        0 <= chan_pos(v, f) <= v.len(),
        chan_pos(v, f) < v.len() ==> v[chan_pos(v, f)].file_id@ == f,
        forall|j: int| 0 <= j < chan_pos(v, f) ==> (#[trigger] v[j]).file_id@ != f,
    decreases v.len(),
{
    if v.len() > 0 && v[0].file_id@ != f {
        lemma_chan_pos(v.drop_first(), f);
        assert forall|j: int| 0 <= j < chan_pos(v, f) implies (#[trigger] v[j]).file_id@ != f by {
            if j > 0 {
                assert(v[j] == v.drop_first()[j - 1]);
            }
        }
    }
}

proof fn lemma_chan_pos_is(v: Seq<WatchChannel>, f: Seq<char>, k: int)
    requires
        0 <= k <= v.len(),
        k < v.len() ==> v[k].file_id@ == f,
        forall|j: int| 0 <= j < k ==> (#[trigger] v[j]).file_id@ != f,
    ensures
        chan_pos(v, f) == k,
    decreases v.len(),
{
    if v.len() > 0 && k > 0 {
        lemma_chan_pos_is(v.drop_first(), f, k - 1);
    }
}

proof fn lemma_res_pos(v: Seq<(String, String)>, r: Seq<char>)
    ensures
        0 <= res_pos(v, r) <= v.len(),
        res_pos(v, r) < v.len() ==> v[res_pos(v, r)].0@ == r,
        forall|j: int| 0 <= j < res_pos(v, r) ==> (#[trigger] v[j]).0@ != r,
    decreases v.len(),
{
    if v.len() > 0 && v[0].0@ != r {
        lemma_res_pos(v.drop_first(), r);
        assert forall|j: int| 0 <= j < res_pos(v, r) implies (#[trigger] v[j]).0@ != r by {
            if j > 0 {
                assert(v[j] == v.drop_first()[j - 1]);
            }
        }
    }
}

proof fn lemma_res_pos_is(v: Seq<(String, String)>, r: Seq<char>, k: int)
    requires
        0 <= k <= v.len(),
        k < v.len() ==> v[k].0@ == r,
        forall|j: int| 0 <= j < k ==> (#[trigger] v[j]).0@ != r,
    ensures
        res_pos(v, r) == k,
    decreases v.len(),
{
    if v.len() > 0 && k > 0 {
        lemma_res_pos_is(v.drop_first(), r, k - 1);
    }
}

/// The channels after watching with `c`: it replaces the file's channel, or
/// is added.
pub open spec fn put_channel(v: Seq<WatchChannel>, c: WatchChannel) -> Seq<WatchChannel> {
    let k = chan_pos(v, c.file_id@);
    if k < v.len() {
        v.update(k, c)
    } else {
        v.push(c)
    }
}

/// The resource entries after mapping resource `r` to file `f`.
pub open spec fn put_resource(v: Seq<(String, String)>, r: String, f: String) -> Seq<(String, String)> {
    let k = res_pos(v, r@);
    if k < v.len() {
        v.update(k, (r, f))
    } else {
        v.push((r, f))
    }
}

/// The files whose channels are due for renewal at `now_ms`, in order.
pub open spec fn renewal_files(v: Seq<WatchChannel>, now_ms: i64) -> Seq<Seq<char>>
    decreases v.len(),
{
    if v.len() == 0 {
        Seq::empty()
    } else {
        let r = renewal_files(v.drop_last(), now_ms);
        if now_ms >= v.last().expires_at_ms - CHANNEL_RENEWAL_BUFFER_SECS * 1000 {
            r.push(v.last().file_id@)
        } else {
            r
        }
    }
}

/// The channels being watched and the files their notifications belong to.
#[derive(Debug, Clone)]
pub struct WatchRegistry {
    /// The watched channels, at most one per file.
    pub channels: Vec<WatchChannel>,
    /// Resource ids and the file each belongs to, at most one entry per resource.
    pub resources: Vec<(String, String)>,
}

impl WatchRegistry {
    /// No file has two channels and no resource two entries.
    pub open spec fn wf(&self) -> bool {
        &&& forall|i: int, j: int|
            0 <= i < j < self.channels@.len() ==> (#[trigger] self.channels@[i]).file_id@ != (#[trigger] self.channels@[j]).file_id@
        &&& forall|i: int, j: int|
            0 <= i < j < self.resources@.len() ==> (#[trigger] self.resources@[i]).0@ != (#[trigger] self.resources@[j]).0@
    }

    /// An empty registry.
    pub fn new() -> (r: Self)
        ensures
            r.channels@.len() == 0,
            r.resources@.len() == 0,
            r.wf(),
    {
        WatchRegistry { channels: Vec::new(), resources: Vec::new() }
    }

    fn find_channel(&self, file_id: &str) -> (k: usize)
        ensures
            k as int == chan_pos(self.channels@, file_id@),
    {
        let mut i: usize = 0;
        while i < self.channels.len()
            invariant
                i <= self.channels@.len(),
                forall|j: int| 0 <= j < i ==> (#[trigger] self.channels@[j]).file_id@ != file_id@,
            decreases self.channels@.len() - i,
        {
            if crate::text::str_eq(self.channels[i].file_id.as_str(), file_id) {
                proof {
                    lemma_chan_pos_is(self.channels@, file_id@, i as int);
                }
                return i;
            }
            i = i + 1;
        }
        proof {
            lemma_chan_pos_is(self.channels@, file_id@, i as int);
        }
        i
    }

    fn find_resource(&self, resource_id: &str) -> (k: usize)
        ensures
            k as int == res_pos(self.resources@, resource_id@),
    {
        let mut i: usize = 0;
        while i < self.resources.len()
            invariant
                i <= self.resources@.len(),
                forall|j: int| 0 <= j < i ==> (#[trigger] self.resources@[j]).0@ != resource_id@,
            decreases self.resources@.len() - i,
        {
            if crate::text::str_eq(self.resources[i].0.as_str(), resource_id) {
                proof {
                    lemma_res_pos_is(self.resources@, resource_id@, i as int);
                }
                return i;
            }
            i = i + 1;
        }
        proof {
            lemma_res_pos_is(self.resources@, resource_id@, i as int);
        }
        i
    }

    /// The channel watching `file_id`, if any.
    pub fn channel_for(&self, file_id: &str) -> (r: Option<&WatchChannel>)
        ensures
            chan_pos(self.channels@, file_id@) < self.channels@.len() ==> r == Some(
                &self.channels@[chan_pos(self.channels@, file_id@)],
            ),
            chan_pos(self.channels@, file_id@) >= self.channels@.len() ==> r is None,
    {
        let k = self.find_channel(file_id);
        if k < self.channels.len() {
            Some(&self.channels[k])
        } else {
            None
        }
    }

    /// Records a channel that was opened: it becomes the file's channel and
    /// its resource maps to the file.
    pub fn record_watch(&mut self, channel: WatchChannel)
        requires
            old(self).wf(),
        ensures
            final(self).channels@ == put_channel(old(self).channels@, channel),
            final(self).resources@ == put_resource(old(self).resources@, channel.resource_id, channel.file_id),
            final(self).wf(),
    {
        let rk = self.find_resource(channel.resource_id.as_str());
        let entry = (channel.resource_id.clone(), channel.file_id.clone());
        proof {
            lemma_res_pos(self.resources@, channel.resource_id@);
        }
        if rk < self.resources.len() {
            self.resources.set(rk, entry);
        } else {
            self.resources.push(entry);
        }
        let ck = self.find_channel(channel.file_id.as_str());
        proof {
            lemma_chan_pos(self.channels@, channel.file_id@);
        }
        if ck < self.channels.len() {
            self.channels.set(ck, channel);
        } else {
            self.channels.push(channel);
        }
    }

    /// Forgets the channel of `file_id` and its resource entry, answering
    /// the channel that was forgotten.
    pub fn forget(&mut self, file_id: &str) -> (r: Option<WatchChannel>)
        requires
            old(self).wf(),
        ensures
            final(self).wf(),
            (final(self).channels@, final(self).resources@) == forget_spec(old(self).channels@, old(self).resources@, file_id@),
            chan_pos(old(self).channels@, file_id@) >= old(self).channels@.len() ==> r is None
                && final(self).channels@ == old(self).channels@ && final(self).resources@ == old(self).resources@,
            chan_pos(old(self).channels@, file_id@) < old(self).channels@.len() ==> {
                let k = chan_pos(old(self).channels@, file_id@);
                let c = old(self).channels@[k];
                let j = res_pos(old(self).resources@, c.resource_id@);
                &&& r == Some(c)
                &&& final(self).channels@ == old(self).channels@.remove(k)
                &&& final(self).resources@ == (if j < old(self).resources@.len() {
                    old(self).resources@.remove(j)
                } else {
                    old(self).resources@
                })
            },
    {
        let k = self.find_channel(file_id);
        if k >= self.channels.len() {
            return None;
        }
        let c = self.channels.remove(k);
        let j = self.find_resource(c.resource_id.as_str());
        if j < self.resources.len() {
            self.resources.remove(j);
        }
        Some(c)
    }

    /// The file a change notification is about: none for the `sync`
    /// notification a new channel sends, or for an unknown resource.
    pub fn handle_notification(&self, notification: &ChangeNotification) -> (r: Option<String>)
        ensures
            notification.resource_state@ == "sync"@ ==> r is None,
            notification.resource_state@ != "sync"@ ==> ({
                let j = res_pos(self.resources@, notification.resource_id@);
                &&& j < self.resources@.len() ==> opt_str(r) == Some(self.resources@[j].1@)
                &&& j >= self.resources@.len() ==> r is None
            }),
    {
        if crate::text::str_eq(notification.resource_state.as_str(), "sync") {
            return None;
        }
        let j = self.find_resource(notification.resource_id.as_str());
        if j < self.resources.len() {
            Some(self.resources[j].1.clone())
        } else {
            None
        }
    }

    /// The files whose channels are due for renewal at `now_ms`.
    pub fn files_to_renew(&self, now_ms: i64) -> (r: Vec<String>)
        ensures
            crate::text::strs(r@) == renewal_files(self.channels@, now_ms),
    {
        let mut out: Vec<String> = Vec::new();
        let mut i: usize = 0;
        proof {
            assert(self.channels@.take(0) =~= Seq::<WatchChannel>::empty());
            assert(crate::text::strs(out@) =~= Seq::<Seq<char>>::empty());
        }
        while i < self.channels.len()
            invariant
                i <= self.channels@.len(),
                crate::text::strs(out@) == renewal_files(self.channels@.take(i as int), now_ms),
            decreases self.channels@.len() - i,
        {
            proof {
                assert(self.channels@.take(i + 1).drop_last() =~= self.channels@.take(i as int));
                assert(self.channels@.take(i + 1).last() == self.channels@[i as int]);
            }
            let c = &self.channels[i];
            if c.needs_renewal(now_ms) {
                let ghost before = out@;
                out.push(c.file_id.clone());
                proof {
                    assert(crate::text::strs(out@) =~= crate::text::strs(before).push(c.file_id@));
                }
            }
            i = i + 1;
        }
        proof {
            assert(self.channels@.take(self.channels@.len() as int) =~= self.channels@);
        }
        out
    }
}

/// After a channel is recorded, its file is found with that channel and
/// notifications for its resource name its file.
pub proof fn lemma_recorded_channel_found(channels: Seq<WatchChannel>, resources: Seq<(String, String)>, c: WatchChannel)
    requires
        forall|i: int, j: int| 0 <= i < j < channels.len() ==> (#[trigger] channels[i]).file_id@ != (#[trigger] channels[j]).file_id@,
        forall|i: int, j: int| 0 <= i < j < resources.len() ==> (#[trigger] resources[i]).0@ != (#[trigger] resources[j]).0@,
    ensures
        ({
            let v = put_channel(channels, c);
            let k = chan_pos(v, c.file_id@);
            k < v.len() && v[k] == c
        }),
        ({
            let w = put_resource(resources, c.resource_id, c.file_id);
            let j = res_pos(w, c.resource_id@);
            j < w.len() && w[j].1 == c.file_id
        }),
{
    lemma_chan_pos(channels, c.file_id@);
    let k = chan_pos(channels, c.file_id@);
    let v = put_channel(channels, c);
    if k < channels.len() {
        assert forall|j: int| 0 <= j < k implies (#[trigger] v[j]).file_id@ != c.file_id@ by {
            assert(v[j] == channels[j]);
        }
        lemma_chan_pos_is(v, c.file_id@, k);
    } else {
        assert forall|j: int| 0 <= j < k implies (#[trigger] v[j]).file_id@ != c.file_id@ by {
            assert(v[j] == channels[j]);
        }
        lemma_chan_pos_is(v, c.file_id@, k);
    }
    lemma_res_pos(resources, c.resource_id@);
    let jr = res_pos(resources, c.resource_id@);
    let w = put_resource(resources, c.resource_id, c.file_id);
    assert forall|j: int| 0 <= j < jr implies (#[trigger] w[j]).0@ != c.resource_id@ by {
        assert(w[j] == resources[j]);
    }
    lemma_res_pos_is(w, c.resource_id@, jr);
}

/// Once a file's channel is forgotten, the file has no channel.
pub proof fn lemma_forgotten_channel_gone(channels: Seq<WatchChannel>, f: Seq<char>)
    requires
        forall|i: int, j: int| 0 <= i < j < channels.len() ==> (#[trigger] channels[i]).file_id@ != (#[trigger] channels[j]).file_id@,
        chan_pos(channels, f) < channels.len(),
    ensures
        ({
            let v = channels.remove(chan_pos(channels, f));
            chan_pos(v, f) == v.len()
        }),
{
    lemma_chan_pos(channels, f);
    let k = chan_pos(channels, f);
    let v = channels.remove(k);
    assert forall|j: int| 0 <= j < v.len() implies (#[trigger] v[j]).file_id@ != f by {
        if j < k {
            assert(v[j] == channels[j]);
        } else {
            assert(v[j] == channels[j + 1]);
            assert(channels[k].file_id@ != channels[j + 1].file_id@);
        }
    }
    lemma_chan_pos_is(v, f, v.len() as int);
}

/// `c` is the channel of its file, and notifications for its resource name
/// that file (`handle_notification` answers the entry at `res_pos`).
pub open spec fn channel_live(ch: Seq<WatchChannel>, rs: Seq<(String, String)>, c: WatchChannel) -> bool {
    &&& chan_pos(ch, c.file_id@) < ch.len()
    &&& ch[chan_pos(ch, c.file_id@)] == c
    &&& res_pos(rs, c.resource_id@) < rs.len()
    &&& rs[res_pos(rs, c.resource_id@)].1@ == c.file_id@
}

/// A recorded channel is live.
pub proof fn lemma_recorded_channel_live(ch: Seq<WatchChannel>, rs: Seq<(String, String)>, c: WatchChannel)
    requires
        forall|i: int, j: int| 0 <= i < j < ch.len() ==> (#[trigger] ch[i]).file_id@ != (#[trigger] ch[j]).file_id@,
        forall|i: int, j: int| 0 <= i < j < rs.len() ==> (#[trigger] rs[i]).0@ != (#[trigger] rs[j]).0@,
    ensures
        channel_live(put_channel(ch, c), put_resource(rs, c.resource_id, c.file_id), c),
{
    lemma_recorded_channel_found(ch, rs, c);
}

/// Watching another file, on another resource, leaves a live channel live.
pub proof fn lemma_record_keeps_live(ch: Seq<WatchChannel>, rs: Seq<(String, String)>, c: WatchChannel, d: WatchChannel)
    requires
        channel_live(ch, rs, c),
        d.file_id@ != c.file_id@,
        d.resource_id@ != c.resource_id@,
    ensures
        channel_live(put_channel(ch, d), put_resource(rs, d.resource_id, d.file_id), c),
{
    lemma_chan_pos(ch, c.file_id@);
    lemma_chan_pos(ch, d.file_id@);
    let p = chan_pos(ch, c.file_id@);
    let v = put_channel(ch, d);
    assert forall|j: int| 0 <= j < p implies (#[trigger] v[j]).file_id@ != c.file_id@ by {
        if j < ch.len() && v[j] != ch[j] {
            assert(v[j] == d);
        }
    }
    assert(v[p] == ch[p]);
    lemma_chan_pos_is(v, c.file_id@, p);
    lemma_res_pos(rs, c.resource_id@);
    lemma_res_pos(rs, d.resource_id@);
    let q = res_pos(rs, c.resource_id@);
    let w = put_resource(rs, d.resource_id, d.file_id);
    assert forall|j: int| 0 <= j < q implies (#[trigger] w[j]).0@ != c.resource_id@ by {
        if j < rs.len() && w[j] != rs[j] {
            assert(w[j] == (d.resource_id, d.file_id));
        }
    }
    assert(w[q] == rs[q]);
    lemma_res_pos_is(w, c.resource_id@, q);
}

/// Forgetting another file, whose channel watched another resource, leaves
/// a live channel live.
pub proof fn lemma_forget_keeps_live(ch: Seq<WatchChannel>, rs: Seq<(String, String)>, c: WatchChannel, f: Seq<char>)
    requires
        channel_live(ch, rs, c),
        f != c.file_id@,
        chan_pos(ch, f) < ch.len() ==> ch[chan_pos(ch, f)].resource_id@ != c.resource_id@,
    ensures
        chan_pos(ch, f) >= ch.len() ==> channel_live(ch, rs, c),
        chan_pos(ch, f) < ch.len() ==> ({
            let k = chan_pos(ch, f);
            let j = res_pos(rs, ch[k].resource_id@);
            channel_live(ch.remove(k), if j < rs.len() { rs.remove(j) } else { rs }, c)
        }),
{
    lemma_chan_pos(ch, c.file_id@);
    lemma_chan_pos(ch, f);
    let k = chan_pos(ch, f);
    if k < ch.len() {
        let p = chan_pos(ch, c.file_id@);
        assert(p != k);
        let v = ch.remove(k);
        let p2 = if p < k { p } else { p - 1 };
        assert forall|j: int| 0 <= j < p2 implies (#[trigger] v[j]).file_id@ != c.file_id@ by {
            if j < k {
                assert(v[j] == ch[j]);
            } else {
                assert(v[j] == ch[j + 1]);
            }
        }
        assert(v[p2] == ch[p]);
        lemma_chan_pos_is(v, c.file_id@, p2);
        let r = ch[k].resource_id@;
        lemma_res_pos(rs, r);
        lemma_res_pos(rs, c.resource_id@);
        let j = res_pos(rs, r);
        let q = res_pos(rs, c.resource_id@);
        if j < rs.len() {
            assert(q != j);
            let w = rs.remove(j);
            let q2 = if q < j { q } else { q - 1 };
            assert forall|i: int| 0 <= i < q2 implies (#[trigger] w[i]).0@ != c.resource_id@ by {
                if i < j {
                    assert(w[i] == rs[i]);
                } else {
                    assert(w[i] == rs[i + 1]);
                }
            }
            assert(w[q2] == rs[q]);
            lemma_res_pos_is(w, c.resource_id@, q2);
        }
    }
}

/// A call on the registry: watching with a new channel, or stopping the
/// watch of a file.
pub enum WatchOp {
    Watch(WatchChannel),
    Stop(Seq<char>),
}

/// The registry after forgetting the channel of `f` and its resource entry.
pub open spec fn forget_spec(ch: Seq<WatchChannel>, rs: Seq<(String, String)>, f: Seq<char>) -> (
    Seq<WatchChannel>,
    Seq<(String, String)>,
) {
    let k = chan_pos(ch, f);
    if k < ch.len() {
        let j = res_pos(rs, ch[k].resource_id@);
        (ch.remove(k), if j < rs.len() { rs.remove(j) } else { rs })
    } else {
        (ch, rs)
    }
}

/// The registry after a sequence of calls (`record_watch` for `Watch`,
/// `forget` for `Stop`).
pub open spec fn run_ops(ch: Seq<WatchChannel>, rs: Seq<(String, String)>, ops: Seq<WatchOp>) -> (
    Seq<WatchChannel>,
    Seq<(String, String)>,
)
    decreases ops.len(),
{
    if ops.len() == 0 {
        (ch, rs)
    } else {
        let prev = run_ops(ch, rs, ops.drop_last());
        match ops.last() {
            WatchOp::Watch(d) => (put_channel(prev.0, d), put_resource(prev.1, d.resource_id, d.file_id)),
            WatchOp::Stop(f) => forget_spec(prev.0, prev.1, f),
        }
    }
}

/// No channel of another file watches the resource of `c`.
pub open spec fn resource_unshared(ch: Seq<WatchChannel>, c: WatchChannel) -> bool {
    forall|j: int| 0 <= j < ch.len() && (#[trigger] ch[j]).file_id@ != c.file_id@ ==> ch[j].resource_id@ != c.resource_id@
}

/// The later calls leave `c` alone: they watch other files on other
/// resources, and stop other files.
pub open spec fn ops_spare(ops: Seq<WatchOp>, c: WatchChannel) -> bool {
    forall|i: int| 0 <= i < ops.len() ==> match #[trigger] ops[i] {
        WatchOp::Watch(d) => d.file_id@ != c.file_id@ && d.resource_id@ != c.resource_id@,
        WatchOp::Stop(f) => f != c.file_id@,
    }
}

proof fn lemma_ops_keep_live(ch: Seq<WatchChannel>, rs: Seq<(String, String)>, c: WatchChannel, ops: Seq<WatchOp>)
    requires
        channel_live(ch, rs, c),
        resource_unshared(ch, c),
        ops_spare(ops, c),
    ensures
        channel_live(run_ops(ch, rs, ops).0, run_ops(ch, rs, ops).1, c),
        resource_unshared(run_ops(ch, rs, ops).0, c),
    decreases ops.len(),
{
    if ops.len() > 0 {
        assert(ops_spare(ops.drop_last(), c)) by {
            assert forall|i: int| 0 <= i < ops.drop_last().len() implies match #[trigger] ops.drop_last()[i] {
                WatchOp::Watch(d) => d.file_id@ != c.file_id@ && d.resource_id@ != c.resource_id@,
                WatchOp::Stop(f) => f != c.file_id@,
            } by {
                assert(ops.drop_last()[i] == ops[i]);
            }
        }
        lemma_ops_keep_live(ch, rs, c, ops.drop_last());
        let prev = run_ops(ch, rs, ops.drop_last());
        assert(ops.last() == ops[ops.len() - 1]);
        match ops.last() {
            WatchOp::Watch(d) => {
                lemma_record_keeps_live(prev.0, prev.1, c, d);
                lemma_chan_pos(prev.0, d.file_id@);
                let v = put_channel(prev.0, d);
                let kd = chan_pos(prev.0, d.file_id@);
                assert forall|j: int| 0 <= j < v.len() && (#[trigger] v[j]).file_id@ != c.file_id@ implies v[j].resource_id@
                    != c.resource_id@ by {
                    if kd < prev.0.len() {
                        assert(v == prev.0.update(kd, d));
                        if j != kd {
                            assert(v[j] == prev.0[j]);
                        }
                    } else {
                        assert(v == prev.0.push(d));
                        if j < prev.0.len() {
                            assert(v[j] == prev.0[j]);
                        }
                    }
                }
            },
            WatchOp::Stop(f) => {
                lemma_chan_pos(prev.0, f);
                lemma_forget_keeps_live(prev.0, prev.1, c, f);
                let k = chan_pos(prev.0, f);
                if k < prev.0.len() {
                    let v = prev.0.remove(k);
                    assert forall|j: int| 0 <= j < v.len() && (#[trigger] v[j]).file_id@ != c.file_id@ implies v[j].resource_id@
                        != c.resource_id@ by {
                        if j < k {
                            assert(v[j] == prev.0[j]);
                        } else {
                            assert(v[j] == prev.0[j + 1]);
                        }
                    }
                }
            },
        }
    }
}

/// A watched channel keeps answering for its file: after `c` is recorded on
/// a registry where no other file's channel watches its resource, and then
/// any calls that watch other files on other resources or stop other files,
/// `c` is still its file's channel and its resource maps to its file, so
/// `handle_notification` answers that file for every notification on the
/// resource that is not a `sync`.
pub proof fn lemma_watched_channel_answers(ch: Seq<WatchChannel>, rs: Seq<(String, String)>, c: WatchChannel, ops: Seq<WatchOp>)
    requires
        forall|i: int, j: int| 0 <= i < j < ch.len() ==> (#[trigger] ch[i]).file_id@ != (#[trigger] ch[j]).file_id@,
        forall|i: int, j: int| 0 <= i < j < rs.len() ==> (#[trigger] rs[i]).0@ != (#[trigger] rs[j]).0@,
        resource_unshared(ch, c),
        ops_spare(ops, c),
    ensures
        ({
            let after = run_ops(put_channel(ch, c), put_resource(rs, c.resource_id, c.file_id), ops);
            channel_live(after.0, after.1, c)
        }),
{
    lemma_recorded_channel_live(ch, rs, c);
    let v = put_channel(ch, c);
    lemma_chan_pos(ch, c.file_id@);
    assert forall|j: int| 0 <= j < v.len() && (#[trigger] v[j]).file_id@ != c.file_id@ implies v[j].resource_id@
        != c.resource_id@ by {
        if j < ch.len() && v[j] != ch[j] {
            assert(v[j] == c);
        } else if j >= ch.len() {
            assert(v[j] == c);
        }
    }
    lemma_ops_keep_live(v, put_resource(rs, c.resource_id, c.file_id), c, ops);
}

/// A stopped channel answers no more: once the file of a live channel is
/// forgotten, neither the file has a channel nor its resource an entry.
pub proof fn lemma_stopped_channel_unanswered(ch: Seq<WatchChannel>, rs: Seq<(String, String)>, c: WatchChannel)
    requires
        forall|i: int, j: int| 0 <= i < j < ch.len() ==> (#[trigger] ch[i]).file_id@ != (#[trigger] ch[j]).file_id@,
        forall|i: int, j: int| 0 <= i < j < rs.len() ==> (#[trigger] rs[i]).0@ != (#[trigger] rs[j]).0@,
        channel_live(ch, rs, c),
    ensures
        ({
            let after = forget_spec(ch, rs, c.file_id@);
            &&& chan_pos(after.0, c.file_id@) >= after.0.len()
            &&& res_pos(after.1, c.resource_id@) >= after.1.len()
        }),
{
    lemma_forgotten_channel_gone(ch, c.file_id@);
    let k = chan_pos(ch, c.file_id@);
    lemma_res_pos(rs, c.resource_id@);
    let j = res_pos(rs, c.resource_id@);
    let w = rs.remove(j);
    assert forall|i: int| 0 <= i < w.len() implies (#[trigger] w[i]).0@ != c.resource_id@ by {
        if i < j {
            assert(w[i] == rs[i]);
        } else {
            assert(w[i] == rs[i + 1]);
            assert(rs[j].0@ != rs[i + 1].0@);
        }
    }
    lemma_res_pos_is(w, c.resource_id@, w.len() as int);
}

} // verus!
