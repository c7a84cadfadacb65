//! Memo storage in a blob container: where each memo lives, how the storage
//! account's connection string is read, and how the outcome of each storage
//! call is interpreted. The calls themselves go to the storage service.

use vstd::prelude::*;
use crate::gtm::ids::{hex_fixed, uuid_text};
use crate::text::{contains, ends_with, split_parts, starts_with, strip_end, strs};

verus! {

/// Failure of the memo store.
#[derive(Debug, Clone)]
pub enum BlobStoreError {
    MissingConnectionString,
    MissingContainer,
    InvalidConnectionString(String),
    Azure(String),
}

impl BlobStoreError {
    /// The text of the error.
    pub fn message(&self) -> (r: String)
        ensures
            r@ == match self {
                BlobStoreError::MissingConnectionString => "missing AZURE_STORAGE_CONNECTION_STRING"@,
                BlobStoreError::MissingContainer => "missing AZURE_STORAGE_CONTAINER"@,
                BlobStoreError::InvalidConnectionString(m) => "invalid connection string: "@ + m@,
                BlobStoreError::Azure(m) => "azure error: "@ + m@,
            },
    {
        match self {
            BlobStoreError::MissingConnectionString => crate::text::owned("missing AZURE_STORAGE_CONNECTION_STRING"),
            BlobStoreError::MissingContainer => crate::text::owned("missing AZURE_STORAGE_CONTAINER"),
            BlobStoreError::InvalidConnectionString(m) => crate::text::concat2("invalid connection string: ", m.as_str()),
            BlobStoreError::Azure(m) => crate::text::concat2("azure error: ", m.as_str()),
        }
    }
}

/// The last of `parts` that starts with `prefix`, without the prefix.
pub open spec fn last_with_prefix(parts: Seq<Seq<char>>, prefix: Seq<char>) -> Option<Seq<char>>
    decreases parts.len(),
{
    if parts.len() == 0 {
        None
    } else if starts_with(parts.last(), prefix) {
        Some(parts.last().skip(prefix.len() as int))
    } else {
        last_with_prefix(parts.drop_last(), prefix)
    }
}

/// The account name and key of a connection string: the `;`-separated
/// parts `AccountName=...` and `AccountKey=...` (the last of each).
pub open spec fn connection_parts(s: Seq<char>) -> Option<(Seq<char>, Seq<char>)> {
    let parts = split_parts(s, ';');
    match (last_with_prefix(parts, "AccountName="@), last_with_prefix(parts, "AccountKey="@)) {
        (Some(name), Some(key)) => Some((name, key)),
        _ => None,
    }
}

/// The value after `prefix` in the last part of `parts` that has it.
fn last_value(parts: &Vec<String>, prefix: &str) -> (r: Option<String>)
    ensures
        match r {
            Some(v) => last_with_prefix(strs(parts@), prefix@) == Some(v@),
            None => last_with_prefix(strs(parts@), prefix@) is None,
        },
{
    let p = crate::text::to_chars(prefix);
    let mut found: Option<String> = None;
    let mut i: usize = 0;
    proof {
        assert(strs(parts@).take(0) =~= Seq::<Seq<char>>::empty());
    }
    while i < parts.len()
        invariant
            i <= parts@.len(),
            p@ == prefix@,
            match found {
                Some(v) => last_with_prefix(strs(parts@).take(i as int), prefix@) == Some(v@),
                None => last_with_prefix(strs(parts@).take(i as int), prefix@) is None,
            },
        decreases parts@.len() - i,
    {
        let c = crate::text::to_chars(parts[i].as_str());
        proof {
            assert(strs(parts@).take(i + 1).drop_last() =~= strs(parts@).take(i as int));
            assert(strs(parts@).take(i + 1).last() == parts@[i as int]@);
        }
        if crate::text::starts_with_chars(c.as_slice(), p.as_slice()) {
            let rest = crate::text::slice_range(c.as_slice(), p.len(), c.len());
            proof {
                assert(rest@ =~= parts@[i as int]@.skip(prefix@.len() as int));
            }
            found = Some(crate::text::from_chars(rest.as_slice()));
        }
        i = i + 1;
    }
    proof {
        assert(strs(parts@).take(parts@.len() as int) =~= strs(parts@));
    }
    found
}

/// The account name and key of a storage connection string.
pub fn parse_connection_string(connection_string: &str) -> (r: Result<(String, String), BlobStoreError>)
    ensures
        match connection_parts(connection_string@) {
            Some((name, key)) => r matches Ok((n, k)) && n@ == name && k@ == key,
            None => r matches Err(BlobStoreError::InvalidConnectionString(m))
                && m@ == "missing AccountName or AccountKey"@,
        },
{
    let parts = crate::text::split_on(connection_string, ';');
    let name = last_value(&parts, "AccountName=");
    let key = last_value(&parts, "AccountKey=");
    match (name, key) {
        (Some(n), Some(k)) => Ok((n, k)),
        _ => Err(BlobStoreError::InvalidConnectionString(crate::text::owned("missing AccountName or AccountKey"))),
    }
}

/// Where an account's memo lives.
pub open spec fn memo_path_of(account_id: u128) -> Seq<char> {
    "accounts/"@ + uuid_text(account_id) + "/memo/memo.md"@
}

/// Where an account's memo lived before accounts were unified.
pub open spec fn legacy_memo_path_of(account_id: u128) -> Seq<char> {
    uuid_text(account_id) + "/memo.md"@
}

pub fn memo_blob_path(account_id: u128) -> (r: String)
    ensures
        r@ == memo_path_of(account_id),
{
    let id = crate::gtm::ids::uuid_hyphenated(account_id);
    crate::text::concat3("accounts/", id.as_str(), "/memo/memo.md")
}

pub fn legacy_memo_blob_path(account_id: u128) -> (r: String)
    ensures
        r@ == legacy_memo_path_of(account_id),
{
    let id = crate::gtm::ids::uuid_hyphenated(account_id);
    crate::text::concat2(id.as_str(), "/memo.md")
}

/// Where a user's memo lives (users without a unified account).
pub fn user_memo_blob_path(user_id: &str) -> (r: String)
    ensures
        r@ == "users/"@ + user_id@ + "/memo/memo.md"@,
{
    crate::text::concat3("users/", user_id, "/memo/memo.md")
}

/// Where a file of an uploaded directory goes: the prefix without its
/// trailing `/`s, a `/`, and the file's path relative to the directory.
pub fn upload_blob_path(blob_prefix: &str, relative: &str) -> (r: String)
    ensures
        r@ == strip_end(blob_prefix@, '/') + "/"@ + relative@,
{
    let p = crate::text::to_chars(blob_prefix);
    let t = crate::text::strip_end_chars(p.as_slice(), '/');
    let t = crate::text::from_chars(t.as_slice());
    crate::text::concat3(t.as_str(), "/", relative)
}

/// The storage service's error text says the blob does not exist.
pub open spec fn not_found_text(e: Seq<char>) -> bool {
    contains(e, "BlobNotFound"@) || contains(e, "404"@)
}

pub fn is_not_found(error: &str) -> (r: bool)
    ensures
        r == not_found_text(error@),
{
    crate::text::str_contains(error, "BlobNotFound") || crate::text::str_contains(error, "404")
}

/// The error is the storage service's "no such blob".
pub open spec fn missing_blob(e: BlobStoreError) -> bool {
    e matches BlobStoreError::Azure(m) && not_found_text(m@)
}

/// What a memo read comes to after one storage read.
#[derive(Debug, Clone)]
pub enum MemoRead {
    /// The memo's text.
    Found(String),
    /// Nothing at the current path: read the pre-unification path.
    TryLegacy,
    /// No memo anywhere: the default memo applies.
    UseDefault,
    Failed(BlobStoreError),
}

/// The outcome of reading an account's memo at its current path: the text,
/// or on "no such blob" a read of the legacy path; any other error fails.
pub fn after_memo_read(outcome: Result<String, BlobStoreError>) -> (r: MemoRead)
    ensures
        match outcome {
            Ok(c) => r matches MemoRead::Found(t) && t@ == c@,
            Err(e) => if missing_blob(e) { r is TryLegacy } else { r matches MemoRead::Failed(f) && f == e },
        },
{
    match outcome {
        Ok(c) => MemoRead::Found(c),
        Err(e) => if blob_missing(&e) { MemoRead::TryLegacy } else { MemoRead::Failed(e) },
    }
}

/// The outcome of the last read of a memo (the legacy path of an account,
/// or a user's memo): the text, or on "no such blob" the default memo; any
/// other error fails.
pub fn after_last_memo_read(outcome: Result<String, BlobStoreError>) -> (r: MemoRead)
    ensures
        match outcome {
            Ok(c) => r matches MemoRead::Found(t) && t@ == c@,
            Err(e) => if missing_blob(e) { r is UseDefault } else { r matches MemoRead::Failed(f) && f == e },
        },
{
    match outcome {
        Ok(c) => MemoRead::Found(c),
        Err(e) => if blob_missing(&e) { MemoRead::UseDefault } else { MemoRead::Failed(e) },
    }
}

fn blob_missing(e: &BlobStoreError) -> (r: bool)
    ensures
        r == missing_blob(*e),
{
    match e {
        BlobStoreError::Azure(m) => is_not_found(m.as_str()),
        _ => false,
    }
}

/// Deleting a memo succeeds when the storage service reports the blob
/// already gone.
pub fn after_memo_delete(outcome: Result<(), BlobStoreError>) -> (r: Result<(), BlobStoreError>)
    ensures
        match outcome {
            Ok(()) => r is Ok,
            Err(e) => if missing_blob(e) { r is Ok } else { r matches Err(f) && f == e },
        },
{
    match outcome {
        Ok(()) => Ok(()),
        Err(e) => if blob_missing(&e) { Ok(()) } else { Err(e) },
    }
}

/// A memo exists when its properties can be read, and not when the storage
/// service reports no such blob.
pub fn after_memo_properties(outcome: Result<(), BlobStoreError>) -> (r: Result<bool, BlobStoreError>)
    ensures
        match outcome {
            Ok(()) => r == Ok::<bool, BlobStoreError>(true),
            Err(e) => if missing_blob(e) { r == Ok::<bool, BlobStoreError>(false) } else { r matches Err(f) && f == e },
        },
{
    match outcome {
        Ok(()) => Ok(true),
        Err(e) => if blob_missing(&e) { Ok(false) } else { Err(e) },
    }
}

/// What `uuid::Uuid::parse_str` gives on a text, as the UUID's 128-bit value.
pub uninterp spec fn uuid_parsed(s: Seq<char>) -> Option<u128>;

/// `uuid::Uuid::parse_str(s)`, as the UUID's value; `None` where it fails.
/// The parser reads the hyphenated form that `Uuid`'s `Display` writes, so
/// that text of a UUID parses back to it; nothing else of the parser is
/// stated beyond the name.
#[verifier::external_body]
fn parse_uuid(s: &str) -> (r: Option<u128>)
    ensures
        r == uuid_parsed(s@),
        forall|v: u128| #[trigger] uuid_text(v) == s@ ==> r == Some(v),
{
    match uuid::Uuid::parse_str(s) {
        Ok(u) => Some(u.as_u128()),
        Err(_) => None,
    }
}

/// The account whose memo a blob name denotes: the first path segment
/// after `accounts/`, or for a legacy name, all before `/memo.md`; in each
/// case only where it parses as a UUID.
pub open spec fn memo_account_of(name: Seq<char>) -> Option<u128> {
    if starts_with(name, "accounts/"@) {
        uuid_parsed(split_parts(name.skip(9), '/')[0])
    } else if ends_with(name, "/memo.md"@) {
        uuid_parsed(name.take(name.len() - 8))
    } else {
        None
    }
}

/// The hexadecimal digits of a value hold no `/`.
proof fn lemma_hex_fixed_no_slash(v: nat, n: nat)
    ensures
        hex_fixed(v, n).len() == n,
        forall|i: int| 0 <= i < n ==> hex_fixed(v, n)[i] != '/',
    decreases n,
{
    if n > 0 {
        lemma_hex_fixed_no_slash(v / 16, (n - 1) as nat);
        let k = (v % 16) as int;
        assert(crate::digest::hex_digit(k) != '/');
    }
}

/// The hyphenated text of a UUID: 36 characters, a `-` at position 8,
/// and no `/`.
proof fn lemma_uuid_text_shape(v: u128)
    ensures
        uuid_text(v).len() == 36,
        uuid_text(v)[8] == '-',
        forall|i: int| 0 <= i < 36 ==> uuid_text(v)[i] != '/',
{
    reveal_strlit("-");
    lemma_hex_fixed_no_slash(v as nat, 32);
    let d = hex_fixed(v as nat, 32);
    let t = uuid_text(v);
    assert forall|i: int| 0 <= i < 36 implies t[i] != '/' by {
        if i < 8 {
            assert(t[i] == d[i]);
        } else if i == 8 || i == 13 || i == 18 || i == 23 {
            assert(t[i] == '-');
        } else if i < 13 {
            assert(t[i] == d[i - 1]);
        } else if i < 18 {
            assert(t[i] == d[i - 2]);
        } else if i < 23 {
            assert(t[i] == d[i - 3]);
        } else {
            assert(t[i] == d[i - 4]);
        }
    }
}

/// Text without `sep` is a single part.
proof fn lemma_split_parts_whole(a: Seq<char>, sep: char)
    requires
        forall|i: int| 0 <= i < a.len() ==> a[i] != sep,
    ensures
        split_parts(a, sep) == seq![a],
    decreases a.len(),
{
    if a.len() > 0 {
        lemma_split_parts_whole(a.drop_last(), sep);
        assert(a.drop_last().push(a.last()) =~= a);
        assert(split_parts(a, sep) =~= seq![a]);
    } else {
        assert(a =~= Seq::<char>::empty());
    }
}

/// The first part of `a`, `sep`, `b` is `a` when `a` holds no `sep`.
proof fn lemma_split_parts_first(a: Seq<char>, b: Seq<char>, sep: char)
    requires
        forall|i: int| 0 <= i < a.len() ==> a[i] != sep,
    ensures
        split_parts(a + seq![sep] + b, sep).len() >= 2,
        split_parts(a + seq![sep] + b, sep)[0] == a,
    decreases b.len(),
{
    let s = a + seq![sep] + b;
    if b.len() == 0 {
        lemma_split_parts_whole(a, sep);
        assert(s.drop_last() =~= a);
    } else {
        lemma_split_parts_first(a, b.drop_last(), sep);
        assert(s.drop_last() =~= a + seq![sep] + b.drop_last());
    }
}

pub fn memo_account_of_blob(name: &str) -> (r: Option<u128>)
    ensures
        r == memo_account_of(name@),
        forall|v: u128| name@ == #[trigger] memo_path_of(v) ==> r == Some(v),
        forall|v: u128| name@ == #[trigger] legacy_memo_path_of(v) ==> r == Some(v),
{
    let c = crate::text::to_chars(name);
    let pre = crate::text::to_chars("accounts/");
    let suf = crate::text::to_chars("/memo.md");
    proof {
        reveal_strlit("accounts/");
        reveal_strlit("/memo.md");
    }
    if crate::text::starts_with_chars(c.as_slice(), pre.as_slice()) {
        let rest = crate::text::slice_range(c.as_slice(), 9, c.len());
        let rest = crate::text::from_chars(rest.as_slice());
        let segs = crate::text::split_on(rest.as_str(), '/');
        proof {
            crate::text::lemma_split_parts_nonempty(rest@, '/');
            assert(rest@ =~= name@.skip(9));
            reveal_strlit("/memo/memo.md");
            reveal_strlit("memo/memo.md");
            assert forall|v: u128| name@ == #[trigger] memo_path_of(v) implies segs@[0]@ == uuid_text(v) by {
                lemma_uuid_text_shape(v);
                assert(rest@ =~= uuid_text(v) + seq!['/'] + "memo/memo.md"@);
                lemma_split_parts_first(uuid_text(v), "memo/memo.md"@, '/');
            }
            assert forall|v: u128| name@ != #[trigger] legacy_memo_path_of(v) by {
                lemma_uuid_text_shape(v);
                if name@ == legacy_memo_path_of(v) {
                    assert(name@[8] == uuid_text(v)[8]);
                    assert(name@.subrange(0, 9)[8] == "accounts/"@[8]);
                }
            }
        }
        parse_uuid(segs[0].as_str())
    } else if crate::text::ends_with_chars(c.as_slice(), suf.as_slice()) {
        let head = crate::text::slice_range(c.as_slice(), 0, c.len() - 8);
        let head = crate::text::from_chars(head.as_slice());
        proof {
            assert(head@ =~= name@.take(name@.len() - 8));
            assert forall|v: u128| name@ == #[trigger] legacy_memo_path_of(v) implies head@ == uuid_text(v) by {
                lemma_uuid_text_shape(v);
                assert(head@ =~= uuid_text(v));
            }
            assert forall|v: u128| name@ != #[trigger] memo_path_of(v) by {
                if name@ == memo_path_of(v) {
                    assert(name@.subrange(0, 9) =~= "accounts/"@);
                }
            }
        }
        parse_uuid(head.as_str())
    } else {
        proof {
            assert forall|v: u128| name@ != #[trigger] memo_path_of(v) by {
                if name@ == memo_path_of(v) {
                    assert(name@.subrange(0, 9) =~= "accounts/"@);
                }
            }
            assert forall|v: u128| name@ != #[trigger] legacy_memo_path_of(v) by {
                lemma_uuid_text_shape(v);
                if name@ == legacy_memo_path_of(v) {
                    assert(name@.subrange(name@.len() - 8, name@.len() as int) =~= "/memo.md"@);
                }
            }
        }
        None
    }
}

} // verus!
