//! Recognising the GitHub user behind a GitHub notification email.

use vstd::prelude::*;
use crate::text::{trim, lower_seq, eq_ic, is_ws, opt_str};

verus! {

/// Whether `regex::Regex::new(pattern)` compiles and then matches somewhere in
/// `text` (`Some(true)`), matches nowhere (`Some(false)`), or the pattern does
/// not compile (`None`).
pub uninterp spec fn regex_search(pattern: Seq<char>, text: Seq<char>) -> Option<bool>;

/// The first capture group of the leftmost match of `pattern` in `text`
/// (`Some(None)` when there is no match or the group took no part), or `None`
/// when the pattern does not compile.
pub uninterp spec fn regex_first_group(pattern: Seq<char>, text: Seq<char>) -> Option<Option<Seq<char>>>;

/// `regex::Regex::new(pattern)` then `is_match(text)`.
#[verifier::external_body]
fn regex_is_match(pattern: &str, text: &str) -> (r: Option<bool>)
    ensures
        r == regex_search(pattern@, text@),
{
    match regex::Regex::new(pattern) {
        Ok(re) => Some(re.is_match(text)),
        Err(_) => None,
    }
}

/// `regex::Regex::new(pattern)` then `captures(text)` and its group 1.
#[verifier::external_body]
fn regex_capture(pattern: &str, text: &str) -> (r: Option<Option<String>>)
    ensures
        match r {
            None => regex_first_group(pattern@, text@) is None,
            Some(None) => regex_first_group(pattern@, text@) == Some(None::<Seq<char>>),
            Some(Some(g)) => regex_first_group(pattern@, text@) == Some(Some(g@)),
        },
{
    match regex::Regex::new(pattern) {
        Ok(re) => match re.captures(text) {
            Some(caps) => match caps.get(1) {
                Some(m) => Some(Some(m.as_str().to_string())),
                None => Some(None),
            },
            None => Some(None),
        },
        Err(_) => None,
    }
}

/// Shape of a GitHub login: a letter or digit, up to 38 letters, digits or
/// hyphens, and an optional `[bot]` suffix.
pub const GITHUB_LOGIN_PATTERN: &'static str = r"^[A-Za-z0-9](?:[A-Za-z0-9-]{0,38})(?:\[bot\])?$";

/// A plain-text activity line naming the actor at the start of a line.
pub const GITHUB_ACTIVITY_LINE_PATTERN: &'static str = r"(?im)^\s*([A-Za-z0-9](?:[A-Za-z0-9-]{0,38})(?:\[bot\])?)\s+(?:left a comment|created an issue|opened a pull request|opened an issue|closed an issue|reopened an issue|reviewed|requested a review)\b";

/// An HTML activity line naming the actor in `<strong>`.
pub const GITHUB_ACTIVITY_HTML_PATTERN: &'static str = r#"(?i)<strong>\s*([A-Za-z0-9](?:[A-Za-z0-9-]{0,38})(?:\[bot\])?)\s*</strong>\s*(?:left a comment|created an issue|opened a pull request|opened an issue)\b"#;

/// Quote-like characters stripped around a login.
pub open spec fn is_quote(c: char) -> bool {
    c == '"' || c == '\'' || c == '<' || c == '>' || c == '`'
}

/// The sequence without leading and trailing quote-like characters.
pub open spec fn strip_quotes(s: Seq<char>) -> Seq<char> {
    strip_quotes_end(strip_quotes_start(s))
}

pub open spec fn strip_quotes_start(s: Seq<char>) -> Seq<char>
    decreases s.len(),
{
    if s.len() > 0 && is_quote(s[0]) {
        strip_quotes_start(s.drop_first())
    } else {
        s
    }
}

pub open spec fn strip_quotes_end(s: Seq<char>) -> Seq<char>
    decreases s.len(),
{
    if s.len() > 0 && is_quote(s.last()) {
        strip_quotes_end(s.drop_last())
    } else {
        s
    }
}

/// The login a raw value denotes: trimmed, unquoted, non-empty, of login
/// shape, lower-cased.
pub open spec fn login_of(raw: Seq<char>) -> Option<Seq<char>> {
    let t = strip_quotes(trim(raw));
    if t.len() == 0 {
        None
    } else if regex_search(GITHUB_LOGIN_PATTERN@, t) != Some(true) {
        None
    } else {
        Some(lower_seq(t))
    }
}

fn strip_quote_chars(v: &[char]) -> (r: Vec<char>)
    ensures
        r@ == strip_quotes(v@),
{
    let mut i: usize = 0;
    proof {
        assert(v@.subrange(0, v@.len() as int) =~= v@);
    }
    while i < v.len() && (v[i] == '"' || v[i] == '\'' || v[i] == '<' || v[i] == '>' || v[i] == '`')
        invariant
            i <= v@.len(),
            strip_quotes_start(v@) == strip_quotes_start(v@.subrange(i as int, v@.len() as int)),
        decreases v@.len() - i,
    {
        proof {
            assert(v@.subrange(i as int, v@.len() as int).drop_first() =~= v@.subrange(i + 1, v@.len() as int));
        }
        i = i + 1;
    }
    let ghost rest = v@.subrange(i as int, v@.len() as int);
    proof {
        if rest.len() > 0 {
            assert(rest[0] == v@[i as int]);
        }
        assert(strip_quotes_start(rest) == rest);
    }
    let mut j: usize = v.len();
    while j > i && (v[j - 1] == '"' || v[j - 1] == '\'' || v[j - 1] == '<' || v[j - 1] == '>' || v[j - 1] == '`')
        invariant
            i <= j <= v@.len(),
            strip_quotes_end(rest) == strip_quotes_end(v@.subrange(i as int, j as int)),
            rest == v@.subrange(i as int, v@.len() as int),
        decreases j,
    {
        proof {
            assert(v@.subrange(i as int, j as int).drop_last() =~= v@.subrange(i as int, j - 1));
        }
        j = j - 1;
    }
    proof {
        let t = v@.subrange(i as int, j as int);
        if t.len() > 0 {
            assert(t.last() == v@[j - 1]);
        }
        assert(strip_quotes_end(t) == t);
    }
    crate::text::slice_range(v, i, j)
}

/// The login in a raw header or text value, lower-cased, when it has the
/// shape of a GitHub login.
pub fn normalize_github_login(raw: &str) -> (r: Option<String>)
    ensures
        crate::text::opt_str(r) == login_of(raw@),
{
    let v = crate::text::to_chars(raw);
    let t = crate::text::trim_chars(v.as_slice());
    let u = strip_quote_chars(t.as_slice());
    if u.len() == 0 {
        return None;
    }
    let candidate = crate::text::from_chars(u.as_slice());
    match regex_is_match(GITHUB_LOGIN_PATTERN, candidate.as_str()) {
        Some(true) => Some(crate::text::lower_str(candidate.as_str())),
        _ => None,
    }
}

/// The first `X-GitHub-Sender` header (name compared without case) whose
/// value is a login.
pub open spec fn header_login(headers: Seq<(Seq<char>, Seq<char>)>) -> Option<Seq<char>>
    decreases headers.len(),
{
    if headers.len() == 0 {
        None
    } else if eq_ic(headers[0].0, "X-GitHub-Sender"@) && login_of(headers[0].1) is Some {
        login_of(headers[0].1)
    } else {
        header_login(headers.drop_first())
    }
}

pub open spec fn header_views(headers: Seq<(String, String)>) -> Seq<(Seq<char>, Seq<char>)> {
    headers.map_values(|h: (String, String)| (h.0@, h.1@))
}

/// The sender login carried in the message headers (name/value pairs).
pub fn extract_github_sender_from_headers(headers: &Vec<(String, String)>) -> (r: Option<String>)
    ensures
        crate::text::opt_str(r) == header_login(header_views(headers@)),
{
    let ghost hs = header_views(headers@);
    let mut i: usize = 0;
    proof {
        assert(hs.skip(0) =~= hs);
    }
    while i < headers.len()
        invariant
            i <= headers@.len(),
            hs == header_views(headers@),
            header_login(hs) == header_login(hs.skip(i as int)),
        decreases headers@.len() - i,
    {
        proof {
            assert(hs.skip(i as int)[0] == hs[i as int]);
            assert(hs.skip(i as int).drop_first() =~= hs.skip(i + 1));
        }
        if crate::text::str_eq_ic(headers[i].0.as_str(), "X-GitHub-Sender") {
            if let Some(login) = normalize_github_login(headers[i].1.as_str()) {
                return Some(login);
            }
        }
        i = i + 1;
    }
    proof {
        assert(hs.skip(i as int) =~= Seq::<(Seq<char>, Seq<char>)>::empty());
    }
    None
}

/// The login the first group of `pattern` captures in `text`, if any.
pub open spec fn captured_login(pattern: Seq<char>, text: Seq<char>) -> Option<Seq<char>> {
    match regex_first_group(pattern, text) {
        Some(Some(g)) => login_of(g),
        _ => None,
    }
}

/// The login an email body names: first from a plain-text activity line,
/// then from an HTML one.
pub open spec fn text_login(text: Seq<char>) -> Option<Seq<char>> {
    if trim(text).len() == 0 {
        None
    } else if captured_login(GITHUB_ACTIVITY_LINE_PATTERN@, text) is Some {
        captured_login(GITHUB_ACTIVITY_LINE_PATTERN@, text)
    } else {
        captured_login(GITHUB_ACTIVITY_HTML_PATTERN@, text)
    }
}

fn login_from_capture(pattern: &str, text: &str) -> (r: Option<String>)
    ensures
        crate::text::opt_str(r) == captured_login(pattern@, text@),
{
    match regex_capture(pattern, text) {
        Some(Some(g)) => normalize_github_login(g.as_str()),
        _ => None,
    }
}

/// The sender login named by an activity line in an email body.
pub fn extract_github_sender_from_text(text: &str) -> (r: Option<String>)
    ensures
        crate::text::opt_str(r) == text_login(text@),
{
    if crate::text::is_blank(text) {
        return None;
    }
    if let Some(login) = login_from_capture(GITHUB_ACTIVITY_LINE_PATTERN, text) {
        return Some(login);
    }
    login_from_capture(GITHUB_ACTIVITY_HTML_PATTERN, text)
}

/// The login a body names, when it is present.
pub open spec fn body_login(body: Option<Seq<char>>) -> Option<Seq<char>> {
    match body {
        Some(b) => text_login(b),
        None => None,
    }
}

/// The sender of a GitHub notification: the header first, then the reply
/// text, the text body and the HTML body in that order.
pub open spec fn sender_login(
    headers: Seq<(Seq<char>, Seq<char>)>,
    reply: Option<Seq<char>>,
    text: Option<Seq<char>>,
    html: Option<Seq<char>>,
) -> Option<Seq<char>> {
    if header_login(headers) is Some {
        header_login(headers)
    } else if body_login(reply) is Some {
        body_login(reply)
    } else if body_login(text) is Some {
        body_login(text)
    } else {
        body_login(html)
    }
}

/// The login of the user behind a notification, from its headers and its
/// `StrippedTextReply`, `TextBody` and `HtmlBody` fields.
pub fn extract_github_sender_login(
    headers: &Vec<(String, String)>,
    stripped_text_reply: Option<&str>,
    text_body: Option<&str>,
    html_body: Option<&str>,
) -> (r: Option<String>)
    ensures
        crate::text::opt_str(r) == sender_login(
            header_views(headers@),
            crate::webhook::opt_text(stripped_text_reply),
            crate::webhook::opt_text(text_body),
            crate::webhook::opt_text(html_body),
        ),
{
    if let Some(login) = extract_github_sender_from_headers(headers) {
        return Some(login);
    }
    if let Some(body) = stripped_text_reply {
        if let Some(login) = extract_github_sender_from_text(body) {
            return Some(login);
        }
    }
    if let Some(body) = text_body {
        if let Some(login) = extract_github_sender_from_text(body) {
            return Some(login);
        }
    }
    if let Some(body) = html_body {
        if let Some(login) = extract_github_sender_from_text(body) {
            return Some(login);
        }
    }
    None
}

/// What `serde_json` finds under `key` in the top-level object of `raw`:
/// `None` when `raw` is not JSON or holds no `key` there, `Some(None)` when
/// the value under `key` is not a string, else the string.
pub uninterp spec fn json_text_field(raw: Seq<u8>, key: Seq<char>) -> Option<Option<Seq<char>>>;

/// `serde_json::from_slice::<Value>(raw)`, then `get(key)`, read as a string.
#[verifier::external_body]
pub(crate) fn json_text_at(raw: &[u8], key: &str) -> (r: Option<Option<String>>)
    ensures
        match r {
            None => json_text_field(raw@, key@) is None,
            Some(None) => json_text_field(raw@, key@) == Some(None::<Seq<char>>),
            Some(Some(t)) => json_text_field(raw@, key@) == Some(Some(t@)),
        },
{
    match serde_json::from_slice::<serde_json::Value>(raw) {
        Ok(v) => match v.get(key) {
            Some(serde_json::Value::String(t)) => Some(Some(t.clone())),
            Some(_) => Some(None),
            None => None,
        },
        Err(_) => None,
    }
}

/// What `serde_json` finds in the array under `key` of the top-level object
/// of `raw`: for each element, its strings under `first` and `second` (`None`
/// where absent or not a string). `None` when `raw` is not JSON or the value
/// under `key` is absent or not an array.
pub uninterp spec fn json_string_pairs(raw: Seq<u8>, key: Seq<char>, first: Seq<char>, second: Seq<char>) -> Option<
    Seq<(Option<Seq<char>>, Option<Seq<char>>)>,
>;

pub open spec fn opt_pair_views(v: Seq<(Option<String>, Option<String>)>) -> Seq<(Option<Seq<char>>, Option<Seq<char>>)> {
    v.map_values(|p: (Option<String>, Option<String>)| (opt_str(p.0), opt_str(p.1)))
}

/// `serde_json::from_slice::<Value>(raw)`, then `get(key)` as an array, each
/// element's `get(first)` and `get(second)` read as strings.
#[verifier::external_body]
fn json_pairs_at(raw: &[u8], key: &str, first: &str, second: &str) -> (r: Option<Vec<(Option<String>, Option<String>)>>)
    ensures
        match r {
            Some(v) => json_string_pairs(raw@, key@, first@, second@) == Some(opt_pair_views(v@)),
            None => json_string_pairs(raw@, key@, first@, second@) is None,
        },
{
    let v: serde_json::Value = serde_json::from_slice(raw).ok()?;
    let mut out = Vec::new();
    for h in v.get(key)?.as_array()? {
        let a = match h.get(first) { Some(serde_json::Value::String(t)) => Some(t.clone()), _ => None };
        let b = match h.get(second) { Some(serde_json::Value::String(t)) => Some(t.clone()), _ => None };
        out.push((a, b));
    }
    Some(out)
}

/// The address GitHub sends its notifications from.
pub const GITHUB_NOTIFICATIONS_ADDRESS: &'static str = "notifications@github.com";

/// Characters that separate the addresses and words of a `From` header.
pub open spec fn is_address_separator(c: char) -> bool {
    is_ws(c) || c == ',' || c == ';' || c == '<' || c == '>' || c == '"'
}

/// The pieces of a `From` header between separators.
pub open spec fn address_tokens(s: Seq<char>) -> Seq<Seq<char>>
    decreases s.len(),
{
    if s.len() == 0 {
        seq![Seq::empty()]
    } else {
        let r = address_tokens(s.drop_last());
        if is_address_separator(s.last()) {
            r.push(Seq::empty())
        } else {
            r.update(r.len() - 1, r.last().push(s.last()))
        }
    }
}

proof fn lemma_address_tokens_nonempty(s: Seq<char>)
    ensures
        address_tokens(s).len() > 0,
    decreases s.len(),
{
    if s.len() > 0 {
        lemma_address_tokens_nonempty(s.drop_last());
    }
}

/// A `From` header names GitHub's notification address (compared without
/// ASCII case) among its addresses.
pub open spec fn names_github_notifications(from: Seq<char>) -> bool {
    exists|i: int| 0 <= i < address_tokens(from).len() && eq_ic(#[trigger] address_tokens(from)[i], GITHUB_NOTIFICATIONS_ADDRESS@)
}

pub open spec fn token_views(v: Seq<Vec<char>>) -> Seq<Seq<char>> {
    v.map_values(|t: Vec<char>| t@)
}

pub(crate) fn address_token_list(from: &str) -> (r: Vec<Vec<char>>)
    ensures
        token_views(r@) == address_tokens(from@),
{
    let v = crate::text::to_chars(from);
    let mut parts: Vec<Vec<char>> = Vec::new();
    let mut cur: Vec<char> = Vec::new();
    let mut i: usize = 0;
    proof {
        assert(v@.take(0) =~= Seq::<char>::empty());
        assert(token_views(parts@).push(cur@) =~= address_tokens(v@.take(0)));
    }
    while i < v.len()
        invariant
            i <= v@.len(),
            token_views(parts@).push(cur@) == address_tokens(v@.take(i as int)),
        decreases v@.len() - i,
    {
        proof {
            let t = v@.take(i + 1);
            assert(t.drop_last() =~= v@.take(i as int));
            assert(t.last() == v@[i as int]);
        }
        let c = v[i];
        if crate::text::is_whitespace_char(c) || c == ',' || c == ';' || c == '<' || c == '>' || c == '"' {
            let ghost before = cur@;
            parts.push(cur);
            cur = Vec::new();
            proof {
                assert(token_views(parts@) =~= token_views(parts@).drop_last().push(before));
                assert(token_views(parts@).push(cur@) =~= address_tokens(v@.take(i + 1)));
            }
        } else {
            let ghost before = cur@;
            cur.push(c);
            proof {
                assert(token_views(parts@).push(cur@) =~= token_views(parts@).push(before).update(
                    token_views(parts@).len() as int,
                    before.push(v@[i as int]),
                ));
            }
        }
        i = i + 1;
    }
    proof {
        assert(v@.take(v@.len() as int) =~= v@);
    }
    let ghost before = token_views(parts@);
    parts.push(cur);
    proof {
        assert(token_views(parts@) =~= before.push(parts@[parts@.len() - 1]@));
    }
    parts
}

/// Whether a `From` header names GitHub's notification address.
pub fn is_github_notifications_sender(from: &str) -> (r: bool)
    ensures
        r == names_github_notifications(from@),
{
    let tokens = address_token_list(from);
    let target = crate::text::to_chars(GITHUB_NOTIFICATIONS_ADDRESS);
    let ghost ts = address_tokens(from@);
    let mut i: usize = 0;
    while i < tokens.len()
        invariant
            i <= tokens@.len(),
            token_views(tokens@) == ts,
            ts == address_tokens(from@),
            target@ == GITHUB_NOTIFICATIONS_ADDRESS@,
            forall|k: int| 0 <= k < i ==> !eq_ic(#[trigger] ts[k], GITHUB_NOTIFICATIONS_ADDRESS@),
        decreases tokens@.len() - i,
    {
        proof {
            assert(ts[i as int] == token_views(tokens@)[i as int]);
        }
        if crate::text::chars_eq_ic(tokens[i].as_slice(), target.as_slice()) {
            proof {
                assert(eq_ic(address_tokens(from@)[i as int], GITHUB_NOTIFICATIONS_ADDRESS@));
            }
            return true;
        }
        i = i + 1;
    }
    false
}

/// The `From` header of a payload: the `From` field, or the `from` field
/// where there is no `From`; empty when absent or not a string.
pub open spec fn payload_from(raw: Seq<u8>) -> Seq<char> {
    match json_text_field(raw, "From"@) {
        Some(Some(f)) => f,
        Some(None) => Seq::empty(),
        None => match json_text_field(raw, "from"@) {
            Some(Some(f)) => f,
            _ => Seq::empty(),
        },
    }
}

/// A text field of a payload, when present as a string.
pub open spec fn payload_text(raw: Seq<u8>, key: Seq<char>) -> Option<Seq<char>> {
    match json_text_field(raw, key) {
        Some(Some(t)) => Some(t),
        _ => None,
    }
}

pub open spec fn text_or_empty(o: Option<Seq<char>>) -> Seq<char> {
    match o {
        Some(t) => t,
        None => Seq::empty(),
    }
}

/// The name/value pairs of a payload's `Headers` (a missing name or value
/// reads as empty); none when `Headers` is absent or not an array.
pub open spec fn payload_headers(raw: Seq<u8>) -> Seq<(Seq<char>, Seq<char>)> {
    match json_string_pairs(raw, "Headers"@, "Name"@, "Value"@) {
        Some(ps) => ps.map_values(|p: (Option<Seq<char>>, Option<Seq<char>>)| (text_or_empty(p.0), text_or_empty(p.1))),
        None => Seq::empty(),
    }
}

fn payload_from_text(raw: &[u8]) -> (r: String)
    ensures
        r@ == payload_from(raw@),
{
    match json_text_at(raw, "From") {
        Some(Some(f)) => f,
        Some(None) => String::new(),
        None => match json_text_at(raw, "from") {
            Some(Some(f)) => f,
            _ => String::new(),
        },
    }
}

fn payload_text_at(raw: &[u8], key: &str) -> (r: Option<String>)
    ensures
        opt_str(r) == payload_text(raw@, key@),
{
    match json_text_at(raw, key) {
        Some(Some(t)) => Some(t),
        _ => None,
    }
}

fn payload_header_list(raw: &[u8]) -> (r: Vec<(String, String)>)
    ensures
        header_views(r@) == payload_headers(raw@),
{
    let mut out: Vec<(String, String)> = Vec::new();
    match json_pairs_at(raw, "Headers", "Name", "Value") {
        Some(pairs) => {
            let ghost ps = opt_pair_views(pairs@);
            let mut i: usize = 0;
            while i < pairs.len()
                invariant
                    i <= pairs@.len(),
                    ps == opt_pair_views(pairs@),
                    header_views(out@) == ps.take(i as int).map_values(
                        |p: (Option<Seq<char>>, Option<Seq<char>>)| (text_or_empty(p.0), text_or_empty(p.1)),
                    ),
                decreases pairs@.len() - i,
            {
                let name = match &pairs[i].0 {
                    Some(n) => n.clone(),
                    None => String::new(),
                };
                let value = match &pairs[i].1 {
                    Some(v) => v.clone(),
                    None => String::new(),
                };
                let ghost before = header_views(out@);
                proof {
                    assert(ps[i as int] == (opt_str(pairs@[i as int].0), opt_str(pairs@[i as int].1)));
                    assert(name@ == text_or_empty(ps[i as int].0));
                    assert(value@ == text_or_empty(ps[i as int].1));
                }
                out.push((name, value));
                proof {
                    assert(header_views(out@) =~= before.push((text_or_empty(ps[i as int].0), text_or_empty(ps[i as int].1))));
                    assert(ps.take(i + 1) =~= ps.take(i as int).push(ps[i as int]));
                    assert(header_views(out@) =~= ps.take(i + 1).map_values(
                        |p: (Option<Seq<char>>, Option<Seq<char>>)| (text_or_empty(p.0), text_or_empty(p.1)),
                    ));
                }
                i = i + 1;
            }
            proof {
                assert(ps.take(pairs@.len() as int) =~= ps);
            }
        },
        None => {
            proof {
                assert(header_views(out@) =~= Seq::<(Seq<char>, Seq<char>)>::empty());
            }
        },
    }
    out
}

/// Whether a Postmark payload (raw JSON) comes from GitHub's notification
/// address.
pub fn is_github_notifications_postmark_payload(raw: &[u8]) -> (r: bool)
    ensures
        r == names_github_notifications(payload_from(raw@)),
{
    let from = payload_from_text(raw);
    is_github_notifications_sender(from.as_str())
}

/// The GitHub user behind a Postmark payload (raw JSON): only for mail from
/// GitHub's notification address, from the `X-GitHub-Sender` header, else
/// the `StrippedTextReply`, `TextBody` and `HtmlBody` fields in turn.
pub fn extract_github_sender_login_from_postmark_payload(raw: &[u8]) -> (r: Option<String>)
    ensures
        opt_str(r) == (if names_github_notifications(payload_from(raw@)) {
            sender_login(
                payload_headers(raw@),
                payload_text(raw@, "StrippedTextReply"@),
                payload_text(raw@, "TextBody"@),
                payload_text(raw@, "HtmlBody"@),
            )
        } else {
            None
        }),
{
    if !is_github_notifications_postmark_payload(raw) {
        return None;
    }
    let headers = payload_header_list(raw);
    let reply = payload_text_at(raw, "StrippedTextReply");
    let text = payload_text_at(raw, "TextBody");
    let html = payload_text_at(raw, "HtmlBody");
    let reply_ref: Option<&str> = match &reply {
        Some(t) => Some(t.as_str()),
        None => None,
    };
    let text_ref: Option<&str> = match &text {
        Some(t) => Some(t.as_str()),
        None => None,
    };
    let html_ref: Option<&str> = match &html {
        Some(t) => Some(t.as_str()),
        None => None,
    };
    extract_github_sender_login(&headers, reply_ref, text_ref, html_ref)
}

} // verus!
