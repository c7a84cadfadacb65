//! Authenticity checks for inbound webhooks.
//!
//! Each check takes the configured secret (absent or blank means "not
//! configured") and the header or query values the request carried, and
//! answers `Ok` or the reason it refuses the request.

use vstd::prelude::*;
use crate::digest::{hex_lower, hmac_sha256, hmac_sha1, sha1_digest, base64_standard};
use crate::text::{trim, join, strs, utf8_lossy};
use crate::number::int_text;
use crate::order::sort_seq;
use vstd::utf8::encode_utf8;

verus! {

/// A secret counts as configured when it is present and not blank.
pub open spec fn secret_set(o: Option<&str>) -> bool {
    o matches Some(s) && trim(s@).len() > 0
}

/// The text an optional value holds.
pub open spec fn opt_text(o: Option<&str>) -> Option<Seq<char>> {
    match o {
        Some(s) => Some(s@),
        None => None,
    }
}

fn is_set(o: Option<&str>) -> (b: bool)
    ensures
        b == secret_set(o),
{
    match o {
        Some(s) => !crate::text::is_blank(s),
        None => false,
    }
}

/// Shared-token check used by the Postmark and BlueBubbles endpoints.
pub open spec fn token_check(configured: Option<&str>, header: Option<&str>) -> Result<(), &'static str> {
    if !secret_set(configured) {
        Ok(())
    } else {
        match header {
            None => Err("missing_token"),
            Some(h) => if h@ == configured.unwrap()@ {
                Ok(())
            } else {
                Err("invalid_token")
            },
        }
    }
}

fn check_token(configured: Option<&str>, header: Option<&str>) -> (r: Result<(), &'static str>)
    ensures
        r == token_check(configured, header),
{
    if !is_set(configured) {
        return Ok(());
    }
    let token = configured.unwrap();
    match header {
        None => Err("missing_token"),
        Some(h) => if crate::text::str_eq(h, token) {
            Ok(())
        } else {
            Err("invalid_token")
        },
    }
}

/// Postmark: the `x-postmark-token` header must equal the configured token.
pub fn verify_postmark(configured: Option<&str>, header: Option<&str>) -> (r: Result<(), &'static str>)
    ensures
        r == token_check(configured, header),
{
    check_token(configured, header)
}

/// BlueBubbles: the `x-bluebubbles-token` header must equal the configured token.
pub fn verify_bluebubbles(configured: Option<&str>, header: Option<&str>) -> (r: Result<(), &'static str>)
    ensures
        r == token_check(configured, header),
{
    check_token(configured, header)
}

/// WhatsApp subscription handshake: answers the challenge when the mode is
/// `subscribe` and the token matches.
pub open spec fn whatsapp_answer(
    expected: Option<&str>,
    mode: Option<&str>,
    token: Option<&str>,
    challenge: Option<&str>,
) -> Result<Seq<char>, &'static str> {
    if !secret_set(expected) {
        Err("verify_token_not_configured")
    } else if !(mode matches Some(m) && m@ == "subscribe"@) {
        Err("invalid_mode")
    } else if token is None {
        Err("missing_token")
    } else if token.unwrap()@ != expected.unwrap()@ {
        Err("token_mismatch")
    } else if challenge is None {
        Err("missing_challenge")
    } else {
        Ok(challenge.unwrap()@)
    }
}

pub open spec fn result_text(r: Result<String, &'static str>) -> Result<Seq<char>, &'static str> {
    match r {
        Ok(s) => Ok(s@),
        Err(e) => Err(e),
    }
}

pub fn verify_whatsapp_subscription(
    expected: Option<&str>,
    mode: Option<&str>,
    token: Option<&str>,
    challenge: Option<&str>,
) -> (r: Result<String, &'static str>)
    ensures
        result_text(r) == whatsapp_answer(expected, mode, token, challenge),
{
    if !is_set(expected) {
        return Err("verify_token_not_configured");
    }
    let subscribe = match mode {
        Some(m) => crate::text::str_eq(m, "subscribe"),
        None => false,
    };
    if !subscribe {
        return Err("invalid_mode");
    }
    let provided = match token {
        Some(t) => t,
        None => {
            return Err("missing_token");
        },
    };
    if !crate::text::str_eq(provided, expected.unwrap()) {
        return Err("token_mismatch");
    }
    match challenge {
        Some(c) => Ok(crate::text::owned(c)),
        None => Err("missing_challenge"),
    }
}

/// The WeChat signature: SHA-1 of the sorted parts concatenated, in lowercase hex.
pub open spec fn wechat_signature(
    token: Seq<char>,
    timestamp: Seq<char>,
    nonce: Seq<char>,
    echostr: Seq<char>,
) -> Seq<char> {
    hex_lower(
        sha1_digest(
            encode_utf8(join(sort_seq(seq![token, timestamp, nonce, echostr]), Seq::empty())),
        ),
    )
}

pub open spec fn wechat_answer(
    configured: Option<&str>,
    signature: Option<&str>,
    timestamp: Option<&str>,
    nonce: Option<&str>,
    echostr: Option<&str>,
) -> Result<Seq<char>, &'static str> {
    if !secret_set(configured) {
        match echostr {
            Some(e) => Ok(e@),
            None => Err("missing_echostr"),
        }
    } else if signature is None {
        Err("missing_signature")
    } else if timestamp is None {
        Err("missing_timestamp")
    } else if nonce is None {
        Err("missing_nonce")
    } else if echostr is None {
        Err("missing_echostr")
    } else if wechat_signature(
        configured.unwrap()@,
        timestamp.unwrap()@,
        nonce.unwrap()@,
        echostr.unwrap()@,
    ) != signature.unwrap()@ {
        Err("invalid_signature")
    } else {
        Ok(echostr.unwrap()@)
    }
}

/// Concatenation of strings with nothing between them.
fn concat_all(parts: &Vec<String>) -> (r: String)
    ensures
        r@ == join(strs(parts@), Seq::empty()),
{
    let ghost views = strs(parts@);
    let mut r = String::new();
    let mut i: usize = 0;
    while i < parts.len()
        invariant
            i <= parts@.len(),
            views == strs(parts@),
            r@ == join(views.take(i as int), Seq::empty()),
        decreases parts@.len() - i,
    {
        r.append(parts[i].as_str());
        i = i + 1;
        proof {
            let p = views.take(i as int);
            assert(p.drop_last() =~= views.take(i - 1));
            assert(p.last() == parts@[i - 1]@);
            if i == 1 {
                assert(join(p, Seq::empty()) == p[0]);
                assert(views.take(0) =~= Seq::<Seq<char>>::empty());
                assert(r@ =~= p[0]);
            } else {
                assert(r@ =~= join(views.take(i - 1), Seq::empty()) + Seq::<char>::empty() + p.last());
            }
        }
    }
    proof {
        assert(views.take(parts@.len() as int) =~= views);
    }
    r
}

/// WeChat callback verification: answers `echostr` when the SHA-1 signature
/// over the sorted token, timestamp, nonce and echostr matches.
pub fn verify_wechat(
    configured: Option<&str>,
    signature: Option<&str>,
    timestamp: Option<&str>,
    nonce: Option<&str>,
    echostr: Option<&str>,
) -> (r: Result<String, &'static str>)
    ensures
        result_text(r) == wechat_answer(configured, signature, timestamp, nonce, echostr),
{
    if !is_set(configured) {
        return match echostr {
            Some(e) => Ok(crate::text::owned(e)),
            None => Err("missing_echostr"),
        };
    }
    let token = configured.unwrap();
    let signature = match signature {
        Some(s) => s,
        None => {
            return Err("missing_signature");
        },
    };
    let timestamp = match timestamp {
        Some(s) => s,
        None => {
            return Err("missing_timestamp");
        },
    };
    let nonce = match nonce {
        Some(s) => s,
        None => {
            return Err("missing_nonce");
        },
    };
    let echostr = match echostr {
        Some(s) => s,
        None => {
            return Err("missing_echostr");
        },
    };
    let parts = vec![
        crate::text::owned(token),
        crate::text::owned(timestamp),
        crate::text::owned(nonce),
        crate::text::owned(echostr),
    ];
    proof {
        assert(strs(parts@) =~= seq![token@, timestamp@, nonce@, echostr@]);
    }
    let sorted = crate::order::sort_strings(parts);
    let data = concat_all(&sorted);
    let digest = crate::digest::sha1_bytes(data.as_str().as_bytes());
    let expected = crate::digest::hex_encode(digest.as_slice());
    if !crate::text::str_eq(expected.as_str(), signature) {
        return Err("invalid_signature");
    }
    Ok(crate::text::owned(echostr))
}

/// The string Slack signs: `v0:{timestamp}:{body}`, the body decoded lossily.
pub open spec fn slack_base(timestamp: Seq<char>, body: Seq<u8>) -> Seq<char> {
    "v0:"@ + timestamp + ":"@ + utf8_lossy(body)
}

/// The signature Slack sends for a request: `v0=` and the hex HMAC-SHA256.
pub open spec fn slack_signature(secret: Seq<char>, timestamp: Seq<char>, body: Seq<u8>) -> Seq<char> {
    "v0="@ + hex_lower(hmac_sha256(encode_utf8(secret), encode_utf8(slack_base(timestamp, body))))
}

/// Largest accepted distance between the request timestamp and now, in seconds.
pub const SLACK_MAX_SKEW_SECS: i128 = 300;

pub open spec fn slack_answer(
    configured: Option<&str>,
    signature: Option<&str>,
    timestamp: Option<&str>,
    body: Seq<u8>,
    now_secs: i64,
) -> Result<(), &'static str> {
    if !secret_set(configured) {
        Ok(())
    } else if signature is None {
        Err("missing_signature")
    } else if timestamp is None {
        Err("missing_timestamp")
    } else {
        match int_text(timestamp.unwrap()@) {
            None => Err("invalid_timestamp"),
            Some(t) => if !(i64::MIN <= t <= i64::MAX) {
                Err("invalid_timestamp")
            } else if now_secs - t > 300 || t - now_secs > 300 {
                Err("stale_timestamp")
            } else if slack_signature(configured.unwrap()@, timestamp.unwrap()@, body)
                != signature.unwrap()@ {
                Err("invalid_signature")
            } else {
                Ok(())
            },
        }
    }
}

/// Slack request signing: the timestamp must be within five minutes of
/// `now_secs` and the signature must match the HMAC of the signed string.
pub fn verify_slack(
    configured: Option<&str>,
    signature: Option<&str>,
    timestamp: Option<&str>,
    body: &[u8],
    now_secs: i64,
) -> (r: Result<(), &'static str>)
    ensures
        r == slack_answer(configured, signature, timestamp, body@, now_secs),
{
    if !is_set(configured) {
        return Ok(());
    }
    let secret = configured.unwrap();
    let signature = match signature {
        Some(s) => s,
        None => {
            return Err("missing_signature");
        },
    };
    let timestamp = match timestamp {
        Some(s) => s,
        None => {
            return Err("missing_timestamp");
        },
    };
    let value = match crate::number::parse_i64(timestamp) {
        Some(v) => v,
        None => {
            return Err("invalid_timestamp");
        },
    };
    let skew: i128 = now_secs as i128 - value as i128;
    if skew > SLACK_MAX_SKEW_SECS || -skew > SLACK_MAX_SKEW_SECS {
        return Err("stale_timestamp");
    }
    let text = crate::text::lossy_text(body);
    let mut base = crate::text::owned("v0:");
    base.append(timestamp);
    base.append(":");
    base.append(text.as_str());
    let tag = crate::digest::hmac_sha256_bytes(secret.as_bytes(), base.as_str().as_bytes());
    let hex = crate::digest::hex_encode(tag.as_slice());
    let expected = crate::text::concat2("v0=", hex.as_str());
    if !crate::text::str_eq(expected.as_str(), signature) {
        return Err("invalid_signature");
    }
    Ok(())
}

/// What `serde_urlencoded::from_bytes` parses a form body into, pair by pair
/// in the order they occur, or `None` when it reports an error.
pub uninterp spec fn form_pairs(body: Seq<u8>) -> Option<Seq<(Seq<char>, Seq<char>)>>;

/// `serde_urlencoded::from_bytes` into a list of name/value pairs.
#[verifier::external_body]
fn parse_form(body: &[u8]) -> (r: Option<Vec<(String, String)>>)
    ensures
        match r {
            Some(v) => form_pairs(body@) == Some(v@.map_values(|p: (String, String)| (p.0@, p.1@))),
            None => form_pairs(body@) is None,
        },
{
    serde_urlencoded::from_bytes::<Vec<(String, String)>>(body).ok()
}

/// The distinct names of a form, in order of first occurrence.
pub open spec fn form_keys(pairs: Seq<(Seq<char>, Seq<char>)>) -> Seq<Seq<char>>
    decreases pairs.len(),
{
    if pairs.len() == 0 {
        Seq::empty()
    } else {
        let d = form_keys(pairs.drop_last());
        if d.contains(pairs.last().0) {
            d
        } else {
            d.push(pairs.last().0)
        }
    }
}

/// The value the last pair named `key` carries (a map keeps the last insert);
/// empty when there is none.
pub open spec fn form_value(pairs: Seq<(Seq<char>, Seq<char>)>, key: Seq<char>) -> Seq<char>
    decreases pairs.len(),
{
    if pairs.len() == 0 {
        Seq::empty()
    } else if pairs.last().0 == key {
        pairs.last().1
    } else {
        form_value(pairs.drop_last(), key)
    }
}

/// The string Twilio signs: the URL, then each form name in sorted order
/// followed by its value.
pub open spec fn twilio_data(url: Seq<char>, pairs: Seq<(Seq<char>, Seq<char>)>) -> Seq<char> {
    url + join(sort_seq(form_keys(pairs)).map_values(|k: Seq<char>| k + form_value(pairs, k)), Seq::empty())
}

pub open spec fn twilio_answer(
    token: Option<&str>,
    url: Option<&str>,
    signature: Option<&str>,
    body: Seq<u8>,
) -> Result<(), &'static str> {
    if token is None || url is None {
        Ok(())
    } else if trim(token.unwrap()@).len() == 0 || trim(url.unwrap()@).len() == 0 {
        Ok(())
    } else if signature is None {
        Err("missing_signature")
    } else {
        match form_pairs(body) {
            None => Err("bad_form"),
            Some(pairs) => if base64_standard(
                hmac_sha1(encode_utf8(token.unwrap()@), encode_utf8(twilio_data(url.unwrap()@, pairs))),
            ) != signature.unwrap()@ {
                Err("invalid_signature")
            } else {
                Ok(())
            },
        }
    }
}

type FormPairs = Seq<(Seq<char>, Seq<char>)>;

/// The value of the last pair named `key`, found by scanning from the end.
fn last_value(pairs: &Vec<(String, String)>, key: &str) -> (r: String)
    ensures
        r@ == form_value(pairs@.map_values(|p: (String, String)| (p.0@, p.1@)), key@),
{
    let ghost ps: FormPairs = pairs@.map_values(|p: (String, String)| (p.0@, p.1@));
    let mut i: usize = pairs.len();
    proof {
        assert(ps.take(ps.len() as int) =~= ps);
    }
    while i > 0
        invariant
            i <= pairs@.len(),
            ps == pairs@.map_values(|p: (String, String)| (p.0@, p.1@)),
            form_value(ps, key@) == form_value(ps.take(i as int), key@),
        decreases i,
    {
        let ghost t = ps.take(i as int);
        proof {
            assert(t.drop_last() =~= ps.take(i - 1));
            assert(t.last() == ps[i - 1]);
        }
        if crate::text::str_eq(pairs[i - 1].0.as_str(), key) {
            return pairs[i - 1].1.clone();
        }
        i = i - 1;
    }
    proof {
        assert(ps.take(0) =~= Seq::<(Seq<char>, Seq<char>)>::empty());
    }
    String::new()
}

/// The distinct names of the pairs, in order of first occurrence.
fn distinct_keys(pairs: &Vec<(String, String)>) -> (r: Vec<String>)
    ensures
        strs(r@) == form_keys(pairs@.map_values(|p: (String, String)| (p.0@, p.1@))),
{
    let ghost ps: FormPairs = pairs@.map_values(|p: (String, String)| (p.0@, p.1@));
    let mut keys: Vec<String> = Vec::new();
    let mut i: usize = 0;
    proof {
        assert(ps.take(0) =~= Seq::<(Seq<char>, Seq<char>)>::empty());
    }
    while i < pairs.len()
        invariant
            i <= pairs@.len(),
            ps == pairs@.map_values(|p: (String, String)| (p.0@, p.1@)),
            strs(keys@) == form_keys(ps.take(i as int)),
        decreases pairs@.len() - i,
    {
        let ghost t = ps.take(i + 1);
        proof {
            assert(t.drop_last() =~= ps.take(i as int));
            assert(t.last() == ps[i as int]);
        }
        let known = crate::text::contains_string(&keys, pairs[i].0.as_str());
        if !known {
            keys.push(pairs[i].0.clone());
            proof {
                assert(strs(keys@) =~= form_keys(ps.take(i as int)).push(ps[i as int].0));
            }
        }
        i = i + 1;
    }
    proof {
        assert(ps.take(pairs@.len() as int) =~= ps);
    }
    keys
}

/// Twilio request validation: Base64 HMAC-SHA1, under the auth token, of the
/// webhook URL followed by the sorted form fields.
pub fn verify_twilio(
    token: Option<&str>,
    url: Option<&str>,
    signature: Option<&str>,
    body: &[u8],
) -> (r: Result<(), &'static str>)
    ensures
        r == twilio_answer(token, url, signature, body@),
{
    let (token, url) = match (token, url) {
        (Some(t), Some(u)) => (t, u),
        _ => {
            return Ok(());
        },
    };
    if crate::text::is_blank(token) || crate::text::is_blank(url) {
        return Ok(());
    }
    let signature = match signature {
        Some(s) => s,
        None => {
            return Err("missing_signature");
        },
    };
    let pairs = match parse_form(body) {
        Some(p) => p,
        None => {
            return Err("bad_form");
        },
    };
    let ghost ps: FormPairs = pairs@.map_values(|p: (String, String)| (p.0@, p.1@));
    let keys = distinct_keys(&pairs);
    let sorted = crate::order::sort_strings(keys);
    let ghost sk = strs(sorted@);
    let ghost items = sk.map_values(|k: Seq<char>| k + form_value(ps, k));
    let mut fields = String::new();
    let mut i: usize = 0;
    while i < sorted.len()
        invariant
            i <= sorted@.len(),
            sk == strs(sorted@),
            ps == pairs@.map_values(|p: (String, String)| (p.0@, p.1@)),
            items == sk.map_values(|k: Seq<char>| k + form_value(ps, k)),
            fields@ == join(items.take(i as int), Seq::empty()),
        decreases sorted@.len() - i,
    {
        let value = last_value(&pairs, sorted[i].as_str());
        fields.append(sorted[i].as_str());
        fields.append(value.as_str());
        i = i + 1;
        proof {
            let p = items.take(i as int);
            assert(p.drop_last() =~= items.take(i - 1));
            assert(p.last() == items[i - 1]);
            assert(items[i - 1] == sk[i - 1] + form_value(ps, sk[i - 1]));
            if i == 1 {
                assert(items.take(0) =~= Seq::<Seq<char>>::empty());
                assert(fields@ =~= p[0]);
            } else {
                assert(fields@ =~= join(items.take(i - 1), Seq::empty()) + Seq::<char>::empty() + p.last());
            }
        }
    }
    proof {
        assert(items.take(sorted@.len() as int) =~= items);
    }
    let data = crate::text::concat2(url, fields.as_str());
    let tag = crate::digest::hmac_sha1_bytes(token.as_bytes(), data.as_str().as_bytes());
    let expected = crate::digest::base64_encode(tag.as_slice());
    if !crate::text::str_eq(expected.as_str(), signature) {
        return Err("invalid_signature");
    }
    Ok(())
}

} // verus!
