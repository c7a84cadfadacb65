use base64::Engine;
use hmac::{Hmac, Mac};
use scheduler_module::webhook::{
    verify_bluebubbles, verify_postmark, verify_slack, verify_twilio, verify_wechat, verify_whatsapp_subscription,
};
use sha1::{Digest, Sha1};
use sha2::Sha256;

fn wechat_signature(parts: &[&str]) -> String {
    let mut parts: Vec<&str> = parts.to_vec();
    parts.sort();
    let data = parts.join("");
    let mut hasher = Sha1::new();
    hasher.update(data.as_bytes());
    hex::encode(hasher.finalize())
}

#[test]
fn verify_wechat_returns_echostr_when_no_token_configured() {
    let result = verify_wechat(None, Some("signature"), Some("1234567890"), Some("nonce"), Some("test_echostr"));
    assert!(result.is_ok());
    assert_eq!(result.unwrap(), "test_echostr");
}

#[test]
fn verify_wechat_returns_error_when_missing_echostr_no_token() {
    let result = verify_wechat(None, Some("sig"), Some("ts"), Some("nonce"), None);
    assert!(result.is_err());
    assert_eq!(result.unwrap_err(), "missing_echostr");
}

#[test]
fn verify_wechat_validates_signature_when_token_set() {
    let token = "test_token_12345";
    let timestamp = "1609459200";
    let nonce = "random_nonce";
    let echostr = "challenge_string";
    let valid_signature = wechat_signature(&[token, timestamp, nonce, echostr]);
    let result = verify_wechat(Some(token), Some(&valid_signature), Some(timestamp), Some(nonce), Some(echostr));
    assert!(result.is_ok());
    assert_eq!(result.unwrap(), "challenge_string");
}

#[test]
fn verify_wechat_rejects_invalid_signature() {
    let result = verify_wechat(
        Some("secret_token"),
        Some("invalid_signature"),
        Some("1234567890"),
        Some("nonce123"),
        Some("echostr"),
    );
    assert!(result.is_err());
    assert_eq!(result.unwrap_err(), "invalid_signature");
}

#[test]
fn verify_wechat_requires_signature_when_token_set() {
    let result = verify_wechat(Some("token"), None, Some("ts"), Some("nonce"), Some("echo"));
    assert!(result.is_err());
    assert_eq!(result.unwrap_err(), "missing_signature");
}

#[test]
fn verify_wechat_requires_timestamp_when_token_set() {
    let result = verify_wechat(Some("token"), Some("sig"), None, Some("nonce"), Some("echo"));
    assert!(result.is_err());
    assert_eq!(result.unwrap_err(), "missing_timestamp");
}

#[test]
fn verify_wechat_requires_nonce_when_token_set() {
    let result = verify_wechat(Some("token"), Some("sig"), Some("ts"), None, Some("echo"));
    assert!(result.is_err());
    assert_eq!(result.unwrap_err(), "missing_nonce");
}

#[test]
fn verify_wechat_requires_echostr_when_token_set() {
    let result = verify_wechat(Some("token"), Some("sig"), Some("ts"), Some("nonce"), None);
    assert!(result.is_err());
    assert_eq!(result.unwrap_err(), "missing_echostr");
}

#[test]
fn verify_wechat_ignores_empty_token() {
    let result = verify_wechat(Some("   "), Some("any_signature"), Some("ts"), Some("nonce"), Some("echostr"));
    assert!(result.is_ok());
    assert_eq!(result.unwrap(), "echostr");
}

#[test]
fn verify_wechat_signature_sort_order() {
    let token = "zzz_token";
    let timestamp = "aaa_timestamp";
    let nonce = "mmm_nonce";
    let echostr = "bbb_echo";
    let mut parts = vec![token, timestamp, nonce, echostr];
    parts.sort();
    assert_eq!(parts, vec!["aaa_timestamp", "bbb_echo", "mmm_nonce", "zzz_token"]);
    let valid_signature = wechat_signature(&[token, timestamp, nonce, echostr]);
    let result = verify_wechat(Some(token), Some(&valid_signature), Some(timestamp), Some(nonce), Some(echostr));
    assert!(result.is_ok());
}

#[test]
fn verify_wechat_signature_is_sha1_hex_of_sorted_concatenation() {
    // SHA-1 of "abc" is a published test vector.
    let sig = "a9993e364706816aba3e25717850c26c9cd0d89d";
    let result = verify_wechat(Some("c"), Some(sig), Some("a"), Some("b"), Some(""));
    assert_eq!(result.unwrap(), "");
}

#[test]
fn verify_whatsapp_subscription_requires_subscribe_mode() {
    let result = verify_whatsapp_subscription(Some("my_token"), Some("webhook"), Some("my_token"), Some("challenge123"));
    assert!(result.is_err());
    assert_eq!(result.unwrap_err(), "invalid_mode");
}

#[test]
fn verify_whatsapp_subscription_validates_token() {
    let result =
        verify_whatsapp_subscription(Some("correct_token"), Some("subscribe"), Some("wrong_token"), Some("challenge"));
    assert!(result.is_err());
    assert_eq!(result.unwrap_err(), "token_mismatch");
}

#[test]
fn verify_whatsapp_subscription_success() {
    let result = verify_whatsapp_subscription(
        Some("my_secret_token"),
        Some("subscribe"),
        Some("my_secret_token"),
        Some("hub.challenge.12345"),
    );
    assert!(result.is_ok());
    assert_eq!(result.unwrap(), "hub.challenge.12345");
}

#[test]
fn verify_whatsapp_subscription_error_cases() {
    assert_eq!(verify_whatsapp_subscription(None, Some("subscribe"), Some("t"), Some("c")).unwrap_err(), "verify_token_not_configured");
    assert_eq!(verify_whatsapp_subscription(Some(" "), Some("subscribe"), Some("t"), Some("c")).unwrap_err(), "verify_token_not_configured");
    assert_eq!(verify_whatsapp_subscription(Some("t"), None, Some("t"), Some("c")).unwrap_err(), "invalid_mode");
    assert_eq!(verify_whatsapp_subscription(Some("t"), Some("subscribe"), None, Some("c")).unwrap_err(), "missing_token");
    assert_eq!(verify_whatsapp_subscription(Some("t"), Some("subscribe"), Some("t"), None).unwrap_err(), "missing_challenge");
}

#[test]
fn verify_postmark_and_bluebubbles_tokens() {
    assert!(verify_postmark(None, None).is_ok());
    assert!(verify_postmark(Some("  "), None).is_ok());
    assert_eq!(verify_postmark(Some("tok"), None).unwrap_err(), "missing_token");
    assert_eq!(verify_postmark(Some("tok"), Some("other")).unwrap_err(), "invalid_token");
    assert!(verify_postmark(Some("tok"), Some("tok")).is_ok());
    assert!(verify_bluebubbles(None, Some("x")).is_ok());
    assert_eq!(verify_bluebubbles(Some("tok"), None).unwrap_err(), "missing_token");
    assert_eq!(verify_bluebubbles(Some("tok"), Some("nope")).unwrap_err(), "invalid_token");
    assert!(verify_bluebubbles(Some("tok"), Some("tok")).is_ok());
}

fn slack_signature(secret: &str, timestamp: &str, body: &str) -> String {
    let mut mac = Hmac::<Sha256>::new_from_slice(secret.as_bytes()).unwrap();
    mac.update(format!("v0:{}:{}", timestamp, body).as_bytes());
    format!("v0={}", hex::encode(mac.finalize().into_bytes()))
}

#[test]
fn verify_slack_checks_signature_and_age() {
    let body = "token=abc&team_id=T1";
    let sig = slack_signature("shh", "1700000000", body);
    assert!(verify_slack(None, None, None, body.as_bytes(), 0).is_ok());
    assert!(verify_slack(Some("shh"), Some(&sig), Some("1700000000"), body.as_bytes(), 1700000100).is_ok());
    assert_eq!(
        verify_slack(Some("shh"), Some(&sig), Some("1700000000"), body.as_bytes(), 1700000301).unwrap_err(),
        "stale_timestamp"
    );
    assert_eq!(
        verify_slack(Some("shh"), Some("v0=00"), Some("1700000000"), body.as_bytes(), 1700000000).unwrap_err(),
        "invalid_signature"
    );
    assert_eq!(verify_slack(Some("shh"), None, Some("1"), body.as_bytes(), 1).unwrap_err(), "missing_signature");
    assert_eq!(verify_slack(Some("shh"), Some(&sig), None, body.as_bytes(), 1).unwrap_err(), "missing_timestamp");
    assert_eq!(verify_slack(Some("shh"), Some(&sig), Some("12x"), body.as_bytes(), 1).unwrap_err(), "invalid_timestamp");
}

#[test]
fn verify_twilio_checks_sorted_form_signature() {
    let token = "auth-token";
    let url = "https://example.com/sms";
    let body = "To=%2B15550001111&From=%2B15552223333&Body=hi";
    let mut mac = Hmac::<Sha1>::new_from_slice(token.as_bytes()).unwrap();
    mac.update(format!("{}Bodyhi{}{}{}{}", url, "From", "+15552223333", "To", "+15550001111").as_bytes());
    let sig = base64::engine::general_purpose::STANDARD.encode(mac.finalize().into_bytes());
    assert!(verify_twilio(Some(token), Some(url), Some(&sig), body.as_bytes()).is_ok());
    assert_eq!(verify_twilio(Some(token), Some(url), Some("bogus"), body.as_bytes()).unwrap_err(), "invalid_signature");
    assert_eq!(verify_twilio(Some(token), Some(url), None, body.as_bytes()).unwrap_err(), "missing_signature");
    assert!(verify_twilio(None, Some(url), None, body.as_bytes()).is_ok());
    assert!(verify_twilio(Some(" "), Some(url), None, body.as_bytes()).is_ok());
}
