use scheduler_module::fanout::{
    choose_reply, fanout_port, fanout_timeout_secs, forward_url, parse_targets, should_skip_header, FanoutAnswer,
};

#[test]
fn parses_fanout_targets() {
    assert_eq!(
        parse_targets(Some(" http://a:9001/ , ,http://b:9002//,http://c ")),
        vec!["http://a:9001".to_string(), "http://b:9002".to_string(), "http://c".to_string()]
    );
    assert!(parse_targets(None).is_empty());
    assert!(parse_targets(Some("  ,  ")).is_empty());
}

#[test]
fn skips_hop_by_hop_headers() {
    assert!(should_skip_header("Host"));
    assert!(should_skip_header("CONNECTION"));
    assert!(should_skip_header("content-length"));
    assert!(!should_skip_header("content-type"));
    assert!(!should_skip_header("x-slack-signature"));
}

#[test]
fn builds_forward_urls_and_settings() {
    assert_eq!(forward_url("http://a:9001", "/slack/events?x=1"), "http://a:9001/slack/events?x=1");
    assert_eq!(fanout_port(None), 9100);
    assert_eq!(fanout_port(Some("8080")), 8080);
    assert_eq!(fanout_port(Some("70000")), 9100);
    assert_eq!(fanout_port(Some("http")), 9100);
    assert_eq!(fanout_timeout_secs(Some("0")), 15);
    assert_eq!(fanout_timeout_secs(Some("30")), 30);
    assert_eq!(fanout_timeout_secs(None), 15);
}

#[test]
fn relays_first_successful_reply() {
    assert!(matches!(choose_reply(&vec![500, 404, 201, 200]), FanoutAnswer::Relay(2)));
    assert!(matches!(choose_reply(&vec![500, 503]), FanoutAnswer::BadGateway));
    assert!(matches!(choose_reply(&vec![]), FanoutAnswer::BadGateway));
    assert!(matches!(choose_reply(&vec![299]), FanoutAnswer::Relay(0)));
    assert!(matches!(choose_reply(&vec![300, 199]), FanoutAnswer::BadGateway));
}
