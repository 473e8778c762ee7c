use lessvless::url_parser::grammar::{LinkSegment, ParseError};
use lessvless::url_parser::{parse_url, parse_url_params, ParsedLink};

fn pair(key: &str, value: &str) -> (String, String) {
    (key.to_string(), value.to_string())
}

fn parsed(text: &str) -> ParsedLink {
    parse_url(&text.to_string()).unwrap()
}

fn refused(text: &str) -> ParseError {
    parse_url(&text.to_string()).unwrap_err()
}

#[test]
fn test_parse_url() {
    // A link without a credential stops at the credential segment.
    let url = "vless://host.tld:443?param1=value1&param2=value2".to_string();
    assert_eq!(
        parse_url(&url).unwrap_err(),
        ParseError::MalformedLink(LinkSegment::Credential)
    );

    // The same link with a credential.
    let url = "vless://u@host.tld:443?param1=value1&param2=value2".to_string();
    let link = parse_url(&url).unwrap();
    assert_eq!(link.protocol, "vless");
    assert_eq!(link.host, "host.tld");
    assert_eq!(link.port, 443);
    assert_eq!(link.param("param1").unwrap(), "value1");
    assert_eq!(link.param("param2").unwrap(), "value2");
}

#[test]
fn parses_every_part_of_a_link() {
    let link = parsed("vless://u@host.tld:443?a=1&b=2");
    assert_eq!(link.protocol, "vless");
    assert_eq!(link.credential, "u");
    assert_eq!(link.host, "host.tld");
    assert_eq!(link.port, 443);
    assert_eq!(link.params, vec![pair("a", "1"), pair("b", "2")]);
    assert_eq!(link.param("a").unwrap(), "1");
    assert_eq!(link.param("b").unwrap(), "2");
    assert!(link.param("c").is_none());
}

#[test]
fn round_trips_a_link_that_is_written_out() {
    let protocol = "vless+tcp";
    let credential = "0d9a7c3e-5b1f-4c69-8a1d-2f3e4b5c6d7e";
    let host = "a1.b2.example.org";
    let port = 65535;
    let pairs = vec![pair("security", "reality"), pair("sni", "www.example.org"), pair("k", "v")];
    let query: Vec<String> = pairs.iter().map(|(k, v)| format!("{}={}", k, v)).collect();
    let text = format!("{}://{}@{}:{}?{}", protocol, credential, host, port, query.join("&"));
    let link = parsed(&text);
    assert_eq!(link.protocol, protocol);
    assert_eq!(link.credential, credential);
    assert_eq!(link.host, host);
    assert_eq!(link.port, port);
    assert_eq!(link.params, pairs);
}

#[test]
fn link_without_query_has_no_params() {
    let link = parsed("vless://u@host.tld:443");
    assert_eq!(link.port, 443);
    assert!(link.params.is_empty());
}

#[test]
fn empty_query_has_no_params() {
    let link = parsed("vless://u@host.tld:443?");
    assert_eq!(link.host, "host.tld");
    assert!(link.params.is_empty());
    assert_eq!(parse_url_params(String::new()).unwrap(), Vec::<(String, String)>::new());
}

#[test]
fn values_are_kept_as_written() {
    let link = parsed("vless://u@h:1?path=%2Fws&name=caf\u{e9}&q=a?b");
    assert_eq!(link.param("path").unwrap(), "%2Fws");
    assert_eq!(link.param("name").unwrap(), "caf\u{e9}");
    assert_eq!(link.param("q").unwrap(), "a?b");
}

#[test]
fn port_is_the_number_its_digits_denote() {
    assert_eq!(parsed("vless://u@h:0").port, 0);
    assert_eq!(parsed("vless://u@h:000443").port, 443);
    assert_eq!(parsed("vless://u@h:2147483647").port, 2147483647);
}

#[test]
fn port_over_the_limit_is_malformed() {
    let port = ParseError::MalformedLink(LinkSegment::Port);
    assert_eq!(refused("vless://u@h:2147483648"), port);
    assert_eq!(refused("vless://u@h:99999999999999999999999999"), port);
}

#[test]
fn malformed_protocol_is_reported() {
    let protocol = ParseError::MalformedLink(LinkSegment::Protocol);
    assert_eq!(refused(""), protocol);
    assert_eq!(refused("://u@h:1"), protocol);
    assert_eq!(refused("vless:/u@h:1"), protocol);
    assert_eq!(refused("vless"), protocol);
    assert_eq!(refused("vless2://u@h:1"), protocol);
    assert_eq!(refused(" vless://u@h:1"), protocol);
}

#[test]
fn uppercase_is_not_lowered() {
    assert_eq!(refused("Vless://u@h:1"), ParseError::MalformedLink(LinkSegment::Protocol));
    assert_eq!(refused("vLess://u@h:1"), ParseError::MalformedLink(LinkSegment::Protocol));
    assert_eq!(refused("vless://u@Host.tld:1"), ParseError::MalformedLink(LinkSegment::Host));
    assert_eq!(refused("vless://u@host.Tld:1"), ParseError::MalformedLink(LinkSegment::Host));
    assert_eq!(refused("vless://U@host.tld:1"), ParseError::MalformedLink(LinkSegment::Credential));
}

#[test]
fn malformed_credential_is_reported() {
    let credential = ParseError::MalformedLink(LinkSegment::Credential);
    assert_eq!(refused("vless://@h:1"), credential);
    assert_eq!(refused("vless://h:1"), credential);
    assert_eq!(refused("vless://u_v@h:1"), credential);
    assert_eq!(refused("vless://"), credential);
}

#[test]
fn malformed_host_is_reported() {
    let host = ParseError::MalformedLink(LinkSegment::Host);
    assert_eq!(refused("vless://u@:1"), host);
    assert_eq!(refused("vless://u@.h:1"), host);
    assert_eq!(refused("vless://u@h.:1"), host);
    assert_eq!(refused("vless://u@a..b:1"), host);
    assert_eq!(refused("vless://u@host"), host);
    assert_eq!(refused("vless://u@ho-st:1"), host);
    assert_eq!(refused("vless://u@"), host);
}

#[test]
fn malformed_port_is_reported() {
    let port = ParseError::MalformedLink(LinkSegment::Port);
    assert_eq!(refused("vless://u@h:"), port);
    assert_eq!(refused("vless://u@h:x"), port);
    assert_eq!(refused("vless://u@h:443x"), port);
    assert_eq!(refused("vless://u@h:443/path"), port);
    assert_eq!(refused("vless://u@h:-1"), port);
    assert_eq!(refused("vless://u@h:?a=1"), port);
}

#[test]
fn pair_without_equals_is_invalid() {
    assert_eq!(refused("vless://u@h:1?a"), ParseError::InvalidParam(0));
    assert_eq!(refused("vless://u@h:1?a=1&b"), ParseError::InvalidParam(1));
    assert_eq!(refused("vless://u@h:1?a=1&b&c=3"), ParseError::InvalidParam(1));
    assert_eq!(parse_url_params("a".to_string()).unwrap_err(), ParseError::InvalidParam(0));
}

#[test]
fn pair_with_two_equals_is_invalid() {
    assert_eq!(refused("vless://u@h:1?a=1=2"), ParseError::InvalidParam(0));
    assert_eq!(refused("vless://u@h:1?a==1"), ParseError::InvalidParam(0));
    assert_eq!(refused("vless://u@h:1?a=1&b=2&c=3=4"), ParseError::InvalidParam(2));
    assert_eq!(parse_url_params("x=1&y=2=3".to_string()).unwrap_err(), ParseError::InvalidParam(1));
}

#[test]
fn pair_with_empty_side_is_invalid() {
    assert_eq!(refused("vless://u@h:1?=1"), ParseError::InvalidParam(0));
    assert_eq!(refused("vless://u@h:1?a="), ParseError::InvalidParam(0));
    assert_eq!(refused("vless://u@h:1?a=1&"), ParseError::InvalidParam(1));
    assert_eq!(refused("vless://u@h:1?&a=1"), ParseError::InvalidParam(0));
    assert_eq!(refused("vless://u@h:1?a=1&&b=2"), ParseError::InvalidParam(1));
}

#[test]
fn repeated_key_is_invalid() {
    assert_eq!(refused("vless://u@h:1?a=1&a=2"), ParseError::InvalidParam(1));
    assert_eq!(refused("vless://u@h:1?a=1&b=2&a=1"), ParseError::InvalidParam(2));
    assert_eq!(
        parse_url_params("k=v&K=v&k=w".to_string()).unwrap_err(),
        ParseError::InvalidParam(2)
    );
}

#[test]
fn parse_url_params_reads_pairs_in_order() {
    let pairs = parse_url_params("security=reality&fp=chrome&sid=some-sid".to_string()).unwrap();
    assert_eq!(
        pairs,
        vec![pair("security", "reality"), pair("fp", "chrome"), pair("sid", "some-sid")]
    );
}

#[test]
fn parsed_link_has_no_key_twice() {
    let link = parsed("vless://u@h:1?a=1&b=2&c=3&d=4");
    for (i, (key, value)) in link.params.iter().enumerate() {
        assert!(!key.is_empty() && !value.is_empty());
        assert!(!key.contains('=') && !key.contains('&'));
        assert!(!value.contains('=') && !value.contains('&'));
        assert!(link.params.iter().skip(i + 1).all(|(other, _)| other != key));
    }
}
