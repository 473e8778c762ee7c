use lessvless::models::enrich::EnrichError;
use lessvless::models::{
    DirectOutbound, Dns, DnsOutbound, DnsServer, Inbound, Log, Outbound, RealityConfig, Route,
    RouteRule, SingBoxConfig, TlsConfig, UtlsConfig, VlessOutbound,
};
use lessvless::url_parser::grammar::{LinkSegment, ParseError};
use lessvless::url_parser::parse_url;

fn text(s: &str) -> String {
    s.to_string()
}

fn direct(tag: &str) -> Outbound {
    Outbound::Direct(DirectOutbound { tag: text(tag), type_field: text("direct") })
}

fn dns_out(tag: &str) -> Outbound {
    Outbound::Dns(DnsOutbound { tag: text(tag), type_field: text("dns") })
}

fn vless(tag: &str) -> VlessOutbound {
    VlessOutbound {
        packet_encoding: text("xudp"),
        server: text("example_server"),
        server_port: 8080,
        tls: Some(TlsConfig {
            enabled: true,
            reality: Some(RealityConfig {
                enabled: true,
                public_key: Some(text("example_public_key")),
                short_id: text("example_short_id"),
            }),
            server_name: text("example_server_name.ru"),
            utls: Some(UtlsConfig { enabled: true, fingerprint: text("chrome") }),
        }),
        type_field: text("vless"),
        tag: text(tag),
        uuid: text("example_uuid"),
    }
}

fn config_with(outbounds: Vec<Outbound>) -> SingBoxConfig {
    SingBoxConfig {
        dns: Dns {
            final_field: text("cloudflare-doh"),
            servers: vec![
                DnsServer { address: text("local"), tag: text("system") },
                DnsServer { address: text("https://1.1.1.1/dns-query"), tag: text("cloudflare-doh") },
            ],
        },
        inbounds: vec![Inbound {
            address: Some(vec![text("172.16.0.1/30")]),
            interface_name: Some(text("tun10")),
            mtu: Some(1500),
            sniff: Some(true),
            auto_route: Some(true),
            strict_route: Some(true),
            tag: text("tun-in"),
            type_field: text("tun"),
            stack: None,
        }],
        log: Log { level: text("info"), timestamp: None },
        outbounds,
        route: Route {
            auto_detect_interface: true,
            default_domain_resolver: Some(text("cloudflare-doh")),
            final_field: Some(text("wh3tduwc")),
            rules: vec![RouteRule {
                inbound: None,
                outbound: Some(text("dns-out")),
                action: None,
                protocol: Some(text("dns")),
                ip_cidr: None,
                domain_suffix: None,
                ip_is_private: None,
                port: None,
                process_name: None,
            }],
        },
    }
}

fn sample_config() -> SingBoxConfig {
    config_with(vec![direct("direct-out"), dns_out("dns-out"), Outbound::Vless(vless("wh3tduwc"))])
}

const FULL_LINK: &str = "vless://some-uuid@host.tld:443?security=reality&encryption=none&headerType=none&fp=chrome&type=tcp&flow=xtls-rprx-vision&pbk=iBXtaHGkwadJMtkWYZxMRfqLLAuDvTHKsHQiLFXXJniM&sni=www.microsoft.com&sid=some-sid";

fn first_vless(config: &SingBoxConfig) -> &VlessOutbound {
    config
        .outbounds
        .iter()
        .find_map(|o| match o {
            Outbound::Vless(v) => Some(v),
            _ => None,
        })
        .unwrap()
}

#[test]
fn test_enrich_from_url() {
    // A link without a credential is refused, and the document stays.
    let url = "vless://host.tld:443?security=reality&encryption=none&headerType=none&fp=chrome&type=tcp&flow=xtls-rprx-vision&pbk=iBXtaHGkwadJMtkWYZxMRfqLLAuDvTHKsHQiLFXXJniM&sni=www.microsoft.com&sid=some-sid".to_string();
    let default_config = sample_config();
    let mut new_config = default_config.clone();
    assert_eq!(
        new_config.enrich_from_url(url),
        Err(EnrichError::Link(ParseError::MalformedLink(LinkSegment::Credential)))
    );
    assert_eq!(new_config, default_config);

    // With a credential the link is merged in.
    let mut new_config = default_config.clone();
    assert_eq!(new_config.enrich_from_url(FULL_LINK.to_string()), Ok(()));
    let merged = first_vless(&new_config);
    assert_eq!(merged.server, "host.tld");
    assert_eq!(merged.server_port, 443);
    assert_eq!(merged.uuid, "some-uuid");
    assert_eq!(merged.tag, "wh3tduwc");
    assert_eq!(merged.packet_encoding, "xudp");
    assert_eq!(merged.type_field, "vless");
    assert_eq!(
        merged.tls,
        Some(TlsConfig {
            enabled: true,
            reality: Some(RealityConfig {
                enabled: true,
                public_key: Some(text("iBXtaHGkwadJMtkWYZxMRfqLLAuDvTHKsHQiLFXXJniM")),
                short_id: text("some-sid"),
            }),
            server_name: text("www.microsoft.com"),
            utls: Some(UtlsConfig { enabled: true, fingerprint: text("chrome") }),
        })
    );
}

#[test]
fn merged_values_carry_no_quotes() {
    let mut config = sample_config();
    config.enrich_from_url(FULL_LINK.to_string()).unwrap();
    let merged = first_vless(&config);
    let tls = merged.tls.as_ref().unwrap();
    let reality = tls.reality.as_ref().unwrap();
    for value in [
        &merged.server,
        &merged.uuid,
        &tls.server_name,
        reality.public_key.as_ref().unwrap(),
        &reality.short_id,
        &tls.utls.as_ref().unwrap().fingerprint,
    ] {
        assert!(!value.contains('"'));
    }
}

#[test]
fn enriching_twice_is_enriching_once() {
    let mut once = sample_config();
    once.enrich_from_url(FULL_LINK.to_string()).unwrap();
    let mut twice = once.clone();
    twice.enrich_from_url(FULL_LINK.to_string()).unwrap();
    assert_eq!(twice, once);

    let mut once = config_with(vec![direct("direct-out")]);
    once.enrich_from_url(FULL_LINK.to_string()).unwrap();
    let mut twice = once.clone();
    twice.enrich_from_url(FULL_LINK.to_string()).unwrap();
    assert_eq!(twice, once);
    assert_eq!(twice.outbounds.len(), 2);
}

#[test]
fn enriching_without_vless_appends_one() {
    let before = config_with(vec![direct("direct-out"), dns_out("dns-out")]);
    let mut after = before.clone();
    after.enrich_from_url("vless://u@host.tld:443?sni=example.org".to_string()).unwrap();
    assert_eq!(after.outbounds.len(), 3);
    assert_eq!(after.outbounds[0], before.outbounds[0]);
    assert_eq!(after.outbounds[1], before.outbounds[1]);
    assert_eq!(
        after.outbounds[2],
        Outbound::Vless(VlessOutbound {
            packet_encoding: text("default"),
            server: text("host.tld"),
            server_port: 443,
            tls: Some(TlsConfig {
                enabled: true,
                reality: None,
                server_name: text("example.org"),
                utls: None,
            }),
            type_field: text("vless"),
            tag: text("default"),
            uuid: text("u"),
        })
    );
}

#[test]
fn enriching_an_empty_document_appends_one() {
    let mut config = config_with(vec![]);
    config.enrich_from_url("vless://u@h:1".to_string()).unwrap();
    assert_eq!(config.outbounds.len(), 1);
    let merged = first_vless(&config);
    assert_eq!(merged.server, "h");
    assert_eq!(merged.server_port, 1);
}

#[test]
fn enriching_overwrites_the_first_vless_only() {
    let before = config_with(vec![
        Outbound::Vless(vless("first")),
        direct("direct-out"),
        Outbound::Vless(vless("second")),
    ]);
    let mut after = before.clone();
    after.enrich_from_url("vless://u@host.tld:443".to_string()).unwrap();
    assert_eq!(after.outbounds.len(), 3);
    assert_eq!(after.outbounds[1], before.outbounds[1]);
    assert_eq!(after.outbounds[2], before.outbounds[2]);
    match &after.outbounds[0] {
        Outbound::Vless(v) => {
            assert_eq!(v.tag, "first");
            assert_eq!(v.server, "host.tld");
            assert_eq!(v.uuid, "u");
        }
        other => panic!("unexpected outbound {:?}", other),
    }
}

#[test]
fn enriching_keeps_the_other_sections() {
    let before = sample_config();
    let mut after = before.clone();
    after.enrich_from_url(FULL_LINK.to_string()).unwrap();
    assert_eq!(after.dns, before.dns);
    assert_eq!(after.inbounds, before.inbounds);
    assert_eq!(after.log, before.log);
    assert_eq!(after.route, before.route);
    assert_eq!(after.outbounds[0], before.outbounds[0]);
    assert_eq!(after.outbounds[1], before.outbounds[1]);
    assert_eq!(after.inbounds[0].stack, None);
    assert_eq!(after.log.timestamp, None);
    assert_eq!(after.route.rules[0].inbound, None);
}

#[test]
fn reality_needs_security_reality() {
    let mut config = sample_config();
    config.enrich_from_url("vless://u@h:1?security=reality&pbk=key&sid=id".to_string()).unwrap();
    assert_eq!(
        first_vless(&config).tls.as_ref().unwrap().reality,
        Some(RealityConfig { enabled: true, public_key: Some(text("key")), short_id: text("id") })
    );

    let mut config = sample_config();
    config.enrich_from_url("vless://u@h:1?pbk=key&sid=id".to_string()).unwrap();
    let tls = first_vless(&config).tls.clone().unwrap();
    assert!(tls.enabled);
    assert_eq!(tls.reality, None);

    let mut config = sample_config();
    assert_eq!(
        config.enrich_from_url("vless://u@h:1?security=tls&pbk=key&sid=id".to_string()),
        Ok(())
    );
    let tls = first_vless(&config).tls.clone().unwrap();
    assert!(tls.enabled);
    assert_eq!(tls.reality, None);
}

#[test]
fn reality_without_key_and_id_has_empty_ones() {
    let mut config = sample_config();
    config.enrich_from_url("vless://u@h:1?security=reality".to_string()).unwrap();
    assert_eq!(
        first_vless(&config).tls.as_ref().unwrap().reality,
        Some(RealityConfig { enabled: true, public_key: Some(String::new()), short_id: String::new() })
    );
}

#[test]
fn tls_is_built_anew() {
    let mut config = sample_config();
    config.enrich_from_url("vless://u@h:1".to_string()).unwrap();
    assert_eq!(
        first_vless(&config).tls,
        Some(TlsConfig { enabled: true, reality: None, server_name: String::new(), utls: None })
    );

    let mut config = sample_config();
    config.enrich_from_url("vless://u@h:1?fp=firefox".to_string()).unwrap();
    assert_eq!(
        first_vless(&config).tls.as_ref().unwrap().utls,
        Some(UtlsConfig { enabled: true, fingerprint: text("firefox") })
    );
}

#[test]
fn other_protocols_are_unsupported() {
    let before = sample_config();
    let mut after = before.clone();
    assert_eq!(
        after.enrich_from_url("trojan://u@host.tld:443".to_string()),
        Err(EnrichError::UnsupportedProtocol(text("trojan")))
    );
    assert_eq!(after, before);

    let link = parse_url(&"vless+ws://u@host.tld:443".to_string()).unwrap();
    assert_eq!(
        after.enrich_from_link(&link),
        Err(EnrichError::UnsupportedProtocol(text("vless+ws")))
    );
    assert_eq!(after, before);
}

#[test]
fn invalid_param_leaves_the_document() {
    let before = sample_config();
    let mut after = before.clone();
    assert_eq!(
        after.enrich_from_url("vless://u@host.tld:443?sni".to_string()),
        Err(EnrichError::Link(ParseError::InvalidParam(0)))
    );
    assert_eq!(after, before);
}

#[test]
fn get_vless_outbound_finds_or_adds() {
    let mut config = sample_config();
    let found = config.get_vless_outbound();
    assert_eq!(found, vless("wh3tduwc"));
    assert_eq!(config, sample_config());

    let mut config = config_with(vec![direct("direct-out")]);
    let added = config.get_vless_outbound();
    assert_eq!(added, VlessOutbound::default());
    assert_eq!(config.outbounds.len(), 2);
    assert_eq!(config.outbounds[1], Outbound::Vless(VlessOutbound::default()));
    let again = config.get_vless_outbound();
    assert_eq!(again, added);
    assert_eq!(config.outbounds.len(), 2);
}

#[test]
fn update_vless_outbound_replaces_in_place() {
    let mut config = config_with(vec![Outbound::Vless(vless("a")), direct("direct-out")]);
    config.update_vless_outbound(vless("b"));
    assert_eq!(config.outbounds, vec![Outbound::Vless(vless("b")), direct("direct-out")]);
}

#[test]
fn vless_enrich_keeps_tag_and_encoding() {
    let link = parse_url(&"vless://cred@example.org:8443?sni=sni.example.org".to_string()).unwrap();
    let mut outbound = vless("mine");
    outbound.enrich(&link);
    assert_eq!(outbound.tag, "mine");
    assert_eq!(outbound.packet_encoding, "xudp");
    assert_eq!(outbound.type_field, "vless");
    assert_eq!(outbound.server, "example.org");
    assert_eq!(outbound.server_port, 8443);
    assert_eq!(outbound.uuid, "cred");
    assert_eq!(outbound.tls.unwrap().server_name, "sni.example.org");
}

#[test]
fn defaults_hold_the_placeholder() {
    let outbound = VlessOutbound::default();
    assert_eq!(outbound.tag, "default");
    assert_eq!(outbound.uuid, "default");
    assert_eq!(outbound.server, "default");
    assert_eq!(outbound.packet_encoding, "default");
    assert_eq!(outbound.server_port, 0);
    assert_eq!(outbound.tls, None);
    assert_eq!(outbound.type_field, "vless");
    assert_eq!(DirectOutbound::default().type_field, "direct");
    assert_eq!(DnsOutbound::default().type_field, "dns");
    assert_eq!(DnsServer::default().tag, "default");
    assert!(Dns::default().servers.is_empty());
}
