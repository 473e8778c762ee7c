use lessvless::models::{Dns, DnsServer, Log, Route, SingBoxConfig};

fn server(address: &str, tag: &str) -> DnsServer {
    DnsServer { address: address.to_string(), tag: tag.to_string() }
}

fn config_with_servers(servers: Vec<DnsServer>) -> SingBoxConfig {
    SingBoxConfig {
        dns: Dns { final_field: "cloudflare-doh".to_string(), servers },
        inbounds: vec![],
        log: Log { level: "info".to_string(), timestamp: Some(true) },
        outbounds: vec![],
        route: Route {
            auto_detect_interface: false,
            default_domain_resolver: None,
            final_field: None,
            rules: vec![],
        },
    }
}

#[test]
fn address_is_appended_after_a_local_resolver() {
    let mut config = config_with_servers(vec![server("local", "system")]);
    assert_eq!(config.enrich_from_dns("https://1.1.1.1/dns-query".to_string()), Ok(()));
    assert_eq!(
        config.dns.servers,
        vec![server("local", "system"), server("https://1.1.1.1/dns-query", "default")]
    );

    assert_eq!(config.enrich_from_dns("https://8.8.8.8/dns-query".to_string()), Ok(()));
    assert_eq!(
        config.dns.servers,
        vec![server("local", "system"), server("https://8.8.8.8/dns-query", "default")]
    );
}

#[test]
fn address_overwrites_the_first_remote_resolver() {
    let mut config = config_with_servers(vec![
        server("local", "system"),
        server("https://1.1.1.1/dns-query", "cloudflare-doh"),
        server("tls://9.9.9.9", "quad9"),
    ]);
    config.enrich_from_dns("udp://10.0.0.1".to_string()).unwrap();
    assert_eq!(
        config.dns.servers,
        vec![
            server("local", "system"),
            server("udp://10.0.0.1", "cloudflare-doh"),
            server("tls://9.9.9.9", "quad9"),
        ]
    );
}

#[test]
fn address_is_appended_to_an_empty_list() {
    let mut config = config_with_servers(vec![]);
    config.enrich_from_dns("1.1.1.1".to_string()).unwrap();
    assert_eq!(config.dns.servers, vec![server("1.1.1.1", "default")]);
}

#[test]
fn same_address_twice_is_once() {
    let mut once = config_with_servers(vec![server("local", "system")]);
    once.enrich_from_dns("1.1.1.1".to_string()).unwrap();
    let mut twice = once.clone();
    twice.enrich_from_dns("1.1.1.1".to_string()).unwrap();
    assert_eq!(twice, once);
}

#[test]
fn local_address_is_appended_each_time() {
    let mut config = config_with_servers(vec![server("local", "system")]);
    config.enrich_from_dns("local".to_string()).unwrap();
    config.enrich_from_dns("local".to_string()).unwrap();
    assert_eq!(
        config.dns.servers,
        vec![server("local", "system"), server("local", "default"), server("local", "default")]
    );
}

#[test]
fn dns_enrichment_keeps_the_rest() {
    let before = config_with_servers(vec![server("local", "system")]);
    let mut after = before.clone();
    after.enrich_from_dns("1.1.1.1".to_string()).unwrap();
    assert_eq!(after.dns.final_field, before.dns.final_field);
    assert_eq!(after.inbounds, before.inbounds);
    assert_eq!(after.log, before.log);
    assert_eq!(after.outbounds, before.outbounds);
    assert_eq!(after.route, before.route);
}
