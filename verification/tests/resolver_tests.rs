use snimap::config::Mapping;
use snimap::resolver::{
    addr_from_lookup_html, capture_ip_from_html_plain, parse_ipv4, ResolvedAddr, SniMapResolver,
};
use snimap::snimap::SniMap;

#[test]
fn regex_from_html_get_ip() {
    let html =
        r#"<a href="https://www.ipaddress.com/ipv4/220.181.38.251">220.181.38.251</a>"#.to_string();
    assert_eq!(
        capture_ip_from_html_plain(&html),
        Some("220.181.38.251".to_string())
    );
    let html = r#"<a href="https://www.ipaddress.com/ipv4/">"#.to_string();
    assert_eq!(capture_ip_from_html_plain(&html), None);
}

#[test]
fn regex_from_html_get_ip_is_ok() {
    let html = r#"<a href="https://www.ipaddress.com/ipv4/220.181.38.251">220.181.38.251</a>"#;
    assert_eq!(
        capture_ip_from_html_plain(html),
        Some("220.181.38.251".to_string())
    );
    let html = r#"<a href="https://www.ipaddress.com/ipv4/">"#;
    assert_eq!(capture_ip_from_html_plain(html), None);
}

#[test]
fn lookup_html_yields_endpoint() {
    let html = r#"<a href="https://www.ipaddress.com/ipv4/220.181.38.251">220.181.38.251</a>"#;
    let addr = addr_from_lookup_html(html, 443).unwrap();
    assert_eq!(addr.ip, "220.181.38.251".to_string());
    assert_eq!(addr.port, 443);
    assert_eq!(addr_from_lookup_html("no address here", 443), None);
}

#[test]
fn parse_ipv4_accepts_dotted_quads() {
    assert_eq!(parse_ipv4("220.181.38.251"), Some(0xDCB526FB));
    assert_eq!(parse_ipv4("0.0.0.0"), Some(0));
    assert_eq!(parse_ipv4("255.255.255.255"), Some(u32::MAX));
    assert_eq!(parse_ipv4("127.0.0.1"), Some(0x7F000001));
}

#[test]
fn parse_ipv4_rejects_malformed_text() {
    assert_eq!(parse_ipv4(""), None);
    assert_eq!(parse_ipv4("1.2.3"), None);
    assert_eq!(parse_ipv4("1.2.3.4.5"), None);
    assert_eq!(parse_ipv4("256.1.1.1"), None);
    assert_eq!(parse_ipv4("999.1.1.1"), None);
    assert_eq!(parse_ipv4("01.2.3.4"), None);
    assert_eq!(parse_ipv4("a.b.c.d"), None);
    assert_eq!(parse_ipv4("1..2.3"), None);
    assert_eq!(parse_ipv4("2001:db8::1"), None);
}

#[test]
fn whitelist_is_exactly_the_snimap_hostnames() {
    let mut snimap: SniMap = SniMap::from_mapping(
        Mapping::new("pixiv.net").override_sni("www.fanbox.cc"),
    );
    snimap.merge(SniMap::from_mapping(Mapping::new("duck.com")));
    let resolver = SniMapResolver::from_snimap(&snimap);
    assert!(resolver.is_whitelisted("pixiv.net"));
    assert!(resolver.is_whitelisted("duck.com"));
    assert!(!resolver.is_whitelisted("www.fanbox.cc"));
    assert!(resolver.knows("www.fanbox.cc"));
    assert!(!resolver.knows("example.com"));
}

#[test]
fn fronting_name_that_is_also_an_origin_stays_whitelisted() {
    let mut snimap: SniMap = SniMap::from_mapping(
        Mapping::new("pixiv.net").override_sni("www.fanbox.cc"),
    );
    snimap.merge(SniMap::from_mapping(Mapping::new("www.fanbox.cc")));
    let resolver = SniMapResolver::from_snimap(&snimap);
    assert!(resolver.is_whitelisted("www.fanbox.cc"));
}

#[test]
fn first_cached_address_wins() {
    let snimap: SniMap = SniMap::from_mapping(Mapping::new("a.test"));
    let mut resolver = SniMapResolver::from_snimap(&snimap);
    assert_eq!(resolver.cached("a.test"), None);
    resolver.commit(
        "a.test",
        ResolvedAddr {
            ip: "1.2.3.4".to_string(),
            port: 443,
        },
    );
    resolver.commit(
        "a.test",
        ResolvedAddr {
            ip: "5.6.7.8".to_string(),
            port: 443,
        },
    );
    let cached = resolver.cached("a.test").unwrap();
    assert_eq!(cached.ip, "1.2.3.4".to_string());
    assert_eq!(cached.port, 443);
    let again = resolver.cached("a.test").unwrap();
    assert_eq!(again.ip, "1.2.3.4".to_string());
}

#[test]
fn cache_is_per_hostname() {
    let snimap: SniMap = SniMap::from_mapping(Mapping::new("a.test"));
    let mut resolver = SniMapResolver::from_snimap(&snimap);
    resolver.commit(
        "a.test",
        ResolvedAddr {
            ip: "1.2.3.4".to_string(),
            port: 443,
        },
    );
    assert_eq!(resolver.cached("b.test"), None);
}

#[test]
fn cache_keys_are_lowercased() {
    let snimap: SniMap = SniMap::from_mapping(Mapping::new("Duck.COM"));
    let mut resolver = SniMapResolver::from_snimap(&snimap);
    resolver.commit(
        "Duck.COM",
        ResolvedAddr {
            ip: "1.2.3.4".to_string(),
            port: 443,
        },
    );
    let via_lower = resolver.cached("duck.com").unwrap();
    assert_eq!(via_lower.ip, "1.2.3.4".to_string());
    let via_upper = resolver.cached("DUCK.com").unwrap();
    assert_eq!(via_upper.ip, "1.2.3.4".to_string());
}

#[test]
fn unknown_hostname_is_never_cached() {
    let snimap: SniMap = SniMap::from_mapping(Mapping::new("a.test"));
    let mut resolver = SniMapResolver::from_snimap(&snimap);
    resolver.commit(
        "other.test",
        ResolvedAddr {
            ip: "1.2.3.4".to_string(),
            port: 443,
        },
    );
    assert_eq!(resolver.cached("other.test"), None);
}

#[test]
fn cache_takes_no_new_hostname_past_its_bound() {
    let mut snimap = SniMap::new();
    for i in 0..1025 {
        snimap.insert(format!("h{i}.test"), snimap::config::Sni::Disable);
    }
    let mut resolver = SniMapResolver::from_snimap(&snimap);
    for i in 0..1025 {
        resolver.commit(
            &format!("h{i}.test"),
            ResolvedAddr {
                ip: "1.2.3.4".to_string(),
                port: 443,
            },
        );
    }
    assert!(resolver.cached("h0.test").is_some());
    assert!(resolver.cached("h1023.test").is_some());
    assert_eq!(resolver.cached("h1024.test"), None);
}
