use kid_control3::ip_registry::{cidr_match, domain_match, parse_ipv4, GameIpRegistry};

#[test]
fn test_cidr_match() {
    assert!(cidr_match("114.117.128.5", "114.117.128.0/23"));
    assert!(cidr_match("114.117.129.50", "114.117.128.0/23"));
    assert!(!cidr_match("114.117.130.5", "114.117.128.0/23"));
    assert!(cidr_match("211.95.155.129", "211.95.155.0/24"));
    assert!(!cidr_match("211.95.156.1", "211.95.155.0/24"));
}

#[test]
fn test_domain_match() {
    assert!(domain_match("file.preternatural.cn", "*.preternatural.cn"));
    assert!(domain_match("login.preternatural.cn", "*.preternatural.cn"));
    assert!(!domain_match("other.example.com", "*.preternatural.cn"));
}

#[test]
fn test_registry_ops() {
    let mut reg = GameIpRegistry::default_registry();
    assert!(reg.is_game_ip("122.9.145.84"));
    assert!(reg.is_game_ip("114.117.129.50"));
    assert!(!reg.is_game_ip("8.8.8.8"));

    assert!(reg.add_manual("1.2.3.4", Some("test")));
    assert!(reg.is_game_ip("1.2.3.4"));
    assert!(!reg.add_manual("1.2.3.4", None));
    assert!(reg.remove("1.2.3.4"));
    assert!(!reg.is_game_ip("1.2.3.4"));
}

#[test]
fn parse_ipv4_shifts_octets() {
    assert_eq!(parse_ipv4("1.2.3.4"), Some(0x01020304));
    assert_eq!(parse_ipv4("255.255.255.255"), Some(u32::MAX));
    assert_eq!(parse_ipv4("1.2.3"), None);
    assert_eq!(parse_ipv4("1.2.3.x"), None);
    assert_eq!(parse_ipv4("+1.2.3.4"), Some(0x01020304));
    // an octet above 255 mixes into its neighbour, as the plain shift-and-or does
    assert_eq!(parse_ipv4("0.0.1.256"), Some(0x0000_0100 | 256));
}

#[test]
fn cidr_edge_cases() {
    assert!(cidr_match("8.8.8.8", "0.0.0.0/0"));
    assert!(cidr_match("10.0.0.1", "10.0.0.1/32"));
    assert!(!cidr_match("10.0.0.2", "10.0.0.1/32"));
    assert!(!cidr_match("10.0.0.1", "10.0.0.0/x"));
    assert!(!cidr_match("bad", "10.0.0.0/8"));
    assert!(cidr_match("a/b/c", "a/b/c"));
}

#[test]
fn wildcard_patterns_strip_every_prefix() {
    assert!(domain_match("preternatural.cn", "*.*.preternatural.cn"));
    assert!(domain_match("x.preternatural.cn", "preternatural.cn"));
    assert!(!domain_match("xpreternatural.cn", "preternatural.cn"));
}

#[test]
fn lookup_defined_except_for_long_masks() {
    let mut reg = GameIpRegistry::default_registry();
    assert!(reg.lookup_is_defined("1.1.1.1"));
    assert!(reg.add_manual("9.9.9.0/40", None));
    assert!(!reg.lookup_is_defined("1.1.1.1"));
    // a match before the faulty entry is found first
    assert!(reg.lookup_is_defined("122.9.145.84"));
}

#[test]
fn registry_domains_are_lowercased_and_unique() {
    let mut reg = GameIpRegistry::default_registry();
    assert!(reg.add_domain("Game.Example.COM"));
    assert!(!reg.add_domain("game.example.com"));
    assert_eq!(reg.domains.last().map(|s| s.as_str()), Some("game.example.com"));
    assert!(reg.remove_domain("GAME.example.com"));
    assert!(!reg.remove_domain("game.example.com"));
    assert_eq!(reg.domains.len(), 2);
}

#[test]
fn add_then_remove_restores_entries() {
    let mut reg = GameIpRegistry::default_registry();
    let before: Vec<String> = reg.ips.iter().map(|e| e.addr.clone()).collect();
    assert!(reg.add_manual("5.6.7.8", Some("x")));
    assert_eq!(reg.ips.last().unwrap().source, "manual");
    assert!(reg.remove("5.6.7.8"));
    let after: Vec<String> = reg.ips.iter().map(|e| e.addr.clone()).collect();
    assert_eq!(before, after);
}

#[test]
fn discovery_from_dns_needs_a_game_domain() {
    let mut reg = GameIpRegistry::default_registry();
    let answers = vec!["1.1.1.1".to_string(), "::".to_string(), "".to_string(), "1.1.1.1".to_string()];
    assert!(!reg.auto_discover_from_dns(&["www.example.com".to_string()], &answers));
    assert_eq!(reg.ips.len(), 5);
    assert!(reg.auto_discover_from_dns(&["Login.Preternatural.CN".to_string()], &answers));
    assert_eq!(reg.ips.len(), 6);
    assert_eq!(reg.ips[5].addr, "1.1.1.1");
    assert_eq!(reg.ips[5].source, "auto");
    assert_eq!(reg.auto_ips().len(), 1);
    assert_eq!(reg.manual_ips().len(), 5);
}

#[test]
fn discovery_from_connections_skips_private_targets() {
    let mut reg = GameIpRegistry::default_registry();
    let dst = vec![
        "10.1.1.1".to_string(),
        "192.168.0.2".to_string(),
        "172.16.0.1".to_string(),
        "".to_string(),
        "122.9.145.84".to_string(),
        "203.0.113.7".to_string(),
    ];
    assert!(!reg.auto_discover_from_conn(&dst, false));
    assert!(reg.auto_discover_from_conn(&dst, true));
    assert_eq!(reg.ips.len(), 6);
    assert_eq!(reg.ips[5].addr, "203.0.113.7");
    assert!(!reg.auto_discover_from_conn(&dst, true));
}

#[test]
fn lowered_domain_patterns() {
    let mut r = GameIpRegistry { domains: vec![], ips: vec![] };
    assert!(r.add_lowered_domain("preternatural.cn".to_string()));
    assert!(!r.add_lowered_domain("preternatural.cn".to_string()));
    assert!(r.matches_lowered_game_domain(&["login.preternatural.cn".to_string()]));
    assert!(!r.matches_lowered_game_domain(&["example.org".to_string()]));
    assert!(r.add_domain("Login.Preternatural.CN"));
    assert_eq!(r.domains, vec!["preternatural.cn".to_string(), "login.preternatural.cn".to_string()]);
    assert!(r.remove_lowered_domain("login.preternatural.cn"));
    assert!(!r.remove_lowered_domain("login.preternatural.cn"));
    assert!(r.remove_domain("PRETERNATURAL.CN"));
    assert!(r.domains.is_empty());
}

#[test]
fn manual_and_auto_entries_partition_the_registry() {
    let r = GameIpRegistry::default_registry();
    assert_eq!(r.manual_ips().len(), 5);
    assert_eq!(r.manual_ips().len() + r.auto_ips().len(), r.ips.len());
    assert!(r.manual_ips().iter().all(|e| e.source == "manual"));
}
