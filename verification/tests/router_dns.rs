use kid_control3::clock::Instant;
use kid_control3::dns::{accepts_domain, DnsCollector, DnsLogEntry};
use kid_control3::game_ips::{add_game_ip, get_game_ips, remove_game_domain, AddIpRequest, RemoveDomainRequest};
use kid_control3::ip_registry::GameIpRegistry;
use kid_control3::ros::{
    address_list_count, address_list_delete_paths, address_list_query, mac_ip_map, ros_base_url,
    ros_url, rule_patch_path, summarize_connections, ArpEntry, ConnEntry, FilterRule,
};

fn so(s: &str) -> Option<String> {
    Some(s.to_string())
}

#[test]
fn arp_table_by_uppercase_mac() {
    let rows = vec![
        ArpEntry { mac_address: so("aa:bb"), address: so("10.0.0.1") },
        ArpEntry { mac_address: so("cc:dd"), address: None },
        ArpEntry { mac_address: so("AA:BB"), address: so("10.0.0.2") },
    ];
    let m = mac_ip_map(&rows);
    assert_eq!(m.len(), 1);
    assert_eq!(m.get("AA:BB").map(|s| s.as_str()), Some("10.0.0.2"));
    assert!(m.get("CC:DD").is_none());
}

#[test]
fn connections_summed_up() {
    let rows = vec![
        ConnEntry { orig_bytes: so("100"), repl_bytes: so("50"), dst_address: so("8.8.8.8:443") },
        ConnEntry { orig_bytes: so("x"), repl_bytes: None, dst_address: so("1.1.1.1") },
        ConnEntry { orig_bytes: None, repl_bytes: so("7"), dst_address: so("8.8.8.8:80") },
        ConnEntry { orig_bytes: None, repl_bytes: None, dst_address: so(":9") },
    ];
    let d = summarize_connections(&rows);
    assert_eq!(d.total_bytes, 157);
    assert_eq!(d.conn_count, 4);
    assert_eq!(d.dst_ips, vec!["1.1.1.1".to_string(), "8.8.8.8".to_string()]);
}

#[test]
fn firewall_paths() {
    assert_eq!(address_list_query("block-tablet", "10.0.0.1"), "/ip/firewall/address-list?list=block-tablet&address=10.0.0.1");
    assert_eq!(address_list_count(Some(3)), 3);
    assert_eq!(address_list_count(None), -1);
    assert_eq!(
        address_list_delete_paths(&[so("*1"), None, so("*2")]),
        vec!["/ip/firewall/address-list/*1".to_string(), "/ip/firewall/address-list/*2".to_string()]
    );
    let rules = vec![
        FilterRule { comment: so("tab"), id: None },
        FilterRule { comment: None, id: so("*0") },
        FilterRule { comment: so("tab"), id: so("*5") },
        FilterRule { comment: so("tab"), id: so("*6") },
    ];
    assert_eq!(rule_patch_path(&rules, "tab"), so("/ipv6/firewall/filter/*5"));
    assert_eq!(rule_patch_path(&rules, ""), so("/ipv6/firewall/filter/*0"));
    assert_eq!(rule_patch_path(&rules, "none"), None);
    assert_eq!(ros_base_url("10.1.1.1", 80), "http://10.1.1.1:80/rest");
    assert_eq!(ros_url("http://r/rest", "/ip/arp"), "http://r/rest/ip/arp");
    assert_eq!(ros_url("http://r/rest", "ip/arp"), "http://r/rest/ip/arp");
}

fn entry(time: Option<&str>, ip: &str, name: Option<&str>, answers: &[&str]) -> DnsLogEntry {
    DnsLogEntry {
        query_time: time.map(|s| s.to_string()),
        client_ip: so(ip),
        query_name: name.map(|s| s.to_string()),
        answers: Some(answers.iter().map(|a| so(a)).collect()),
    }
}

#[test]
fn dns_log_filtered_for_one_device() {
    let mut c = DnsCollector::new("http://dns:9099");
    assert_eq!(c.audit_log_url(), "http://dns:9099/api/v1/audit/logs?limit=200");
    let entries = vec![
        entry(Some("2024-01-02T10:00:00+08:00"), "::ffff:10.0.0.5", Some("Old.Example.com"), &["1.1.1.1"]),
        entry(Some("2024-01-02T10:05:00+08:00"), "::ffff:10.0.0.5", Some("WWW.Xiaohongshu.com"), &["::ffff:2.2.2.2", "3.3.3.3"]),
        entry(None, "10.0.0.6", Some("other.com"), &["9.9.9.9"]),
        entry(None, "10.0.0.5", Some("www.xiaohongshu.com"), &["4.4.4.4"]),
        entry(None, "10.0.0.5", Some("5.0.0.10.in-addr.arpa"), &["5.5.5.5"]),
        entry(Some("not a time"), "10.0.0.5", None, &["3.3.3.3", "", "6.6.6.6"]),
    ];
    let cutoff = Instant { secs: 1704160980, nanos: 0 }; // 2024-01-02T10:03:00+08:00
    let domains = c.take_recent_domains(&entries, "10.0.0.5", &cutoff);
    assert_eq!(domains, vec!["www.xiaohongshu.com".to_string()]);
    assert_eq!(c.get_last_answers(), vec!["2.2.2.2".to_string(), "3.3.3.3".to_string(), "6.6.6.6".to_string()]);
}

#[test]
fn registry_page_operations() {
    let mut reg = GameIpRegistry::default_registry();
    let list = get_game_ips(&reg);
    assert_eq!(list.total, 5);
    assert_eq!(list.domains, reg.domains);
    assert_eq!(list.ips[0].addr, "114.117.128.0/23");
    let r = add_game_ip(&mut reg, &AddIpRequest { addr: "1.2.3.4".into(), label: None });
    assert!(r.ok);
    assert_eq!(r.message, "已添加: 1.2.3.4");
    let r = add_game_ip(&mut reg, &AddIpRequest { addr: "1.2.3.4".into(), label: None });
    assert!(!r.ok);
    assert_eq!(r.message, "已存在: 1.2.3.4");
    let r = remove_game_domain(&mut reg, &RemoveDomainRequest { domain: "nothing.cn".into() });
    assert!(!r.ok);
    assert_eq!(r.message, "未找到: nothing.cn");
}

#[test]
fn lowered_query_names_are_filtered() {
    let kept = vec!["a.com".to_string()];
    assert!(accepts_domain(&kept, "b.com"));
    assert!(!accepts_domain(&kept, "a.com"));
    assert!(!accepts_domain(&kept, ""));
    assert!(!accepts_domain(&kept, "1.0.0.10.in-addr.arpa"));
    assert!(!accepts_domain(&kept, "x.ip6.arpa"));
}
