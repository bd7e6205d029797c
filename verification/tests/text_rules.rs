use kid_control3::json::json_list_or_empty;
use kid_control3::dashboard::{clock_time, video_windows_query_ok};
use kid_control3::numtext::{i64_text, parse_i64, parse_u32};
use kid_control3::order::sorted_distinct;
use kid_control3::settings::{
    block_list_name, get_current_limit, get_daily_limit, get_i64, is_true, limit_override_key,
    normalize_service_url, points_config_key, switch_state,
};
use kid_control3::text::str_chars;
use kid_control3::usage::get_daily_active_minutes;
use kid_control3::models::VideoWindow;

fn c(s: &str) -> Vec<char> {
    str_chars(s)
}

#[test]
fn numbers_read_like_parse() {
    assert_eq!(parse_i64(&c("42")), Some(42));
    assert_eq!(parse_i64(&c("+42")), Some(42));
    assert_eq!(parse_i64(&c("-42")), Some(-42));
    assert_eq!(parse_i64(&c("-9223372036854775808")), Some(i64::MIN));
    assert_eq!(parse_i64(&c("9223372036854775808")), None);
    assert_eq!(parse_i64(&c("")), None);
    assert_eq!(parse_i64(&c("-")), None);
    assert_eq!(parse_i64(&c("4 2")), None);
    assert_eq!(parse_u32(&c("4294967295")), Some(u32::MAX));
    assert_eq!(parse_u32(&c("4294967296")), None);
    assert_eq!(parse_u32(&c("-1")), None);
    assert_eq!(parse_u32(&c("007")), Some(7));
    for s in ["12", "+3", "-0", "x", "99999999999999999999", ""] {
        assert_eq!(parse_i64(&c(s)), s.parse::<i64>().ok(), "{}", s);
        assert_eq!(parse_u32(&c(s)), s.parse::<u32>().ok(), "{}", s);
    }
}

#[test]
fn numbers_write_like_to_string() {
    for n in [0i64, 7, -7, 10, 1234567890, i64::MAX, i64::MIN] {
        assert_eq!(i64_text(n), n.to_string());
        assert_eq!(parse_i64(&c(&i64_text(n))), Some(n));
    }
}

#[test]
fn sorted_distinct_strings() {
    let v: Vec<String> = ["b", "a", "b", "ab", ""].iter().map(|s| s.to_string()).collect();
    let mut expected = v.clone();
    expected.sort();
    expected.dedup();
    assert_eq!(sorted_distinct(&v), expected);
}

#[test]
fn settings_defaults_and_overrides() {
    assert_eq!(get_i64(&Some("15".into()), 60), 15);
    assert_eq!(get_i64(&Some("x".into()), 60), 60);
    assert_eq!(get_i64(&None, 60), 60);
    assert_eq!(get_daily_limit(&None), 3600);
    assert_eq!(get_daily_limit(&Some("90".into())), 5400);
    assert_eq!(get_current_limit(&Some("0".into()), 3600), 0);
    assert_eq!(get_current_limit(&Some("oops".into()), 3600), 3600);
    assert_eq!(get_current_limit(&None, 3600), 3600);
    assert_eq!(limit_override_key("AA:BB", "2024-01-02"), "LIMIT_OVERRIDE_AA:BB_2024-01-02");
    assert_eq!(points_config_key(12), "POINTS_CONFIG_USER_12");
    assert!(is_true(&Some("true".into())));
    assert!(!is_true(&Some("TRUE".into())));
    assert_eq!(switch_state(&Some("no".into())), Some(false));
    assert_eq!(switch_state(&None), None);
    assert_eq!(block_list_name(None), "block-tablet");
    assert_eq!(normalize_service_url("10.0.0.1:9099"), "http://10.0.0.1:9099");
    assert_eq!(normalize_service_url("https://dns"), "https://dns");
}

#[test]
fn clock_time_of_minute_texts() {
    assert_eq!(clock_time("2024-01-02T10:05:00"), "10:05");
    assert_eq!(clock_time("2024-01-02"), "");
    assert_eq!(clock_time("xT10:0"), "");
    assert_eq!(clock_time("xT一二T"), "");
    assert!(video_windows_query_ok("m", "d"));
    assert!(!video_windows_query_ok("", "d"));
}

fn w(status: &str, kind: &str) -> VideoWindow {
    VideoWindow {
        ts: String::new(),
        date: String::new(),
        mac: String::new(),
        ip: String::new(),
        download_bytes: 0,
        dns_total_queries: 0,
        video_domains: String::new(),
        video_platforms: String::new(),
        video_score: 0,
        video_status: status.into(),
        activity_type: kind.into(),
    }
}

#[test]
fn daily_minutes_by_kind() {
    let ws = vec![
        w("ACTIVE", "game_egg"),
        w("ACTIVE", "xiaohongshu"),
        w("ACTIVE", "none"),
        w("ACTIVE", "other"),
        w("IDLE", "game_egg"),
    ];
    assert_eq!(get_daily_active_minutes(&ws), (4, 1, 1));
    assert_eq!(get_daily_active_minutes(&[]), (0, 0, 0));
}

#[test]
fn string_lists_as_json() {
    assert_eq!(json_list_or_empty(&[]), "[]");
    assert_eq!(json_list_or_empty(&["a".to_string(), "b".to_string()]), r#"["a","b"]"#);
    let odd = "q\"b\\s\n\t\r\u{8}\u{c}\u{1}\u{1f}é/".to_string();
    assert_eq!(json_list_or_empty(&[odd]), r#"["q\"b\\s\n\t\r\b\f\u0001\u001fé/"]"#);
}

#[test]
fn control_page_lines() {
    let s = kid_control3::dashboard::control_status("AA", "pad", "10.0.0.2", false, Some(false), 5, 3600, 1);
    assert!(s.online && s.blocked);
    assert_eq!(s.usage_sec, 300);
    assert_eq!(s.reason, "开关关闭 → 封禁");
    let s = kid_control3::dashboard::control_status("AA", "pad", "", true, None, 70, 3600, 0);
    assert!(!s.online && !s.blocked);
    assert_eq!(s.reason, "大人模式 → 放行");
    let s = kid_control3::dashboard::control_status("AA", "pad", "10.0.0.2", false, None, 60, 3600, 0);
    assert_eq!(s.reason, "超限 → 封禁");
}
