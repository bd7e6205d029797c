use kid_control3::activity::ActivityDetector;
use kid_control3::domain_rules::{classify_domains, get_category_chinese, match_domain, match_lowered_domain};

fn s(v: &[&str]) -> Vec<String> {
    v.iter().map(|x| x.to_string()).collect()
}

#[test]
fn classification_prefers_games() {
    let c = classify_domains(&s(&["www.xiaohongshu.com", "v.qq.com", "egg.fp.ps.netease.com"]));
    assert_eq!(c.category, "GAME_EGG");
    assert_eq!(c.name, "蛋仔派对");
    // v.qq.com falls under the qq.com exclusion
    assert_eq!(c.domains, s(&["egg.fp.ps.netease.com", "www.xiaohongshu.com"]));
}

#[test]
fn classification_of_nothing_is_none() {
    let c = classify_domains(&[]);
    assert_eq!(c.category, "NONE");
    assert_eq!(c.name, "其它");
    assert!(c.domains.is_empty());
    let c = classify_domains(&s(&["www.example.com", "sdk.xiaohongshu.com"]));
    assert_eq!(c.category, "NONE");
}

#[test]
fn classification_deduplicates_and_sorts() {
    let c = classify_domains(&s(&["xhscdn.com", "a.xiaohongshu.com", "xhscdn.com"]));
    assert_eq!(c.category, "XIAOHONGSHU");
    assert_eq!(c.domains, s(&["a.xiaohongshu.com", "xhscdn.com"]));
    let c = classify_domains(&s(&["hongguo.tv", "mff.gtimg.com"]));
    assert_eq!(c.category, "HONGGUO");
    assert_eq!(c.name, "红果短剧");
}

#[test]
fn matching_ignores_case_and_exclusions() {
    assert_eq!(match_domain("WWW.XHSCDN.COM"), Some("XIAOHONGSHU".to_string()));
    assert_eq!(match_domain("sdk.xiaohongshu.com"), None);
    assert_eq!(match_domain("login.preternatural.cn"), Some("GAME_PRETERNATURAL".to_string()));
    assert_eq!(match_domain("example.org"), None);
}

#[test]
fn category_names() {
    assert_eq!(get_category_chinese("HONGGUO"), "红果短剧");
    assert_eq!(get_category_chinese("TENCENT_VIDEO"), "腾讯视频");
    assert_eq!(get_category_chinese("SOMETHING"), "其它活动");
}

#[test]
fn decay_keeps_active_for_ten_rounds() {
    let mut d = ActivityDetector::new();
    let app = s(&["www.xiaohongshu.com"]);
    assert_eq!(d.detect_at("M", "1.1.1.1", 1000, "m".into(), "d".into(), app, 5, 200_000, false).result.status, "ACTIVE");
    for t in 0..10 {
        let out = d.detect_at("M", "1.1.1.1", 1060 + t * 60, "m".into(), "d".into(), vec![], 5, 200_000, false);
        assert_eq!(out.result.status, "ACTIVE");
        assert_eq!(out.window.activity_type, "none");
    }
    let out = d.detect_at("M", "1.1.1.1", 1660, "m".into(), "d".into(), vec![], 5, 200_000, false);
    assert_eq!(out.result.status, "IDLE");
    assert_eq!(out.window.video_score, 0);
}

#[test]
fn silence_forgets_last_activity() {
    let mut d = ActivityDetector::new();
    let app = s(&["www.xiaohongshu.com"]);
    d.detect_at("M", "ip", 1000, "m".into(), "d".into(), app, 5, 200_000, false);
    let out = d.detect_at("M", "ip", 1060, "m".into(), "d".into(), vec![], 0, 100, false);
    assert!(out.result.is_silent);
    assert_eq!(out.result.status, "IDLE");
    assert_eq!(d.device_state("M").silence_count, 1);
    assert!(d.device_state("M").last_active_ts.is_some());
    d.detect_at("M", "ip", 1120, "m".into(), "d".into(), vec![], 0, 100, false);
    assert_eq!(d.device_state("M").silence_count, 2);
    assert!(d.device_state("M").last_active_ts.is_none());
}

#[test]
fn detection_records_the_round() {
    let mut d = ActivityDetector::new();
    let out = d.detect_at(
        "M", "10.0.0.5", 5000, "2024-01-02T10:05:00".into(), "2024-01-02".into(),
        s(&["www.xiaohongshu.com", "a.example.com"]), 1, 60_000, false);
    assert!(out.result.has_dns);
    assert!(out.result.has_traffic);
    assert!(!out.result.has_conns);
    assert!(out.result.signal);
    assert_eq!(out.result.category, "XIAOHONGSHU");
    assert_eq!(out.result.name, "小红书");
    assert_eq!(out.window.ts, "2024-01-02T10:05:00");
    assert_eq!(out.window.date, "2024-01-02");
    assert_eq!(out.window.activity_type, "xiaohongshu");
    assert_eq!(out.window.video_score, 100);
    assert_eq!(out.window.dns_total_queries, 2);
    assert_eq!(out.window.video_domains, "[\"www.xiaohongshu.com\",\"a.example.com\"]");
    assert_eq!(out.window.video_platforms, "[\"www.xiaohongshu.com\"]");
    assert_eq!(out.session.platform, "小红书");
    assert_eq!(out.session.status, "ACTIVE");
    assert_eq!(out.session.domains, out.window.video_platforms);
}

#[test]
fn dns_memory_spans_one_minute() {
    let mut d = ActivityDetector::new();
    d.add_dns("M", 100, s(&["b.com", "a.com"]));
    d.add_dns("M", 150, s(&["a.com", "c.com"]));
    assert_eq!(d.get_cached_domains("M"), s(&["a.com", "b.com", "c.com"]));
    d.add_dns("M", 161, s(&["d.com"]));
    assert_eq!(d.get_cached_domains("M"), s(&["a.com", "c.com", "d.com"]));
    assert!(d.get_cached_domains("N").is_empty());
}

#[test]
fn byte_deltas_never_go_negative() {
    let mut d = ActivityDetector::new();
    assert_eq!(d.calc_bytes_delta("M", 1000), 1000);
    assert_eq!(d.calc_bytes_delta("M", 1500), 500);
    assert_eq!(d.calc_bytes_delta("M", 200), 0);
    assert_eq!(d.previous_bytes("M"), 200);
    assert_eq!(d.calc_bytes_delta("N", 7), 7);
}

#[test]
fn overflow_check_of_a_round() {
    let d = ActivityDetector::new();
    assert!(!d.round_overflows("M", &[], 0, 0, false));
}

#[test]
fn lowered_domains_are_matched_as_given() {
    assert_eq!(match_lowered_domain("www.xhscdn.com"), Some("XIAOHONGSHU".to_string()));
    assert_eq!(match_lowered_domain("login.preternatural.cn"), Some("GAME_PRETERNATURAL".to_string()));
    assert_eq!(match_lowered_domain("example.org"), None);
    assert_eq!(match_domain("WWW.XHSCDN.COM"), match_lowered_domain("www.xhscdn.com"));
}

#[test]
fn recorded_minute_and_date_have_their_shapes() {
    let mut d = ActivityDetector::new();
    let out = d.detect_and_record("M", "ip", 1_700_000_000, vec![], 0, 0, false);
    assert!(out.window.ts.ends_with(":00"));
    assert!(out.window.ts.contains('T'));
    assert!(!out.window.date.contains(':'));
    assert!(out.window.ts.starts_with(&out.window.date));
    assert_eq!(out.session.ts, out.window.ts);
}

#[test]
fn silence_ends_the_decay_window() {
    let mut d = ActivityDetector::new();
    let app = s(&["www.xiaohongshu.com"]);
    d.detect_at("M", "ip", 1000, "m".into(), "d".into(), app, 5, 200_000, false);
    let out = d.detect_at("M", "ip", 1060, "m".into(), "d".into(), vec![], 0, 100, false);
    assert!(out.result.is_silent);
    let out = d.detect_at("M", "ip", 1120, "m".into(), "d".into(), vec![], 5, 200_000, false);
    assert!(!out.result.signal && !out.result.is_silent);
    assert_eq!(out.result.status, "IDLE");
}

#[test]
fn checked_rounds_refuse_out_of_range_times() {
    let mut d = ActivityDetector::new();
    assert!(d.detect_checked("M", "ip", i64::MIN, vec![], 0, 0, false).is_none());
    assert_eq!(d.device_state("M").silence_count, 0);
    let out = d.detect_checked("M", "ip", 1_700_000_000, vec![], 0, 0, false).unwrap();
    assert_eq!(out.result.status, "IDLE");
    assert!(out.result.is_silent);
    assert_eq!(d.device_state("M").silence_count, 1);
}
