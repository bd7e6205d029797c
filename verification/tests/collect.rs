use kid_control3::activity::ActivityDetector;
use kid_control3::control::should_force_idle;
use kid_control3::models::VideoWindow;
use kid_control3::usage::get_daily_active_minutes;

const MAC: &str = "AA:BB:CC:DD:EE:FF";

fn ts_at(hour: u32, minute: u32) -> i64 {
    chrono::Local::now()
        .date_naive()
        .and_hms_opt(hour, minute, 0)
        .and_then(|dt| dt.and_local_timezone(chrono::Local).single())
        .expect("a local time")
        .timestamp()
}

fn collect_once(
    detector: &mut ActivityDetector,
    db: &mut Vec<VideoWindow>,
    ts: i64,
    dns: Vec<String>,
    force_idle: bool,
) -> String {
    let out = detector.detect_and_record(MAC, "10.1.1.9", ts, dns, 5, 200_000, force_idle);
    db.push(out.window);
    out.result.status
}

fn active_minutes(db: &[VideoWindow], date: &str) -> i64 {
    let day: Vec<VideoWindow> =
        db.iter().filter(|w| w.mac == MAC && w.date == date).cloned().collect();
    get_daily_active_minutes(&day).0
}

#[test]
fn force_idle_when_paused() {
    assert!(should_force_idle(false, true));
}

#[test]
fn force_idle_when_blocked() {
    assert!(should_force_idle(true, false));
}

#[test]
fn no_force_idle_when_allowed() {
    assert!(!should_force_idle(false, false));
}

#[test]
fn signal_counts_as_active() {
    let mut db = Vec::new();
    let today = chrono::Local::now().format("%Y-%m-%d").to_string();
    let mut detector = ActivityDetector::new();

    let status = collect_once(
        &mut detector, &mut db, ts_at(10, 0), vec!["www.xiaohongshu.com".to_string()], false);
    assert_eq!(status, "ACTIVE");
    assert_eq!(active_minutes(&db, &today), 1);
}

#[test]
fn force_idle_does_not_count_toward_usage() {
    let mut db = Vec::new();
    let today = chrono::Local::now().format("%Y-%m-%d").to_string();
    let mut detector = ActivityDetector::new();

    let status = collect_once(
        &mut detector, &mut db, ts_at(10, 0), vec!["www.xiaohongshu.com".to_string()], true);
    assert_eq!(status, "IDLE");
    assert_eq!(active_minutes(&db, &today), 0);
}

#[test]
fn force_idle_resets_decay_window() {
    let mut db = Vec::new();
    let today = chrono::Local::now().format("%Y-%m-%d").to_string();
    let mut detector = ActivityDetector::new();
    let dns = vec!["www.xiaohongshu.com".to_string()];

    assert_eq!(collect_once(&mut detector, &mut db, ts_at(10, 0), dns.clone(), false), "ACTIVE");
    assert_eq!(collect_once(&mut detector, &mut db, ts_at(10, 1), dns, true), "IDLE");
    assert_eq!(collect_once(&mut detector, &mut db, ts_at(10, 2), vec![], false), "IDLE");
    assert_eq!(active_minutes(&db, &today), 1);
}
