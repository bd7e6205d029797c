use kid_control3::control::{
    block_state_parts, decide_device, need_arp, parse_block_state, plan_adjust, plan_pause, plan_switch,
    refresh_step, resolve_ip, AdjustRequest, FirewallAction, FirewallState, LimitWrite,
    PauseRequest, RefreshOutcome, SwitchRequest,
};
use kid_control3::models::{PointRequest, User};
use kid_control3::points::{
    apply_error_message, approval_description, decide_apply, earn_description,
    exchange_description, exchange_error_message, exchange_message, get_user_points_balance, insufficient_message,
    plan_approval, plan_exchange, plan_set_points, quota_used_in, ApproveRequest, points_for_request, request_status, set_points_message,
    ApplyError, ApplyPointsRequest, ExchangeError, ExchangeRequest, LedgerEntry, SetPointsError,
    SetPointsRequest,
};
use kid_control3::telegram::{
    approval_request_text, batch_offset, callback_data, callback_result_text, next_offset, parse_callback,
    plan_callback, rejection_text, type_label,
};

#[test]
fn device_decisions() {
    let d = decide_device(true, Some(false), 0, 100);
    assert_eq!(d.action, FirewallAction::Unblock);
    assert_eq!(d.reason, "大人模式 → 放行");
    let d = decide_device(false, Some(false), 3600, 0);
    assert_eq!(d.action, FirewallAction::Block);
    assert_eq!(d.reason, "开关关闭 → 封禁");
    let d = decide_device(false, None, 3600, 60);
    assert_eq!(d.action, FirewallAction::Block);
    assert_eq!(d.reason, "超限 → 封禁");
    let d = decide_device(false, Some(true), 3600, 59);
    assert_eq!(d.action, FirewallAction::Unblock);
    assert_eq!(d.reason, "放行");
    let d = decide_device(false, None, -1, 1_000_000);
    assert_eq!(d.action, FirewallAction::Unblock);
}

#[test]
fn addresses_from_config_or_arp() {
    let arp = "10.0.0.9".to_string();
    assert_eq!(resolve_ip("", Some(&arp)), "10.0.0.9");
    assert_eq!(resolve_ip("", None), "");
    assert_eq!(resolve_ip("10.0.0.1", Some(&arp)), "10.0.0.1");
    assert!(need_arp(&["1.1.1.1".to_string(), String::new()]));
    assert!(!need_arp(&["1.1.1.1".to_string()]));
}

#[test]
fn firewall_told_only_of_changes() {
    let mut fw = FirewallState::new();
    assert!(fw.needs_change("M", true));
    fw.record("M", true);
    assert!(!fw.needs_change("M", true));
    assert!(fw.needs_change("M", false));
    assert_eq!(fw.applied_state("M"), Some(true));
    let plan = fw.persist_plan("M", &None).unwrap();
    assert_eq!(plan.0, "BLOCK_STATE_M");
    assert_eq!(plan.1, "true");
    assert!(fw.persist_plan("M", &Some("true".into())).is_none());
    assert!(fw.persist_plan("N", &None).is_none());
}

#[test]
fn block_states_restore_from_settings() {
    assert_eq!(parse_block_state("BLOCK_STATE_aa:bb", "true"), Some(("AA:BB".to_string(), true)));
    assert_eq!(parse_block_state("BLOCK_STATE_AA", "yes"), None);
    assert_eq!(parse_block_state("PAUSE_AA", "true"), None);
    let mut fw = FirewallState::new();
    fw.load_block_states(&[
        ("BLOCK_STATE_aa".to_string(), "false".to_string()),
        ("DAILY_LIMIT".to_string(), "60".to_string()),
        ("BLOCK_STATE_AA".to_string(), "true".to_string()),
    ]);
    assert_eq!(fw.applied_state("AA"), Some(true));
    assert_eq!(fw.applied_state("DAILY_LIMIT"), None);
}

#[test]
fn adjusting_the_allowance() {
    let set = AdjustRequest { mac: "m".into(), delta: 0, set_remaining_min: Some(30) };
    let (v, w) = plan_adjust(&set, "M", "2024-01-02", 3600, 600, 3600);
    assert_eq!(v, 2400);
    match w {
        LimitWrite::Store(k, val) => {
            assert_eq!(k, "LIMIT_OVERRIDE_M_2024-01-02");
            assert_eq!(val, "2400");
        }
        LimitWrite::Delete(_) => panic!("expected a stored override"),
    }
    let neg = AdjustRequest { mac: "m".into(), delta: 0, set_remaining_min: Some(-5) };
    assert_eq!(plan_adjust(&neg, "M", "d", 3600, 600, 3600).0, 600);
    let back = AdjustRequest { mac: "m".into(), delta: -1800, set_remaining_min: None };
    let (v, w) = plan_adjust(&back, "M", "d", 5400, 100, 3600);
    assert_eq!(v, 3600);
    assert!(matches!(w, LimitWrite::Delete(_)));
    let floor = AdjustRequest { mac: "m".into(), delta: -100_000, set_remaining_min: None };
    assert_eq!(plan_adjust(&floor, "M", "d", 60, 0, 3600).0, 0);
    let (k, v, blocked) = plan_switch(&SwitchRequest { mac: "m".into(), enabled: false }, "M");
    assert_eq!((k.as_str(), v.as_str(), blocked), ("SWITCH_M", "false", true));
    let (k, v) = plan_pause(&PauseRequest { mac: "m".into(), paused: true }, "M");
    assert_eq!((k.as_str(), v.as_str()), ("PAUSE_M", "true"));
}

#[test]
fn refresh_loop_backs_off_after_three_failures() {
    let s = refresh_step(0, RefreshOutcome::Failed);
    assert_eq!((s.failures, s.long_pause), (1, false));
    let s = refresh_step(2, RefreshOutcome::Failed);
    assert_eq!((s.failures, s.long_pause), (0, true));
    let s = refresh_step(5, RefreshOutcome::TimedOut);
    assert_eq!((s.failures, s.long_pause), (6, false));
    let s = refresh_step(5, RefreshOutcome::Fresh);
    assert_eq!((s.failures, s.long_pause), (0, false));
}

fn e(t: &str, p: i64) -> LedgerEntry {
    LedgerEntry { tx_type: t.into(), points: p }
}

#[test]
fn balances_from_the_ledger() {
    assert_eq!(get_user_points_balance(&[]), 0);
    assert_eq!(get_user_points_balance(&[e("earn", 30), e("exchange", 10), e("spend", 5)]), 15);
    assert_eq!(get_user_points_balance(&[e("earn", i64::MAX), e("earn", 1)]), 0);
    assert_eq!(get_user_points_balance(&[e("spend", i64::MIN)]), 0);
    assert_eq!(get_user_points_balance(&[e("spend", 1), e("spend", i64::MIN)]), i64::MAX);
}

fn user(tablet: Option<&str>) -> User {
    User {
        id: 2,
        username: "lisa".into(),
        display_name: "L".into(),
        role: "lisa".into(),
        tablet_key: tablet.map(|s| s.to_string()),
    }
}

#[test]
fn asking_for_points() {
    let req = |t: &str| ApplyPointsRequest { user_id: 2, request_type: t.into() };
    let u = user(Some("lisa"));
    assert_eq!(decide_apply(&req("sleep"), false, Some(&u), None), Err(ApplyError::InvalidType));
    assert_eq!(decide_apply(&req("homework"), true, Some(&u), None), Err(ApplyError::QuotaUsed));
    assert_eq!(decide_apply(&req("homework"), false, None, None), Err(ApplyError::NoUser));
    assert_eq!(decide_apply(&req("tutoring"), false, Some(&u), None), Ok(60));
    assert_eq!(decide_apply(&req("homework"), false, Some(&u), Some(45)), Ok(45));
    assert_eq!(decide_apply(&req("other"), false, Some(&u), Some(0)), Err(ApplyError::InvalidPoints));
    assert_eq!(decide_apply(&req("tutoring"), false, Some(&user(None)), Some(99)), Ok(30));
    assert_eq!(points_for_request("other", true, None), 30);
    assert_eq!(apply_error_message(ApplyError::QuotaUsed), "该类型本周已申请过，请下周再试");
}

#[test]
fn approving_requests() {
    assert_eq!(request_status("approve"), "approved");
    assert_eq!(request_status("reject"), "rejected");
    assert_eq!(approval_description("homework", 30), "homework +30分");
    assert_eq!(earn_description("homework"), "homework积分");
}

#[test]
fn exchanging_points() {
    let req = ExchangeRequest { user_id: 2, points: 30 };
    assert_eq!(plan_exchange(20, &req, true, Some("M"), 3600, "d").err(), Some(ExchangeError::Insufficient));
    assert_eq!(plan_exchange(40, &req, false, Some("M"), 3600, "d").err(), Some(ExchangeError::NoUser));
    assert_eq!(plan_exchange(40, &req, true, None, 3600, "d").err(), Some(ExchangeError::NoTablet));
    let p = plan_exchange(40, &req, true, Some("M"), 3600, "2024-01-02").ok().unwrap();
    assert_eq!(p.minutes, 30);
    assert_eq!(p.new_limit_sec, 5400);
    assert_eq!(p.override_key, "LIMIT_OVERRIDE_M_2024-01-02");
    assert_eq!(p.override_value, "5400");
    let p = plan_exchange(100, &ExchangeRequest { user_id: 2, points: 60 }, true, Some("M"), 0, "d").ok().unwrap();
    assert_eq!(p.new_limit_sec, 3600);
    for bad in [-30, 0, 1, 45, 90] {
        let r = plan_exchange(0, &ExchangeRequest { user_id: 2, points: bad }, true, Some("M"), 3600, "d");
        assert_eq!(r.err(), Some(ExchangeError::InvalidAmount));
    }
    assert_eq!(exchange_error_message(ExchangeError::InvalidAmount), "只能兑换30或60积分");
    assert_eq!(exchange_description(30), "兑换30分钟平板时间");
    assert_eq!(exchange_message(30), "兑换成功！获得 30 分钟平板时间");
}

#[test]
fn setting_points_by_hand() {
    let req = |p: i64, d: Option<&str>| SetPointsRequest { user_id: 1, points: p, description: d.map(|s| s.to_string()) };
    assert_eq!(plan_set_points(&req(5, None), false, 0).err(), Some(SetPointsError::NoUser));
    assert_eq!(
        plan_set_points(&req(-20, None), true, 10).err(),
        Some(SetPointsError::Insufficient { balance: 10, new_balance: -10 })
    );
    let p = plan_set_points(&req(-10, None), true, 10).ok().unwrap();
    assert_eq!((p.tx_type, p.points, p.new_balance), ("spend", 10, 0));
    assert_eq!(p.description, "管理员手动扣除 10 积分");
    let p = plan_set_points(&req(7, None), true, 0).ok().unwrap();
    assert_eq!((p.tx_type, p.points, p.new_balance), ("earn", 7, 7));
    assert_eq!(p.description, "管理员手动增加 7 积分");
    let p = plan_set_points(&req(0, Some("note")), true, 3).ok().unwrap();
    assert_eq!((p.tx_type, p.description.as_str()), ("earn", "note"));
    assert_eq!(set_points_message("L", 7), "已为 L 设置积分，当前余额: 7");
    assert_eq!(insufficient_message(10, -10), "积分不足，当前 10 分，不能调整为 -10 分");
}

#[test]
fn chat_texts_and_answers() {
    assert_eq!(type_label("tutoring"), "补课");
    assert_eq!(type_label("x"), "其他");
    assert_eq!(
        approval_request_text("L", "homework", 30),
        "📋 <b>积分申请</b>\n\n孩子: L\n类型: 作业\n积分: 30\n\n请审批："
    );
    assert_eq!(rejection_text("L", "other", 5), "❌ <b>积分申请被拒绝</b>\n\n孩子: L\n类型: 其他\n积分: 5");
    let (a, r) = callback_data(42);
    assert_eq!(a, "approve:42");
    assert_eq!(r, "reject:42");
    assert_eq!(parse_callback(&a), Some(("approve".to_string(), 42)));
    assert_eq!(parse_callback(&r), Some(("reject".to_string(), 42)));
    assert_eq!(parse_callback("approve"), None);
    assert_eq!(parse_callback("approve:x"), None);
    assert_eq!(parse_callback("a:b:c"), None);
    assert_eq!(parse_callback(":7"), Some((String::new(), 7)));
    assert_eq!(callback_result_text("approve", Some(("homework", 30))), Some("✅ 已同意 — 作业 30积分".to_string()));
    assert_eq!(callback_result_text("reject", None), Some("❌ 已拒绝".to_string()));
    assert_eq!(callback_result_text("maybe", None), None);
    assert_eq!(next_offset(5, Some(9)), 10);
    assert_eq!(next_offset(5, None), 5);
}

#[test]
fn chat_answers_are_planned() {
    let p = plan_callback("approve", Some(("tutoring", 60))).unwrap();
    assert!(p.approve);
    assert_eq!(p.note, None);
    assert!(p.count_quota);
    assert!(!p.notify_rejection);
    assert_eq!(p.result_text, "✅ 已同意 — 补课 60积分");
    let p = plan_callback("approve", None).unwrap();
    assert!(!p.count_quota);
    assert_eq!(p.result_text, "✅ 已同意");
    let p = plan_callback("reject", Some(("other", 30))).unwrap();
    assert!(!p.approve);
    assert_eq!(p.note, Some("管理员拒绝"));
    assert!(!p.count_quota);
    assert!(p.notify_rejection);
    assert_eq!(p.result_text, "❌ 已拒绝 — 其他 30积分");
    let p = plan_callback("reject", None).unwrap();
    assert!(!p.notify_rejection);
    assert!(plan_callback("later", Some(("other", 30))).is_none());
}

fn request(user_id: i64, t: &str, status: &str, at: &str) -> PointRequest {
    PointRequest {
        id: 1,
        user_id,
        request_type: t.to_string(),
        points: 30,
        status: status.to_string(),
        admin_note: None,
        created_at: at.to_string(),
    }
}

#[test]
fn weekly_quota_counts_pending_and_approved() {
    let week = "2024-05-06";
    let pending = vec![request(2, "homework", "pending", "2024-05-06 09:00:00")];
    assert!(quota_used_in(&pending, 2, "homework", week));
    assert!(!quota_used_in(&pending, 2, "tutoring", week));
    assert!(!quota_used_in(&pending, 3, "homework", week));
    let approved = vec![request(2, "other", "approved", "2024-05-12 23:59:59")];
    assert!(quota_used_in(&approved, 2, "other", week));
    let rejected = vec![request(2, "other", "rejected", "2024-05-07 10:00:00")];
    assert!(!quota_used_in(&rejected, 2, "other", week));
    let last_week = vec![request(2, "other", "approved", "2024-05-05 23:59:59")];
    assert!(!quota_used_in(&last_week, 2, "other", week));
    let user = User { id: 2, username: "lisa".into(), display_name: "L".into(), role: "lisa".into(), tablet_key: Some("lisa".into()) };
    let req = ApplyPointsRequest { user_id: 2, request_type: "homework".into() };
    let used = quota_used_in(&pending, 2, "homework", week);
    assert_eq!(decide_apply(&req, used, Some(&user), Some(30)), Err(ApplyError::QuotaUsed));
}

#[test]
fn block_state_parts_keep_the_device_as_written() {
    assert_eq!(block_state_parts("BLOCK_STATE_aa:bb", "true"), Some(("aa:bb".to_string(), true)));
    assert_eq!(block_state_parts("BLOCK_STATE_AA", "false"), Some(("AA".to_string(), false)));
    assert_eq!(block_state_parts("BLOCK_STATE_AA", "yes"), None);
    assert_eq!(block_state_parts("PAUSE_AA", "true"), None);
    assert_eq!(parse_block_state("BLOCK_STATE_aa:bb", "true"), Some(("AA:BB".to_string(), true)));
}

#[test]
fn offsets_move_past_a_batch() {
    assert_eq!(batch_offset(5, &[]), 5);
    assert_eq!(batch_offset(5, &[Some(7), Some(9)]), 10);
    assert_eq!(batch_offset(5, &[Some(7), None]), 8);
    assert_eq!(batch_offset(5, &[None]), 5);
}

#[test]
fn web_approval_plans() {
    let q = request(2, "homework", "pending", "2024-05-06 09:00:00");
    let approve = ApproveRequest { request_id: 1, action: "approve".into(), note: None };
    let p = plan_approval(&approve, Some(&q), 100).unwrap();
    assert_eq!(p.status, "approved");
    assert!(p.count_quota);
    assert_eq!(p.entries.len(), 2);
    assert_eq!((p.entries[0].points, p.entries[0].balance_after), (30, 130));
    assert_eq!(p.entries[0].description, "homework +30分");
    assert_eq!((p.entries[1].points, p.entries[1].balance_after), (30, 160));
    assert_eq!(p.entries[1].description, "homework积分");
    let p = plan_approval(&approve, None, 0).unwrap();
    assert!(!p.count_quota && p.entries.is_empty());
    let reject = ApproveRequest { request_id: 1, action: "reject".into(), note: Some("no".into()) };
    let p = plan_approval(&reject, Some(&q), 100).unwrap();
    assert_eq!(p.status, "rejected");
    assert!(!p.count_quota && p.entries.is_empty());
    let other = ApproveRequest { request_id: 1, action: "maybe".into(), note: None };
    assert!(plan_approval(&other, Some(&q), 100).is_none());
}
