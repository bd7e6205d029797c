//! The points system: balances from the ledger, and the rules for asking
//! for points, approving them, exchanging them for tablet time and setting
//! them by hand.

use vstd::prelude::*;
use crate::clock::{date_text_shape, local_week_start};
use crate::models::{PointRequest, User};
use crate::numtext::{i64_text, int_text};
use crate::order::{lex_lt, str_less};
use crate::settings::limit_override_key;
use crate::text::{concat, str_eq};

verus! {

// ------------------------------------------------------------------ requests

/// A child asks for the points of one kind of work.
#[derive(Debug, Clone)]
pub struct ApplyPointsRequest {
    pub user_id: i64,
    pub request_type: String,
}

/// A parent approves or rejects a request.
#[derive(Debug, Clone)]
pub struct ApproveRequest {
    pub request_id: i64,
    pub action: String,
    pub note: Option<String>,
}

/// A child exchanges points for tablet minutes.
#[derive(Debug, Clone)]
pub struct ExchangeRequest {
    pub user_id: i64,
    pub points: i64,
}

/// A parent adds (or, negative, takes away) points by hand.
#[derive(Debug, Clone)]
pub struct SetPointsRequest {
    pub user_id: i64,
    pub points: i64,
    pub description: Option<String>,
}

// ------------------------------------------------------------------ balances

/// What the balance reads of one ledger entry.
#[derive(Debug, Clone)]
pub struct LedgerEntry {
    pub tx_type: String,
    pub points: i64,
}

/// What an entry adds to the balance: its points when earned, minus its
/// points otherwise.
pub open spec fn signed_points(e: LedgerEntry) -> int {
    if e.tx_type@ == "earn"@ {
        e.points as int
    } else {
        -(e.points as int)
    }
}

/// The sum of the entries.
pub open spec fn ledger_sum(s: Seq<LedgerEntry>) -> int
    decreases s.len(),
{
    if s.len() == 0 {
        0
    } else {
        ledger_sum(s.drop_last()) + signed_points(s.last())
    }
}

/// Every running sum, in order, stays in the `i64` range.
pub open spec fn ledger_fits(s: Seq<LedgerEntry>) -> bool
    decreases s.len(),
{
    if s.len() == 0 {
        true
    } else {
        ledger_fits(s.drop_last()) && i64::MIN <= ledger_sum(s) <= i64::MAX
    }
}

/// A user's balance: the sum of their ledger; 0 when a running sum leaves
/// the `i64` range (the store then reports an error, read as 0).
pub open spec fn balance_spec(s: Seq<LedgerEntry>) -> int {
    if ledger_fits(s) {
        ledger_sum(s)
    } else {
        0
    }
}

/// A user's balance from their ledger entries.
pub fn get_user_points_balance(entries: &[LedgerEntry]) -> (r: i64)
    ensures
        r == balance_spec(entries@),
{
    let mut total: i64 = 0;
    let mut i: usize = 0;
    while i < entries.len()
        invariant
            i <= entries@.len(),
            ledger_fits(entries@.take(i as int)),
            total == ledger_sum(entries@.take(i as int)),
        decreases entries.len() - i,
    {
        proof {
            assert(entries@.take(i + 1).drop_last() =~= entries@.take(i as int));
            assert(entries@.take(i + 1).last() == entries@[i as int]);
        }
        let e = &entries[i];
        let earned = str_eq(e.tx_type.as_str(), "earn");
        let next: Option<i64> = if earned {
            total.checked_add(e.points)
        } else {
            if e.points == i64::MIN {
                if total >= 0 {
                    None
                } else {
                    Some(total - i64::MIN)
                }
            } else {
                total.checked_add(-e.points)
            }
        };
        match next {
            Some(t) => {
                total = t;
            },
            None => {
                proof {
                    lemma_unfit_extends(entries@, i as int + 1);
                }
                return 0;
            },
        }
        i = i + 1;
    }
    assert(entries@.take(entries@.len() as int) =~= entries@);
    total
}

proof fn lemma_unfit_extends(s: Seq<LedgerEntry>, k: int)
    requires
        0 < k <= s.len(),
        !ledger_fits(s.take(k)),
    ensures
        !ledger_fits(s),
    decreases s.len() - k,
{
    if k < s.len() {
        assert(s.take(k + 1).drop_last() =~= s.take(k));
        lemma_unfit_extends(s, k + 1);
    } else {
        assert(s.take(k) =~= s);
    }
}

// ------------------------------------------------------------------ asking for points

/// Why a request for points is refused.
#[derive(Debug, Clone, Copy, PartialEq, Eq)]
pub enum ApplyError {
    InvalidType,
    QuotaUsed,
    NoUser,
    InvalidPoints,
}

/// The kinds of work points can be asked for.
pub open spec fn valid_request_type(t: Seq<char>) -> bool {
    t == "tutoring"@ || t == "homework"@ || t == "other"@
}

/// The points a kind of work is worth: what the user's tablet settings
/// give (60 for tutoring, 30 otherwise when they give nothing); 30 for a
/// user without a tablet.
pub open spec fn points_for_spec(request_type: Seq<char>, has_tablet: bool, configured: Option<i64>) -> int {
    if has_tablet {
        let fallback = if request_type == "tutoring"@ {
            60
        } else {
            30
        };
        if valid_request_type(request_type) {
            match configured {
                Some(p) => p as int,
                None => fallback,
            }
        } else {
            30
        }
    } else {
        30
    }
}

/// The points a kind of work is worth.
pub fn points_for_request(request_type: &str, has_tablet: bool, configured: Option<i64>) -> (r: i64)
    ensures
        r == points_for_spec(request_type@, has_tablet, configured),
{
    if !has_tablet {
        return 30;
    }
    let fallback: i64 = if str_eq(request_type, "tutoring") {
        60
    } else {
        30
    };
    if str_eq(request_type, "tutoring") || str_eq(request_type, "homework") || str_eq(
        request_type,
        "other",
    ) {
        match configured {
            Some(p) => p,
            None => fallback,
        }
    } else {
        30
    }
}

/// The outcome of a request for points: refused for an unknown kind, for a
/// kind already asked for this week, for an unknown user, or for a worth
/// that is not positive; else the points to ask for.
pub open spec fn apply_spec(
    request_type: Seq<char>,
    quota_used: bool,
    user: Option<User>,
    configured: Option<i64>,
) -> Result<int, ApplyError> {
    if !valid_request_type(request_type) {
        Err(ApplyError::InvalidType)
    } else if quota_used {
        Err(ApplyError::QuotaUsed)
    } else {
        match user {
            None => Err(ApplyError::NoUser),
            Some(u) => {
                let p = points_for_spec(request_type, u.tablet_key is Some, configured);
                if p <= 0 {
                    Err(ApplyError::InvalidPoints)
                } else {
                    Ok(p)
                }
            },
        }
    }
}

/// A user's points settings: the worth of each kind of work, where the
/// stored settings give a whole number for it.
#[derive(Debug, Clone, Copy, PartialEq, Eq)]
pub struct PointsConfig {
    pub tutoring: Option<i64>,
    pub homework: Option<i64>,
    pub other: Option<i64>,
}

/// The settings in force: the stored ones, or 30 for each kind when none
/// are stored or they do not read.
pub fn points_config_or_default(stored: Option<PointsConfig>) -> (r: PointsConfig)
    ensures
        r == match stored {
            Some(c) => c,
            None => PointsConfig { tutoring: Some(30), homework: Some(30), other: Some(30) },
        },
{
    match stored {
        Some(c) => c,
        None => PointsConfig { tutoring: Some(30), homework: Some(30), other: Some(30) },
    }
}

/// The worth the settings give for a kind of work.
pub fn configured_points(cfg: &PointsConfig, request_type: &str) -> (r: Option<i64>)
    ensures
        r == if request_type@ == "tutoring"@ {
            cfg.tutoring
        } else if request_type@ == "homework"@ {
            cfg.homework
        } else if request_type@ == "other"@ {
            cfg.other
        } else {
            None
        },
{
    if str_eq(request_type, "tutoring") {
        cfg.tutoring
    } else if str_eq(request_type, "homework") {
        cfg.homework
    } else if str_eq(request_type, "other") {
        cfg.other
    } else {
        None
    }
}

/// Decides a request for points, given whether this week's quota of its
/// kind is used, the user, and the worth their tablet settings give.
pub fn decide_apply(
    req: &ApplyPointsRequest,
    quota_used: bool,
    user: Option<&User>,
    configured: Option<i64>,
) -> (r: Result<i64, ApplyError>)
    ensures
        match r {
            Ok(p) => apply_spec(
                req.request_type@,
                quota_used,
                match user {
                    Some(u) => Some(*u),
                    None => None,
                },
                configured,
            ) == Ok::<int, ApplyError>(p as int),
            Err(e) => apply_spec(
                req.request_type@,
                quota_used,
                match user {
                    Some(u) => Some(*u),
                    None => None,
                },
                configured,
            ) == Err::<int, ApplyError>(e),
        },
{
    let t = req.request_type.as_str();
    if !(str_eq(t, "tutoring") || str_eq(t, "homework") || str_eq(t, "other")) {
        return Err(ApplyError::InvalidType);
    }
    if quota_used {
        return Err(ApplyError::QuotaUsed);
    }
    let u = match user {
        Some(u) => u,
        None => return Err(ApplyError::NoUser),
    };
    let p = points_for_request(t, u.tablet_key.is_some(), configured);
    if p <= 0 {
        return Err(ApplyError::InvalidPoints);
    }
    Ok(p)
}

// ------------------------------------------------------------------ the weekly quota

/// A stored request uses up the week's quota of its kind for its user: it
/// is of that user and kind, still pending or approved, and made on or
/// after the week's first day (`created_at` texts sort by time, and a date
/// sorts before every time of that day).
pub open spec fn uses_quota(r: PointRequest, user_id: i64, request_type: Seq<char>, week_start: Seq<char>) -> bool {
    &&& r.user_id == user_id
    &&& r.request_type@ == request_type
    &&& (r.status@ == "pending"@ || r.status@ == "approved"@)
    &&& !lex_lt(r.created_at@, week_start)
}

/// The kind is used up this week: some stored request uses its quota.
pub open spec fn quota_used_spec(requests: Seq<PointRequest>, user_id: i64, request_type: Seq<char>, week_start: Seq<char>) -> bool {
    exists|i: int| 0 <= i < requests.len() && uses_quota(#[trigger] requests[i], user_id, request_type, week_start)
}

/// Whether the user has used up the kind for the week that starts on
/// `week_start` (`YYYY-MM-DD`): a request of it is pending or approved.
pub fn quota_used_in(requests: &[PointRequest], user_id: i64, request_type: &str, week_start: &str) -> (r: bool)
    ensures
        r == quota_used_spec(requests@, user_id, request_type@, week_start@),
{
    let mut i: usize = 0;
    while i < requests.len()
        invariant
            i <= requests@.len(),
            forall|j: int| 0 <= j < i ==> !uses_quota(#[trigger] requests@[j], user_id, request_type@, week_start@),
        decreases requests.len() - i,
    {
        let q = &requests[i];
        let live = str_eq(q.status.as_str(), "pending") || str_eq(q.status.as_str(), "approved");
        if q.user_id == user_id && str_eq(q.request_type.as_str(), request_type) && live && !str_less(
            q.created_at.as_str(),
            week_start,
        ) {
            assert(uses_quota(requests@[i as int], user_id, request_type@, week_start@));
            return true;
        }
        i = i + 1;
    }
    false
}

/// Whether the user has used up the kind in the current local week.
pub fn is_quota_used(requests: &[PointRequest], user_id: i64, request_type: &str) -> (r: bool)
    ensures
        exists|week_start: Seq<char>|
            date_text_shape(week_start) && r == #[trigger] quota_used_spec(requests@, user_id, request_type@, week_start),
{
    let week_start = local_week_start();
    quota_used_in(requests, user_id, request_type, week_start.as_str())
}

/// What the child is told when a request is refused.
pub fn apply_error_message(e: ApplyError) -> (r: &'static str)
    ensures
        r@ == match e {
            ApplyError::InvalidType => "无效的申请类型"@,
            ApplyError::QuotaUsed => "该类型本周已申请过，请下周再试"@,
            ApplyError::NoUser => "用户不存在"@,
            ApplyError::InvalidPoints => "积分配置无效"@,
        },
{
    match e {
        ApplyError::InvalidType => "无效的申请类型",
        ApplyError::QuotaUsed => "该类型本周已申请过，请下周再试",
        ApplyError::NoUser => "用户不存在",
        ApplyError::InvalidPoints => "积分配置无效",
    }
}

// ------------------------------------------------------------------ approving

/// An approval action is `approve` or `reject`.
pub fn is_valid_action(action: &str) -> (r: bool)
    ensures
        r == (action@ == "approve"@ || action@ == "reject"@),
{
    str_eq(action, "approve") || str_eq(action, "reject")
}

/// The status a request gets: `approved` for `approve`, else `rejected`.
pub fn request_status(action: &str) -> (r: &'static str)
    ensures
        r@ == if action@ == "approve"@ {
            "approved"@
        } else {
            "rejected"@
        },
{
    if str_eq(action, "approve") {
        "approved"
    } else {
        "rejected"
    }
}

/// The balance after earning `points`.
pub fn credit(balance: i64, points: i64) -> (r: i64)
    requires
        i64::MIN <= balance + points <= i64::MAX,
    ensures
        r == balance + points,
{
    balance + points
}

/// The balance after spending `points`.
pub fn debit(balance: i64, points: i64) -> (r: i64)
    requires
        i64::MIN <= balance - points <= i64::MAX,
    ensures
        r == balance - points,
{
    balance - points
}

/// The ledger text of an approval made on the web page: `<kind> +<n>分`.
pub fn approval_description(request_type: &str, points: i64) -> (r: String)
    ensures
        r@ == request_type@ + " +"@ + int_text(points as int) + "分"@,
{
    let mut s = concat(request_type, " +");
    let n = i64_text(points);
    s.append(n.as_str());
    s.append("分");
    s
}

/// The ledger text of an approved request: `<kind>积分`.
pub fn earn_description(request_type: &str) -> (r: String)
    ensures
        r@ == request_type@ + "积分"@,
{
    concat(request_type, "积分")
}

/// One earn entry to write to the ledger.
pub struct PlannedEntry {
    pub points: i64,
    pub balance_after: i64,
    pub description: String,
}

/// What deciding a request on the web page writes: the request's new
/// status, whether the week's quota of its kind is counted, and the earn
/// entries of the ledger, in order.
pub struct ApprovalPlan {
    pub status: &'static str,
    pub count_quota: bool,
    pub entries: Vec<PlannedEntry>,
}

/// The balances after both credits of an approval stay in the `i64` range.
pub open spec fn approval_fits(action: Seq<char>, request: Option<PointRequest>, balance: i64) -> bool {
    (action == "approve"@ && request is Some) ==> {
        let p = request->Some_0.points;
        i64::MIN <= balance + p <= i64::MAX && i64::MIN <= balance + 2 * p <= i64::MAX
    }
}

/// Plans the decision on a request made on the web page (`request`: the
/// stored request, when found; `balance`: its user's balance before).
/// An unknown action is refused. An approval of a found request counts the
/// week's quota and credits the points twice, as the service does: once as
/// `<kind> +<n>分` when the page approves it, and once more as `<kind>积分`
/// when the request is marked approved, each entry recording the balance
/// after it. A rejection, or a request not found, writes no entry.
pub fn plan_approval(req: &ApproveRequest, request: Option<&PointRequest>, balance: i64) -> (r: Option<ApprovalPlan>)
    requires
        approval_fits(req.action@, match request {
            Some(q) => Some(*q),
            None => None,
        }, balance),
    ensures
        r is None <==> (req.action@ != "approve"@ && req.action@ != "reject"@),
        r matches Some(p) ==> {
            &&& p.status@ == if req.action@ == "approve"@ {
                "approved"@
            } else {
                "rejected"@
            }
            &&& p.count_quota == (req.action@ == "approve"@ && request is Some)
            &&& (req.action@ == "approve"@ && request is Some) ==> {
                let q = *request.unwrap();
                &&& p.entries@.len() == 2
                &&& p.entries@[0].points == q.points
                &&& p.entries@[0].balance_after == balance + q.points
                &&& p.entries@[0].description@ == q.request_type@ + " +"@ + int_text(q.points as int) + "分"@
                &&& p.entries@[1].points == q.points
                &&& p.entries@[1].balance_after == balance + 2 * q.points
                &&& p.entries@[1].description@ == q.request_type@ + "积分"@
            }
            &&& !(req.action@ == "approve"@ && request is Some) ==> p.entries@.len() == 0
        },
{
    if !is_valid_action(req.action.as_str()) {
        return None;
    }
    let approve = str_eq(req.action.as_str(), "approve");
    let status = request_status(req.action.as_str());
    let mut entries: Vec<PlannedEntry> = Vec::new();
    match request {
        Some(q) => {
            if approve {
                let first = credit(balance, q.points);
                entries.push(
                    PlannedEntry {
                        points: q.points,
                        balance_after: first,
                        description: approval_description(q.request_type.as_str(), q.points),
                    },
                );
                let second = credit(first, q.points);
                entries.push(
                    PlannedEntry {
                        points: q.points,
                        balance_after: second,
                        description: earn_description(q.request_type.as_str()),
                    },
                );
            }
        },
        None => {},
    }
    Some(ApprovalPlan { status, count_quota: approve && request.is_some(), entries })
}

// ------------------------------------------------------------------ exchanging

/// Why an exchange is refused.
#[derive(Debug, Clone, Copy, PartialEq, Eq)]
pub enum ExchangeError {
    /// An amount other than the 30 or 60 points on offer.
    InvalidAmount,
    /// Fewer points than asked for.
    Insufficient,
    NoUser,
    /// The user has no tablet, or it is not configured.
    NoTablet,
}

/// What an exchange does: one point buys one minute.
pub struct ExchangePlan {
    pub minutes: i64,
    /// Today's new allowance of the tablet, in seconds.
    pub new_limit_sec: i64,
    /// The override key and its new value.
    pub override_key: String,
    pub override_value: String,
}

/// The amounts on offer: 30 or 60 points, for as many minutes.
pub open spec fn valid_exchange_amount(points: i64) -> bool {
    points == 30 || points == 60
}

/// The outcome of an exchange: refused for an amount other than 30 or 60
/// points, when the balance is below the points, for an unknown user, or
/// for a user without a configured tablet; else today's allowance of the
/// tablet grows by a minute per point.
pub open spec fn exchange_spec(balance: i64, points: i64, user_found: bool, tablet_mac: Option<Seq<char>>, current_limit: i64) -> Result<(int, int), ExchangeError> {
    if !valid_exchange_amount(points) {
        Err(ExchangeError::InvalidAmount)
    } else if balance < points {
        Err(ExchangeError::Insufficient)
    } else if !user_found {
        Err(ExchangeError::NoUser)
    } else {
        match tablet_mac {
            None => Err(ExchangeError::NoTablet),
            Some(_) => Ok((points as int, current_limit + points * 60)),
        }
    }
}

/// The exchange's arithmetic stays in the `i64` range.
pub open spec fn exchange_fits(balance: i64, points: i64, user_found: bool, tablet_mac: Option<Seq<char>>, current_limit: i64) -> bool {
    (valid_exchange_amount(points) && balance >= points && user_found && tablet_mac is Some) ==> (
    current_limit + points * 60 <= i64::MAX)
}

/// Plans an exchange of points for minutes of the user's tablet today
/// (`mac_upper` is the tablet's MAC, uppercased, when the user has one).
pub fn plan_exchange(
    balance: i64,
    req: &ExchangeRequest,
    user_found: bool,
    mac_upper: Option<&str>,
    current_limit: i64,
    today: &str,
) -> (r: Result<ExchangePlan, ExchangeError>)
    requires
        exchange_fits(balance, req.points, user_found, match mac_upper {
            Some(m) => Some(m@),
            None => None,
        }, current_limit),
    ensures
        match r {
            Ok(p) => {
                &&& exchange_spec(balance, req.points, user_found, match mac_upper {
                    Some(m) => Some(m@),
                    None => None,
                }, current_limit) == Ok::<(int, int), ExchangeError>((p.minutes as int, p.new_limit_sec as int))
                &&& p.override_key@ == "LIMIT_OVERRIDE_"@ + mac_upper.unwrap()@ + "_"@ + today@
                &&& p.override_value@ == int_text(p.new_limit_sec as int)
            },
            Err(e) => exchange_spec(balance, req.points, user_found, match mac_upper {
                Some(m) => Some(m@),
                None => None,
            }, current_limit) == Err::<(int, int), ExchangeError>(e),
        },
{
    if req.points != 30 && req.points != 60 {
        return Err(ExchangeError::InvalidAmount);
    }
    if balance < req.points {
        return Err(ExchangeError::Insufficient);
    }
    if !user_found {
        return Err(ExchangeError::NoUser);
    }
    let mac = match mac_upper {
        Some(m) => m,
        None => return Err(ExchangeError::NoTablet),
    };
    let minutes = req.points;
    let new_val = current_limit + minutes * 60;
    Ok(
        ExchangePlan {
            minutes,
            new_limit_sec: new_val,
            override_key: limit_override_key(mac, today),
            override_value: i64_text(new_val),
        },
    )
}

/// The ledger text of an exchange: `兑换<n>分钟平板时间`.
pub fn exchange_description(minutes: i64) -> (r: String)
    ensures
        r@ == "兑换"@ + int_text(minutes as int) + "分钟平板时间"@,
{
    let mut s = String::from_str("兑换");
    let n = i64_text(minutes);
    s.append(n.as_str());
    s.append("分钟平板时间");
    s
}

/// What the child is told after an exchange.
pub fn exchange_message(minutes: i64) -> (r: String)
    ensures
        r@ == "兑换成功！获得 "@ + int_text(minutes as int) + " 分钟平板时间"@,
{
    let mut s = String::from_str("兑换成功！获得 ");
    let n = i64_text(minutes);
    s.append(n.as_str());
    s.append(" 分钟平板时间");
    s
}

/// What the child is told when an exchange is refused.
pub fn exchange_error_message(e: ExchangeError) -> (r: &'static str)
    ensures
        r@ == match e {
            ExchangeError::InvalidAmount => "只能兑换30或60积分"@,
            ExchangeError::Insufficient => "积分不足"@,
            ExchangeError::NoUser => "用户不存在"@,
            ExchangeError::NoTablet => "用户未绑定设备"@,
        },
{
    match e {
        ExchangeError::InvalidAmount => "只能兑换30或60积分",
        ExchangeError::Insufficient => "积分不足",
        ExchangeError::NoUser => "用户不存在",
        ExchangeError::NoTablet => "用户未绑定设备",
    }
}

// ------------------------------------------------------------------ setting by hand

/// Why setting points is refused.
#[derive(Debug, Clone, Copy, PartialEq, Eq)]
pub enum SetPointsError {
    NoUser,
    /// The balance would go below zero.
    Insufficient { balance: i64, new_balance: i64 },
}

/// What setting points writes to the ledger.
pub struct SetPointsPlan {
    /// `earn` for a gain (zero included), `spend` for a loss.
    pub tx_type: &'static str,
    /// The size of the change.
    pub points: i64,
    pub new_balance: i64,
    pub description: String,
}

/// The ledger text of a change by hand when none is given.
pub open spec fn default_set_description(points: i64) -> Seq<char> {
    if points > 0 {
        "管理员手动增加 "@ + int_text(points as int) + " 积分"@
    } else {
        "管理员手动扣除 "@ + int_text(-points) + " 积分"@
    }
}

/// Plans a change of a user's points by hand: refused for an unknown user
/// or when the balance would go below zero.
pub fn plan_set_points(req: &SetPointsRequest, user_found: bool, balance: i64) -> (r: Result<SetPointsPlan, SetPointsError>)
    requires
        user_found ==> i64::MIN <= balance + req.points <= i64::MAX,
        user_found ==> req.points != i64::MIN,
    ensures
        !user_found ==> r == Err::<SetPointsPlan, SetPointsError>(SetPointsError::NoUser),
        user_found && balance + req.points < 0 ==> r == Err::<SetPointsPlan, SetPointsError>(SetPointsError::Insufficient { balance, new_balance: (balance + req.points) as i64 }),
        user_found && balance + req.points >= 0 ==> (r matches Ok(p) && {
            &&& p.new_balance == balance + req.points
            &&& p.tx_type@ == if req.points >= 0 {
                "earn"@
            } else {
                "spend"@
            }
            &&& p.points == if req.points >= 0 {
                req.points as int
            } else {
                -req.points
            }
            &&& p.description@ == match req.description {
                Some(d) => d@,
                None => default_set_description(req.points),
            }
        }),
{
    if !user_found {
        return Err(SetPointsError::NoUser);
    }
    let new_balance = balance + req.points;
    if new_balance < 0 {
        return Err(SetPointsError::Insufficient { balance, new_balance });
    }
    let abs = if req.points >= 0 {
        req.points
    } else {
        -req.points
    };
    let description = match &req.description {
        Some(d) => d.clone(),
        None => {
            if req.points > 0 {
                let mut s = String::from_str("管理员手动增加 ");
                let n = i64_text(req.points);
                s.append(n.as_str());
                s.append(" 积分");
                s
            } else {
                let mut s = String::from_str("管理员手动扣除 ");
                let n = i64_text(abs);
                s.append(n.as_str());
                s.append(" 积分");
                s
            }
        },
    };
    let tx_type: &'static str = if req.points >= 0 {
        "earn"
    } else {
        "spend"
    };
    Ok(SetPointsPlan { tx_type, points: abs, new_balance, description })
}

/// What the parent is told after setting points.
pub fn set_points_message(display_name: &str, new_balance: i64) -> (r: String)
    ensures
        r@ == "已为 "@ + display_name@ + " 设置积分，当前余额: "@ + int_text(new_balance as int),
{
    let mut s = concat("已为 ", display_name);
    s.append(" 设置积分，当前余额: ");
    let n = i64_text(new_balance);
    s.append(n.as_str());
    s
}

/// What the parent is told when the balance would go below zero.
pub fn insufficient_message(balance: i64, new_balance: i64) -> (r: String)
    ensures
        r@ == "积分不足，当前 "@ + int_text(balance as int) + " 分，不能调整为 "@ + int_text(new_balance as int) + " 分"@,
{
    let mut s = String::from_str("积分不足，当前 ");
    let a = i64_text(balance);
    s.append(a.as_str());
    s.append(" 分，不能调整为 ");
    let b = i64_text(new_balance);
    s.append(b.as_str());
    s.append(" 分");
    s
}

} // verus!
