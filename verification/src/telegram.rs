//! The texts of the chat notifications, and reading the parents' answers
//! to them.

use vstd::prelude::*;
use crate::numtext::{i64_text, int_text, parse_i64, parse_i64_spec};
use crate::text::{concat, first_index, is_first_index, str_chars, str_eq, string_of};

verus! {

/// The label of a kind of work: tutoring, homework, or other.
pub open spec fn type_label_spec(request_type: Seq<char>) -> Seq<char> {
    if request_type == "tutoring"@ {
        "补课"@
    } else if request_type == "homework"@ {
        "作业"@
    } else {
        "其他"@
    }
}

/// The label of a kind of work.
pub fn type_label(request_type: &str) -> (r: &'static str)
    ensures
        r@ == type_label_spec(request_type@),
{
    if str_eq(request_type, "tutoring") {
        "补课"
    } else if str_eq(request_type, "homework") {
        "作业"
    } else {
        "其他"
    }
}

/// The notification asking the parents to review a request.
pub fn approval_request_text(child_name: &str, request_type: &str, points: i64) -> (r: String)
    ensures
        r@ == "📋 <b>积分申请</b>\n\n孩子: "@ + child_name@ + "\n类型: "@ + type_label_spec(
            request_type@,
        ) + "\n积分: "@ + int_text(points as int) + "\n\n请审批："@,
{
    let mut s = concat("📋 <b>积分申请</b>\n\n孩子: ", child_name);
    s.append("\n类型: ");
    s.append(type_label(request_type));
    s.append("\n积分: ");
    let n = i64_text(points);
    s.append(n.as_str());
    s.append("\n\n请审批：");
    s
}

/// The answer data of the approve and reject buttons of a request.
pub fn callback_data(request_id: i64) -> (r: (String, String))
    ensures
        r.0@ == "approve:"@ + int_text(request_id as int),
        r.1@ == "reject:"@ + int_text(request_id as int),
{
    let n = i64_text(request_id);
    (concat("approve:", n.as_str()), concat("reject:", n.as_str()))
}

/// The notification of a completed exchange.
pub fn exchange_notification_text(child_name: &str, points: i64, minutes: i64) -> (r: String)
    ensures
        r@ == "🎮 <b>积分兑换成功</b>\n\n孩子: "@ + child_name@ + "\n消耗: "@ + int_text(
            points as int,
        ) + " 积分\n获得: "@ + int_text(minutes as int) + " 分钟平板时间"@,
{
    let mut s = concat("🎮 <b>积分兑换成功</b>\n\n孩子: ", child_name);
    s.append("\n消耗: ");
    let p = i64_text(points);
    s.append(p.as_str());
    s.append(" 积分\n获得: ");
    let m = i64_text(minutes);
    s.append(m.as_str());
    s.append(" 分钟平板时间");
    s
}

/// The notification of a rejected request.
pub fn rejection_text(child_name: &str, request_type: &str, points: i64) -> (r: String)
    ensures
        r@ == "❌ <b>积分申请被拒绝</b>\n\n孩子: "@ + child_name@ + "\n类型: "@ + type_label_spec(
            request_type@,
        ) + "\n积分: "@ + int_text(points as int),
{
    let mut s = concat("❌ <b>积分申请被拒绝</b>\n\n孩子: ", child_name);
    s.append("\n类型: ");
    s.append(type_label(request_type));
    s.append("\n积分: ");
    let n = i64_text(points);
    s.append(n.as_str());
    s
}

/// A button's answer `<action>:<id>`, split at the first `:`; `None` when
/// there is no `:` or the id is not an `i64`.
pub open spec fn parse_callback_spec(data: Seq<char>) -> Option<(Seq<char>, i64)> {
    if !data.contains(':') {
        None
    } else {
        let k = choose|k: int| is_first_index(data, ':', k);
        match parse_i64_spec(data.skip(k + 1)) {
            Some(id) => Some((data.take(k), id)),
            None => None,
        }
    }
}

/// Reads a button's answer as its action and request id.
pub fn parse_callback(data: &str) -> (r: Option<(String, i64)>)
    ensures
        match r {
            Some((a, id)) => parse_callback_spec(data@) == Some((a@, id)),
            None => parse_callback_spec(data@) is None,
        },
{
    let cs = str_chars(data);
    let k = match first_index(cs.as_slice(), ':') {
        Some(k) => k,
        None => return None,
    };
    proof {
        let kk = choose|kk: int| is_first_index(data@, ':', kk);
        assert(kk == k as int) by {
            if kk < k {
                assert(cs@[kk] != ':');
            }
            if kk > k {
                assert(data@[k as int] == ':');
            }
        }
    }
    let mut action: Vec<char> = Vec::new();
    let mut i: usize = 0;
    while i < k
        invariant
            k < cs@.len(),
            i <= k,
            action@ == cs@.take(i as int),
        decreases k - i,
    {
        action.push(cs[i]);
        i = i + 1;
        assert(cs@.take(i as int) == cs@.take(i - 1).push(cs@[i - 1]));
    }
    let mut rest: Vec<char> = Vec::new();
    assert(k < cs.len());
    let mut j: usize = k + 1;
    while j < cs.len()
        invariant
            k < cs@.len(),
            k + 1 <= j <= cs@.len(),
            rest@ == cs@.subrange(k + 1, j as int),
        decreases cs.len() - j,
    {
        rest.push(cs[j]);
        j = j + 1;
    }
    assert(rest@ =~= data@.skip(k + 1));
    match parse_i64(rest.as_slice()) {
        Some(id) => Some((string_of(action.as_slice()), id)),
        None => None,
    }
}

/// The text that replaces the notification once a parent answered:
/// `None` for an unknown action; with the request's kind and points when
/// the request was found.
pub open spec fn callback_result_spec(action: Seq<char>, request: Option<(Seq<char>, i64)>) -> Option<Seq<char>> {
    if action == "approve"@ {
        match request {
            Some((t, p)) => Some("✅ 已同意 — "@ + type_label_spec(t) + " "@ + int_text(p as int) + "积分"@),
            None => Some("✅ 已同意"@),
        }
    } else if action == "reject"@ {
        match request {
            Some((t, p)) => Some("❌ 已拒绝 — "@ + type_label_spec(t) + " "@ + int_text(p as int) + "积分"@),
            None => Some("❌ 已拒绝"@),
        }
    } else {
        None
    }
}

/// The text that replaces the notification once a parent answered.
pub fn callback_result_text(action: &str, request: Option<(&str, i64)>) -> (r: Option<String>)
    ensures
        r matches Some(t) ==> callback_result_spec(action@, match request {
            Some((t, p)) => Some((t@, p)),
            None => None,
        }) == Some(t@),
        r is None ==> callback_result_spec(action@, match request {
            Some((t, p)) => Some((t@, p)),
            None => None,
        }) is None,
{
    let approve = str_eq(action, "approve");
    if !approve && !str_eq(action, "reject") {
        return None;
    }
    match request {
        Some((t, p)) => {
            let mut s = String::from_str(
                if approve {
                    "✅ 已同意 — "
                } else {
                    "❌ 已拒绝 — "
                },
            );
            s.append(type_label(t));
            s.append(" ");
            let n = i64_text(p);
            s.append(n.as_str());
            s.append("积分");
            Some(s)
        },
        None => Some(
            String::from_str(
                if approve {
                    "✅ 已同意"
                } else {
                    "❌ 已拒绝"
                },
            ),
        ),
    }
}

/// What a parent's answer in the chat does.
pub struct CallbackPlan {
    /// The request is approved (else rejected).
    pub approve: bool,
    /// The note stored with the decision.
    pub note: Option<&'static str>,
    /// The week's quota of the request's kind is counted.
    pub count_quota: bool,
    /// The parents are told of the rejection.
    pub notify_rejection: bool,
    /// The text that replaces the notification.
    pub result_text: String,
}

/// Plans the handling of an answer (`request`: the kind and points of the
/// request, when it was found): an approval counts the week's quota of a
/// found request; a rejection keeps the rejection note and is announced
/// when the request was found; `None` for an unknown action.
pub fn plan_callback(action: &str, request: Option<(&str, i64)>) -> (r: Option<CallbackPlan>)
    ensures
        r is None <==> (action@ != "approve"@ && action@ != "reject"@),
        r matches Some(p) ==> {
            &&& p.approve == (action@ == "approve"@)
            &&& p.approve ==> p.note is None
            &&& !p.approve ==> (p.note matches Some(n) && n@ == "管理员拒绝"@)
            &&& p.count_quota == (p.approve && request is Some)
            &&& p.notify_rejection == (!p.approve && request is Some)
            &&& callback_result_spec(action@, match request {
                Some((t, q)) => Some((t@, q)),
                None => None,
            }) == Some(p.result_text@)
        },
{
    let text = match callback_result_text(action, request) {
        Some(t) => t,
        None => return None,
    };
    let approve = str_eq(action, "approve");
    Some(
        CallbackPlan {
            approve,
            note: if approve {
                None
            } else {
                Some(rejection_note())
            },
            count_quota: approve && request.is_some(),
            notify_rejection: !approve && request.is_some(),
            result_text: text,
        },
    )
}

/// The note kept with a request rejected from the chat.
pub fn rejection_note() -> (r: &'static str)
    ensures
        r@ == "管理员拒绝"@,
{
    "管理员拒绝"
}

/// The update offset after reading an update: one past its id (unchanged
/// when the update has no id).
pub fn next_offset(offset: i64, update_id: Option<i64>) -> (r: i64)
    requires
        update_id matches Some(u) ==> u < i64::MAX,
    ensures
        r == match update_id {
            Some(u) => u + 1,
            None => offset as int,
        },
{
    match update_id {
        Some(u) => u + 1,
        None => offset,
    }
}

/// The update offset after reading a batch of updates in order (each
/// given by its id, when it has one).
pub open spec fn offset_after(offset: i64, update_ids: Seq<Option<i64>>) -> int
    decreases update_ids.len(),
{
    if update_ids.len() == 0 {
        offset as int
    } else {
        match update_ids.last() {
            Some(u) => u + 1,
            None => offset_after(offset, update_ids.drop_last()),
        }
    }
}

/// The update offset after reading a batch of updates: `next_offset` over
/// the batch in order.
pub fn batch_offset(offset: i64, update_ids: &[Option<i64>]) -> (r: i64)
    requires
        forall|i: int| 0 <= i < update_ids@.len() ==> (#[trigger] update_ids@[i] matches Some(u) ==> u < i64::MAX),
    ensures
        r == offset_after(offset, update_ids@),
{
    let mut cur = offset;
    let mut i: usize = 0;
    while i < update_ids.len()
        invariant
            i <= update_ids@.len(),
            forall|k: int| 0 <= k < update_ids@.len() ==> (#[trigger] update_ids@[k] matches Some(u) ==> u < i64::MAX),
            cur == offset_after(offset, update_ids@.take(i as int)),
        decreases update_ids.len() - i,
    {
        proof {
            assert(update_ids@.take(i + 1).drop_last() =~= update_ids@.take(i as int));
            assert(update_ids@.take(i + 1).last() == update_ids@[i as int]);
        }
        cur = next_offset(cur, update_ids[i]);
        i = i + 1;
    }
    assert(update_ids@.take(update_ids@.len() as int) =~= update_ids@);
    cur
}

} // verus!
