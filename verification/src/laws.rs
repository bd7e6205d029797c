//! Properties that hold across the library's operations.

use vstd::prelude::*;
use crate::numtext::{
    all_digits, decimal_value, digit_char, digit_value, digits_value, int_text, is_digit, nat_text,
    parse_i64_spec,
};
use crate::settings::value_i64;
use crate::telegram::{offset_after, parse_callback_spec};
use crate::text::is_first_index;
use crate::activity::{detection_ok, next_state, status_text, DeviceState, DECAY_WINDOWS};
use crate::usage::{minute_counts, tally, lemma_tally_bounds};
use crate::models::{PointRequest, VideoWindow};
use crate::order::lex_lt;
use crate::ip_registry::{
    from_source, GameIpEntry,
    cand_ok, fresh_addrs, has_slash, ip_match_spec, is_game_ip_spec, manual_entry, without_addr,
    without_text, EntryView,
};
use crate::control::{
    adjusted_limit, block_state_entry, decide_spec, restored, FirewallAction,
};
use crate::points::{
    points_for_spec,
    quota_used_spec, uses_quota,
    apply_spec, balance_spec, exchange_spec, ledger_fits, ledger_sum, signed_points,
    valid_request_type, ApplyError, LedgerEntry,
};
use crate::domain_rules::{
    first_rule_from, lowered_rule, priority_rule, rule_count, rule_name,
    batch_hits, batch_matches, classification_of, first_priority_from, is_excluded, match_domain_spec, matched_rule,
    rule_category,
};
use crate::dns::{add_answers, is_reverse_lookup, log_fold, LogView};
use crate::clock::Instant;
use crate::text::{lowercase_text, seq_starts_with, uppercase_text};

verus! {

// ------------------------------------------------------------------ numbers in text

proof fn lemma_digit_char(d: int)
    requires
        0 <= d < 10,
    ensures
        is_digit(digit_char(d)),
        digit_value(digit_char(d)) == d,
        digit_char(d) != '-',
        digit_char(d) != '+',
        digit_char(d) != ':',
{
}

proof fn lemma_nat_text(n: nat)
    ensures
        nat_text(n).len() > 0,
        all_digits(nat_text(n)),
        digits_value(nat_text(n)) == n,
    decreases n,
{
    if n < 10 {
        lemma_digit_char(n as int);
        let s = nat_text(n);
        assert(s.drop_last() =~= Seq::<char>::empty());
        assert(s.last() == digit_char(n as int));
        assert(digits_value(s) == 10 * digits_value(s.drop_last()) + digit_value(s.last()));
    } else {
        lemma_nat_text(n / 10);
        lemma_digit_char((n % 10) as int);
        let s = nat_text(n);
        assert(s.drop_last() =~= nat_text(n / 10));
        assert(s.last() == digit_char((n % 10) as int));
        assert(digits_value(s) == 10 * digits_value(s.drop_last()) + digit_value(s.last()));
        assert(n == 10 * (n / 10) + n % 10);
        assert(all_digits(s)) by {
            assert forall|i: int| 0 <= i < s.len() implies is_digit(#[trigger] s[i]) by {
                if i < s.len() - 1 {
                    assert(s[i] == nat_text(n / 10)[i]);
                }
            }
        }
    }
}

/// A number written by `to_string` reads back, through `parse`, as the
/// same number: what the service stores as text it gets back intact.
pub proof fn law_i64_text_round_trip(n: i64)
    ensures
        parse_i64_spec(int_text(n as int)) == Some(n),
{
    if n < 0 {
        let m = (-n) as nat;
        lemma_nat_text(m);
        let s = int_text(n as int);
        assert(s == seq!['-'] + nat_text(m));
        assert(s.drop_first() =~= nat_text(m));
        assert(decimal_value(s, true) == Some(-(m as int)));
    } else {
        lemma_nat_text(n as nat);
        let s = nat_text(n as nat);
        lemma_nat_text_first(n as nat);
        lemma_digit_char(digits_first(n as nat));
        assert(s[0] != '+' && s[0] != '-');
        assert(decimal_value(s, true) == Some(n as int));
    }
}

/// The first digit of a natural number.
spec fn digits_first(n: nat) -> int
    decreases n,
{
    if n < 10 {
        n as int
    } else {
        digits_first(n / 10)
    }
}

proof fn lemma_nat_text_first(n: nat)
    ensures
        nat_text(n)[0] == digit_char(digits_first(n)),
        0 <= digits_first(n) < 10,
    decreases n,
{
    if n >= 10 {
        lemma_nat_text_first(n / 10);
        lemma_nat_text(n / 10);
    }
}

/// A setting written as the text of a number reads back as that number.
pub proof fn law_setting_read_back(value: String, n: i64)
    requires
        value@ == int_text(n as int),
    ensures
        value_i64(Some(value)) == Some(n),
{
    law_i64_text_round_trip(n);
}

/// After a batch whose last update carries an id, the next read starts one
/// past that id, whatever came before: no update of the batch is read again.
pub proof fn law_batch_offset_moves_past_last(offset: i64, update_ids: Seq<Option<i64>>, last: i64)
    requires
        update_ids.len() > 0,
        update_ids.last() == Some(last),
    ensures
        offset_after(offset, update_ids) == last + 1,
{
}

/// The answer data on a notification's approve button reads back as the
/// approve action and the request's id; likewise for the reject button.
pub proof fn law_callback_round_trip(id: i64)
    ensures
        parse_callback_spec("approve:"@ + int_text(id as int)) == Some(("approve"@, id)),
        parse_callback_spec("reject:"@ + int_text(id as int)) == Some(("reject"@, id)),
{
    law_i64_text_round_trip(id);
    lemma_int_text_no_colon(id as int);
    reveal_strlit("approve:");
    reveal_strlit("approve");
    reveal_strlit("reject:");
    reveal_strlit("reject");
    assert("approve:"@ =~= "approve"@.push(':'));
    assert("reject:"@ =~= "reject"@.push(':'));
    assert(!"approve"@.contains(':'));
    assert(!"reject"@.contains(':'));
    lemma_callback_parts("approve:"@, "approve"@, int_text(id as int), id);
    lemma_callback_parts("reject:"@, "reject"@, int_text(id as int), id);
}

proof fn lemma_int_text_no_colon(n: int)
    ensures
        !int_text(n).contains(':'),
{
    let m: nat = if n < 0 {
        (-n) as nat
    } else {
        n as nat
    };
    lemma_nat_text(m);
    let t = nat_text(m);
    assert forall|i: int| 0 <= i < t.len() implies t[i] != ':' by {
        assert(is_digit(t[i]));
    }
    if n < 0 {
        let s = int_text(n);
        assert(s == seq!['-'] + t);
        assert forall|i: int| 0 <= i < s.len() implies s[i] != ':' by {
            if i > 0 {
                assert(s[i] == t[i - 1]);
            }
        }
    }
}

proof fn lemma_callback_parts(prefix: Seq<char>, action: Seq<char>, rest: Seq<char>, id: i64)
    requires
        prefix.len() > 0,
        prefix == action.push(':'),
        !action.contains(':'),
        !rest.contains(':'),
        parse_i64_spec(rest) == Some(id),
    ensures
        parse_callback_spec(prefix + rest) == Some((action, id)),
{
    let data = prefix + rest;
    let k = action.len() as int;
    assert(data[k] == ':');
    assert(is_first_index(data, ':', k)) by {
        assert forall|j: int| 0 <= j < k implies data[j] != ':' by {
            assert(data[j] == action[j]);
        }
    }
    assert(data.contains(':'));
    let c = choose|c: int| is_first_index(data, ':', c);
    assert(c == k) by {
        if c < k {
            assert(data[c] == action[c]);
        }
        if c > k {
            assert(data[k] != ':');
        }
    }
    assert(data.skip(k + 1) =~= rest);
    assert(data.take(k) =~= action);
}

// ------------------------------------------------------------------ domains

/// Games come before video apps: a batch holding a lookup of the first
/// game is classified as that game, and otherwise one holding a lookup of
/// the second game as that one.
pub proof fn law_games_take_priority(domains: Seq<Seq<char>>)
    ensures
        batch_hits(domains, 0) ==> classification_of(domains).0 == rule_category(0),
        !batch_hits(domains, 0) && batch_hits(domains, 1) ==> classification_of(domains).0
            == rule_category(1),
{
    if batch_hits(domains, 0) || batch_hits(domains, 1) {
        if batch_hits(domains, 0) {
            let k = choose|k: int| 0 <= k < domains.len() && matched_rule(#[trigger] domains[k]) == Some(0int);
            assert(matched_rule(domains[k]) is Some);
        } else {
            let k = choose|k: int| 0 <= k < domains.len() && matched_rule(#[trigger] domains[k]) == Some(1int);
            assert(matched_rule(domains[k]) is Some);
            assert(first_priority_from(domains, 1) == Some(1int));
            assert(first_priority_from(domains, 0) == first_priority_from(domains, 1));
        }
        assert(batch_matches(domains));
    }
}

/// Some domain of the batch falls under the category `c`.
pub open spec fn names_category(domains: Seq<Seq<char>>, c: Seq<char>) -> bool {
    exists|k: int| 0 <= k < domains.len() && match_domain_spec(#[trigger] domains[k]) == Some(c)
}

proof fn lemma_first_rule_range(dl: Seq<char>, i: int)
    requires
        0 <= i,
    ensures
        first_rule_from(dl, i) matches Some(j) ==> i <= j < 5,
    decreases rule_count() - i,
{
    if i < rule_count() {
        lemma_first_rule_range(dl, i + 1);
    }
}

proof fn lemma_rule_of_category(d: Seq<char>, c: Seq<char>, i: int)
    requires
        0 <= i < 5,
        c == rule_category(i),
        match_domain_spec(d) == Some(c),
    ensures
        matched_rule(d) == Some(i),
{
    reveal_strlit("GAME_EGG");
    reveal_strlit("GAME_PRETERNATURAL");
    reveal_strlit("XIAOHONGSHU");
    reveal_strlit("TENCENT_VIDEO");
    reveal_strlit("HONGGUO");
    lemma_first_rule_range(lowercase_text(d), 0);
    let j = matched_rule(d)->Some_0;
    assert(lowered_rule(lowercase_text(d)) == Some(j));
    assert(0 <= j < 5);
    assert(rule_category(j) == rule_category(i));
    assert(rule_category(0).len() == 8);
    assert(rule_category(1).len() == 18);
    assert(rule_category(2).len() == 11);
    assert(rule_category(3).len() == 13);
    assert(rule_category(4).len() == 7);
    assert(rule_category(j).len() == rule_category(i).len());
}

proof fn lemma_hits_of_category(domains: Seq<Seq<char>>, i: int)
    requires
        0 <= i < 5,
    ensures
        names_category(domains, rule_category(i)) <==> batch_hits(domains, i),
{
    if names_category(domains, rule_category(i)) {
        let k = choose|k: int| 0 <= k < domains.len() && match_domain_spec(#[trigger] domains[k]) == Some(rule_category(i));
        lemma_rule_of_category(domains[k], rule_category(i), i);
    }
    if batch_hits(domains, i) {
        let k = choose|k: int| 0 <= k < domains.len() && matched_rule(#[trigger] domains[k]) == Some(i);
        assert(match_domain_spec(domains[k]) == Some(rule_category(i)));
    }
}

/// A batch is classified by the app of highest priority among those its
/// domains name: the egg-party game, then the supernatural game, then
/// Xiaohongshu, then Hongguo, then Tencent Video; `NONE` when it names none.
pub proof fn law_classification_priority(domains: Seq<Seq<char>>)
    ensures
        names_category(domains, "GAME_EGG"@) ==> classification_of(domains) == ("GAME_EGG"@, "蛋仔派对"@),
        !names_category(domains, "GAME_EGG"@) && names_category(domains, "GAME_PRETERNATURAL"@)
            ==> classification_of(domains) == ("GAME_PRETERNATURAL"@, "超自然"@),
        !names_category(domains, "GAME_EGG"@) && !names_category(domains, "GAME_PRETERNATURAL"@)
            && names_category(domains, "XIAOHONGSHU"@) ==> classification_of(domains) == ("XIAOHONGSHU"@, "小红书"@),
        !names_category(domains, "GAME_EGG"@) && !names_category(domains, "GAME_PRETERNATURAL"@)
            && !names_category(domains, "XIAOHONGSHU"@) && names_category(domains, "HONGGUO"@)
            ==> classification_of(domains) == ("HONGGUO"@, "红果短剧"@),
        !names_category(domains, "GAME_EGG"@) && !names_category(domains, "GAME_PRETERNATURAL"@)
            && !names_category(domains, "XIAOHONGSHU"@) && !names_category(domains, "HONGGUO"@)
            && names_category(domains, "TENCENT_VIDEO"@) ==> classification_of(domains) == (
        "TENCENT_VIDEO"@,
        "腾讯视频"@,
        ),
        !names_category(domains, "GAME_EGG"@) && !names_category(domains, "GAME_PRETERNATURAL"@)
            && !names_category(domains, "XIAOHONGSHU"@) && !names_category(domains, "HONGGUO"@)
            && !names_category(domains, "TENCENT_VIDEO"@) ==> classification_of(domains).0 == "NONE"@,
{
    lemma_hits_of_category(domains, 0);
    lemma_hits_of_category(domains, 1);
    lemma_hits_of_category(domains, 2);
    lemma_hits_of_category(domains, 3);
    lemma_hits_of_category(domains, 4);
    assert(rule_category(0) == "GAME_EGG"@);
    assert(rule_category(1) == "GAME_PRETERNATURAL"@);
    assert(rule_category(2) == "XIAOHONGSHU"@);
    assert(rule_category(3) == "TENCENT_VIDEO"@);
    assert(rule_category(4) == "HONGGUO"@);
    if batch_matches(domains) {
        let k = choose|k: int| 0 <= k < domains.len() && (#[trigger] matched_rule(domains[k])) is Some;
        lemma_first_rule_range(lowercase_text(domains[k]), 0);
        let j = matched_rule(domains[k])->Some_0;
        assert(batch_hits(domains, j));
    }
    assert(first_priority_from(domains, 4) == if batch_hits(domains, priority_rule(4)) {
        Some(priority_rule(4))
    } else {
        first_priority_from(domains, 5)
    });
    assert(first_priority_from(domains, 3) == if batch_hits(domains, priority_rule(3)) {
        Some(priority_rule(3))
    } else {
        first_priority_from(domains, 4)
    });
    assert(first_priority_from(domains, 2) == if batch_hits(domains, priority_rule(2)) {
        Some(priority_rule(2))
    } else {
        first_priority_from(domains, 3)
    });
    assert(first_priority_from(domains, 1) == if batch_hits(domains, priority_rule(1)) {
        Some(priority_rule(1))
    } else {
        first_priority_from(domains, 2)
    });
}

/// A domain holding an exclusion fragment never counts as an app.
pub proof fn law_excluded_never_matches(domain: Seq<char>)
    requires
        is_excluded(lowercase_text(domain)),
    ensures
        match_domain_spec(domain) is None,
{
}

/// A batch is classified `NONE` exactly when none of its domains falls
/// under a rule.
pub proof fn law_none_exactly_when_unmatched(domains: Seq<Seq<char>>)
    ensures
        (classification_of(domains).0 == "NONE"@) <==> !batch_matches(domains),
{
    reveal_strlit("NONE");
    reveal_strlit("OTHER");
    reveal_strlit("GAME_EGG");
    reveal_strlit("GAME_PRETERNATURAL");
    reveal_strlit("XIAOHONGSHU");
    reveal_strlit("TENCENT_VIDEO");
    reveal_strlit("HONGGUO");
    assert("NONE"@.len() == 4);
    assert("OTHER"@.len() == 5);
    assert(forall|i: int| #[trigger] rule_category(i).len() > 4);
}

// ------------------------------------------------------------------ activity

/// Blocking or adult mode makes a round idle, whatever the device does.
pub proof fn law_forced_round_is_idle(st: DeviceState, signal: bool, silent: bool, ts: i64)
    ensures
        !next_state(st, signal, silent, true, ts).1,
{
}

/// A signal makes a round active unless it is forced idle.
pub proof fn law_signal_round_is_active(st: DeviceState, silent: bool, ts: i64)
    ensures
        next_state(st, true, silent, false, ts).1,
{
}

/// After a forced-idle round, a round without a signal is idle: blocking
/// does not let the decay run on afterwards.
pub proof fn law_forced_idle_ends_decay(
    st: DeviceState,
    signal1: bool,
    silent1: bool,
    ts1: i64,
    silent2: bool,
    ts2: i64,
)
    ensures
        !next_state(next_state(st, signal1, silent1, true, ts1).0, false, silent2, false, ts2).1,
{
}

/// After a silent round (no signal, not forced), a round without a signal
/// is idle: silence ends the decay as well.
pub proof fn law_silence_ends_decay(st: DeviceState, ts1: i64, silent2: bool, force2: bool, ts2: i64)
    ensures
        !next_state(next_state(st, false, true, false, ts1).0, false, silent2, force2, ts2).1,
{
}

/// How many of a series of rounds without a signal (each given as
/// (silent, forced idle)) are active, from state `st`.
pub open spec fn decayed_rounds(st: DeviceState, rounds: Seq<(bool, bool)>, ts: i64) -> int
    decreases rounds.len(),
{
    if rounds.len() == 0 {
        0
    } else {
        let step = next_state(st, false, rounds[0].0, rounds[0].1, ts);
        (if step.1 {
            1int
        } else {
            0int
        }) + decayed_rounds(step.0, rounds.drop_first(), ts)
    }
}

/// Without a signal, a device stays active for at most `DECAY_WINDOWS`
/// rounds (fewer the longer it has already been decaying).
pub proof fn law_decay_is_bounded(st: DeviceState, rounds: Seq<(bool, bool)>, ts: i64)
    requires
        st.idle_count >= 0,
    ensures
        decayed_rounds(st, rounds, ts) <= if st.idle_count >= DECAY_WINDOWS {
            0
        } else {
            DECAY_WINDOWS - st.idle_count
        },
        decayed_rounds(st, rounds, ts) <= DECAY_WINDOWS,
    decreases rounds.len(),
{
    if rounds.len() > 0 {
        let step = next_state(st, false, rounds[0].0, rounds[0].1, ts);
        law_decay_is_bounded(step.0, rounds.drop_first(), ts);
    }
}

/// The state after `n` quiet rounds (no signal, no silence, not forced).
pub open spec fn after_quiet(st: DeviceState, n: nat, ts: i64) -> DeviceState
    decreases n,
{
    if n == 0 {
        st
    } else {
        next_state(after_quiet(st, (n - 1) as nat, ts), false, false, false, ts).0
    }
}

/// After a signal round, `n` quiet rounds leave the decay counter at
/// `n` (up to the window) and the last activity in place.
proof fn lemma_after_quiet(st: DeviceState, n: nat, ts: i64)
    requires
        st.idle_count == 0,
        st.last_active_ts is Some,
    ensures
        after_quiet(st, n, ts).idle_count == if n < DECAY_WINDOWS {
            n as int
        } else {
            DECAY_WINDOWS as int
        },
        after_quiet(st, n, ts).last_active_ts == st.last_active_ts,
    decreases n,
{
    if n > 0 {
        lemma_after_quiet(st, (n - 1) as nat, ts);
    }
}

/// The decay window is exact: after a signal round, the quiet rounds
/// 1 to `DECAY_WINDOWS` (ten) are active and every later one is idle.
pub proof fn law_decay_is_exact(prev: DeviceState, silent0: bool, ts0: i64, n: nat, ts: i64)
    ensures
        ({
            let st = next_state(prev, true, silent0, false, ts0).0;
            next_state(after_quiet(st, n, ts), false, false, false, ts).1 <==> n + 1 <= DECAY_WINDOWS
        }),
{
    let st = next_state(prev, true, silent0, false, ts0).0;
    lemma_after_quiet(st, n, ts);
}

/// A forced-idle round's minute record adds nothing to the day's usage.
pub proof fn law_forced_round_not_counted(
    old_d: crate::activity::ActivityDetector,
    new_d: crate::activity::ActivityDetector,
    out: crate::activity::Detection,
    mac: Seq<char>,
    ip: Seq<char>,
    ts: i64,
    minute: Seq<char>,
    date: Seq<char>,
    dns: Seq<Seq<char>>,
    conn_count: i32,
    bytes_delta: i64,
)
    requires
        detection_ok(old_d, new_d, out, mac, ip, ts, minute, date, dns, conn_count, bytes_delta, true),
    ensures
        minute_counts(out.window.video_status@, out.window.activity_type@) == (0int, 0int, 0int),
{
    reveal_strlit("IDLE");
    reveal_strlit("ACTIVE");
    assert(out.window.video_status@ == "IDLE"@);
    assert("IDLE"@ != "ACTIVE"@);
}

/// A round with a signal, not forced idle, adds one active minute to the
/// day's usage.
pub proof fn law_signal_round_counted(
    old_d: crate::activity::ActivityDetector,
    new_d: crate::activity::ActivityDetector,
    out: crate::activity::Detection,
    mac: Seq<char>,
    ip: Seq<char>,
    ts: i64,
    minute: Seq<char>,
    date: Seq<char>,
    dns: Seq<Seq<char>>,
    conn_count: i32,
    bytes_delta: i64,
)
    requires
        detection_ok(old_d, new_d, out, mac, ip, ts, minute, date, dns, conn_count, bytes_delta, false),
        out.result.signal,
    ensures
        minute_counts(out.window.video_status@, out.window.activity_type@).0 == 1,
{
}

/// What makes a round a signal or silent, and what that means for it: a
/// round is a signal exactly when its domains name an app and it moved more
/// than 50 000 bytes or held at least two connections; it is silent exactly
/// when it names no app, moved under 5 000 bytes and held fewer than two
/// connections. A signal round not forced idle is active; so is a round
/// with at least two connections, not forced idle, while the device is
/// still in its decay window after activity.
pub proof fn law_signal_and_silence(
    old_d: crate::activity::ActivityDetector,
    new_d: crate::activity::ActivityDetector,
    out: crate::activity::Detection,
    mac: Seq<char>,
    ip: Seq<char>,
    ts: i64,
    minute: Seq<char>,
    date: Seq<char>,
    dns: Seq<Seq<char>>,
    conn_count: i32,
    bytes_delta: i64,
    force_idle: bool,
)
    requires
        detection_ok(old_d, new_d, out, mac, ip, ts, minute, date, dns, conn_count, bytes_delta, force_idle),
    ensures
        out.result.signal <==> (classification_of(dns).0 != "NONE"@ && (bytes_delta > 50_000 || conn_count >= 2)),
        out.result.is_silent <==> (classification_of(dns).0 == "NONE"@ && bytes_delta < 5_000 && conn_count < 2),
        conn_count >= 2 ==> !out.result.is_silent,
        out.result.signal && !force_idle ==> out.result.status@ == "ACTIVE"@,
        !force_idle && conn_count >= 2 && old_d.state_of(mac).last_active_ts is Some
            && old_d.state_of(mac).idle_count < 10 ==> out.result.status@ == "ACTIVE"@,
{
    reveal_strlit("ACTIVE");
    reveal_strlit("IDLE");
}

/// Storing a round's minute record adds one active minute to the day's
/// usage exactly when the round's verdict is `ACTIVE`, and none otherwise.
pub proof fn law_stored_round_grows_usage(
    old_d: crate::activity::ActivityDetector,
    new_d: crate::activity::ActivityDetector,
    out: crate::activity::Detection,
    mac: Seq<char>,
    ip: Seq<char>,
    ts: i64,
    minute: Seq<char>,
    date: Seq<char>,
    dns: Seq<Seq<char>>,
    conn_count: i32,
    bytes_delta: i64,
    force_idle: bool,
    day: Seq<VideoWindow>,
)
    requires
        detection_ok(old_d, new_d, out, mac, ip, ts, minute, date, dns, conn_count, bytes_delta, force_idle),
    ensures
        tally(day.push(out.window)).0 == tally(day).0 + if out.result.status@ == "ACTIVE"@ {
            1int
        } else {
            0int
        },
{
    assert(day.push(out.window).drop_last() =~= day);
    reveal_strlit("ACTIVE");
    reveal_strlit("IDLE");
}

/// Adding one stored minute to a day changes its (active, video, game)
/// count as follows: an idle minute adds nothing; an active minute adds
/// one active minute, and also one game minute when its activity starts
/// with `game`, or one video minute when its activity is anything but
/// `none` or `other`.
pub proof fn law_usage_tally_step(day: Seq<VideoWindow>, w: VideoWindow)
    ensures
        w.video_status@ != "ACTIVE"@ ==> tally(day.push(w)) == tally(day),
        w.video_status@ == "ACTIVE"@ && seq_starts_with(w.activity_type@, "game"@) ==> tally(day.push(w)) == (
            tally(day).0 + 1,
            tally(day).1,
            tally(day).2 + 1,
        ),
        w.video_status@ == "ACTIVE"@ && !seq_starts_with(w.activity_type@, "game"@) && w.activity_type@ != "none"@
            && w.activity_type@ != "other"@ ==> tally(day.push(w)) == (tally(day).0 + 1, tally(day).1 + 1, tally(day).2),
        w.video_status@ == "ACTIVE"@ && (w.activity_type@ == "none"@ || w.activity_type@ == "other"@) ==> tally(
            day.push(w),
        ) == (tally(day).0 + 1, tally(day).1, tally(day).2),
{
    assert(day.push(w).drop_last() =~= day);
    reveal_strlit("game");
    reveal_strlit("none");
    reveal_strlit("other");
    if w.activity_type@ == "none"@ || w.activity_type@ == "other"@ {
        if seq_starts_with(w.activity_type@, "game"@) {
            assert(w.activity_type@.subrange(0, 4)[0] == "game"@[0]);
            assert(w.activity_type@[0] == 'g');
        }
    }
}

/// Video and game minutes are active minutes, and no count exceeds the
/// number of stored minutes.
pub proof fn law_usage_counts_bounded(ws: Seq<VideoWindow>)
    ensures
        0 <= tally(ws).1,
        0 <= tally(ws).2,
        tally(ws).1 + tally(ws).2 <= tally(ws).0,
        tally(ws).0 <= ws.len(),
{
    lemma_tally_bounds(ws);
}

// ------------------------------------------------------------------ registry

/// An exact address added to the registry is then recognised.
pub proof fn law_added_address_is_game_ip(addrs: Seq<Seq<char>>, addr: Seq<char>)
    requires
        !has_slash(addr),
    ensures
        is_game_ip_spec(addr, addrs.push(addr)),
{
    assert(ip_match_spec(addr, addrs.push(addr)[addrs.len() as int]));
}

proof fn lemma_without_absent(s: Seq<EntryView>, a: Seq<char>)
    requires
        forall|k: int| 0 <= k < s.len() ==> (#[trigger] s[k]).addr != a,
    ensures
        without_addr(s, a) == s,
    decreases s.len(),
{
    if s.len() > 0 {
        lemma_without_absent(s.drop_last(), a);
        assert(s.drop_last().push(s.last()) =~= s);
    }
}

/// The entries added by hand and the automatic ones partition the
/// registry when every entry has one of those two sources: together they
/// are as many as the entries, and each holds only its own source.
pub proof fn law_manual_and_auto_partition(ips: Seq<GameIpEntry>)
    requires
        forall|k: int| 0 <= k < ips.len() ==> (#[trigger] ips[k]).source@ == "manual"@ || ips[k].source@ == "auto"@,
    ensures
        from_source(ips, "manual"@).len() + from_source(ips, "auto"@).len() == ips.len(),
        forall|k: int| 0 <= k < from_source(ips, "manual"@).len() ==> (#[trigger] from_source(ips, "manual"@)[k]).source@ == "manual"@,
        forall|k: int| 0 <= k < from_source(ips, "auto"@).len() ==> (#[trigger] from_source(ips, "auto"@)[k]).source@ == "auto"@,
    decreases ips.len(),
{
    reveal_strlit("manual");
    reveal_strlit("auto");
    if ips.len() > 0 {
        let p = ips.drop_last();
        assert forall|k: int| 0 <= k < p.len() implies (#[trigger] p[k]).source@ == "manual"@ || p[k].source@ == "auto"@ by {
            assert(p[k] == ips[k]);
        }
        law_manual_and_auto_partition(p);
        let e = ips[ips.len() - 1];
        assert(ips.last() == e);
        assert("manual"@.len() != "auto"@.len());
        if e.source@ == "manual"@ {
            assert(e.source@ != "auto"@);
            assert(from_source(ips, "manual"@) == from_source(p, "manual"@).push(e));
            assert(from_source(ips, "auto"@) == from_source(p, "auto"@));
        } else {
            assert(e.source@ != "manual"@);
            assert(from_source(ips, "auto"@) == from_source(p, "auto"@).push(e));
            assert(from_source(ips, "manual"@) == from_source(p, "manual"@));
        }
    }
}

/// Adding an address by hand and removing it again gives the registry's
/// entries back.
pub proof fn law_add_then_remove(
    entries: Seq<EntryView>,
    addr: Seq<char>,
    label: Option<Seq<char>>,
    today: Seq<char>,
)
    requires
        forall|k: int| 0 <= k < entries.len() ==> (#[trigger] entries[k]).addr != addr,
    ensures
        without_addr(entries.push(manual_entry(addr, label, today)), addr) == entries,
{
    let s = entries.push(manual_entry(addr, label, today));
    assert(s.drop_last() =~= entries);
    lemma_without_absent(entries, addr);
}

/// After a removal no entry holds the address.
pub proof fn law_removed_address_is_gone(entries: Seq<EntryView>, addr: Seq<char>)
    ensures
        forall|k: int|
            0 <= k < without_addr(entries, addr).len() ==> (#[trigger] without_addr(entries, addr)[k]).addr
                != addr,
{
    crate::ip_registry::lemma_without_addr_len(entries, addr);
}

proof fn lemma_without_text_absent(s: Seq<Seq<char>>, t: Seq<char>)
    requires
        !s.contains(t),
    ensures
        without_text(s, t) == s,
    decreases s.len(),
{
    if s.len() > 0 {
        assert(!s.drop_last().contains(t)) by {
            if s.drop_last().contains(t) {
                let k = choose|k: int| 0 <= k < s.drop_last().len() && s.drop_last()[k] == t;
                assert(s[k] == t);
            }
        }
        lemma_without_text_absent(s.drop_last(), t);
        assert(s.drop_last().push(s.last()) =~= s);
    }
}

/// Adding a new domain pattern and removing it again gives the patterns back.
pub proof fn law_domain_add_then_remove(domains: Seq<Seq<char>>, d: Seq<char>)
    requires
        !domains.contains(d),
    ensures
        without_text(domains.push(d), d) == domains,
{
    assert(domains.push(d).drop_last() =~= domains);
    lemma_without_text_absent(domains, d);
}

/// Discovery never adds an address twice: distinct addresses stay distinct.
pub proof fn law_discovery_keeps_addresses_distinct(
    existing: Seq<Seq<char>>,
    cands: Seq<Seq<char>>,
    dns: bool,
)
    requires
        existing.no_duplicates(),
    ensures
        (existing + fresh_addrs(existing, cands, dns)).no_duplicates(),
    decreases cands.len(),
{
    if cands.len() > 0 {
        law_discovery_keeps_addresses_distinct(existing, cands.drop_last(), dns);
        let prev = fresh_addrs(existing, cands.drop_last(), dns);
        let a = cands.last();
        if cand_ok(a, dns) && !(existing + prev).contains(a) {
            assert(existing + prev.push(a) =~= (existing + prev).push(a));
            let all = (existing + prev).push(a);
            assert forall|i: int, j: int| 0 <= i < all.len() && 0 <= j < all.len() && i != j implies all[i] != all[j] by {
                if i == all.len() - 1 {
                    assert((existing + prev)[j] == all[j]);
                } else if j == all.len() - 1 {
                    assert((existing + prev)[i] == all[i]);
                } else {
                    assert((existing + prev)[i] == all[i]);
                    assert((existing + prev)[j] == all[j]);
                }
            }
        }
    }
}

// ------------------------------------------------------------------ control

/// Adult mode always lets the device through.
pub proof fn law_adult_mode_lets_through(switch_enabled: Option<bool>, limit_sec: i64, active_min: i64)
    ensures
        decide_spec(true, switch_enabled, limit_sec, active_min).0 == FirewallAction::Unblock,
{
}

/// A switch turned off blocks the device unless adult mode is on.
pub proof fn law_switch_off_blocks(limit_sec: i64, active_min: i64)
    ensures
        decide_spec(false, Some(false), limit_sec, active_min).0 == FirewallAction::Block,
{
}

/// Otherwise, a device is blocked exactly when its usage has reached a
/// non-negative allowance; a negative allowance never blocks it.
pub proof fn law_blocked_exactly_when_over_limit(switch_enabled: Option<bool>, limit_sec: i64, active_min: i64)
    requires
        switch_enabled != Some(false),
    ensures
        (decide_spec(false, switch_enabled, limit_sec, active_min).0 == FirewallAction::Block) <==> (
        limit_sec >= 0 && active_min * 60 >= limit_sec),
{
}

/// Once a state is recorded for a device, the router is not told that
/// state again, and is told the opposite one (`needs_change` after
/// `record`).
pub proof fn law_recorded_state_not_repeated(m: Map<Seq<char>, bool>, key: Seq<char>, blocked: bool)
    ensures
        m.insert(key, blocked).contains_key(key) && m.insert(key, blocked)[key] == blocked,
        !(m.insert(key, blocked).contains_key(key) && m.insert(key, blocked)[key] == !blocked),
{
}

/// A blocked state stored for a device is restored as the same state of
/// the same (uppercased) device.
pub proof fn law_block_state_round_trip(m: Map<Seq<char>, bool>, mac: Seq<char>, blocked: bool)
    ensures
        block_state_entry(
            "BLOCK_STATE_"@ + mac,
            if blocked {
                "true"@
            } else {
                "false"@
            },
        ) == Some((uppercase_text(mac), blocked)),
        restored(
            m,
            seq![
                (
                    "BLOCK_STATE_"@ + mac,
                    if blocked {
                        "true"@
                    } else {
                        "false"@
                    },
                ),
            ],
        ) == m.insert(uppercase_text(mac), blocked),
{
    reveal_strlit("BLOCK_STATE_");
    reveal_strlit("true");
    reveal_strlit("false");
    let key = "BLOCK_STATE_"@ + mac;
    assert(key.subrange(0, 12) =~= "BLOCK_STATE_"@);
    assert(key.skip(12) =~= mac);
    assert("true"@.len() == 4);
    assert("false"@.len() == 5);
    assert("true"@ != "false"@);
    let v = if blocked {
        "true"@
    } else {
        "false"@
    };
    assert(block_state_entry(key, v) == Some((uppercase_text(mac), blocked)));
    let es = seq![(key, v)];
    assert(es.drop_last() =~= Seq::<(Seq<char>, Seq<char>)>::empty());
    assert(es.last() == (key, v));
    assert(restored(m, es.drop_last()) == m);
}

/// Moving the allowance by `delta` starts from the larger of allowance and
/// usage: the new allowance is the largest of `current + delta`,
/// `usage + delta` and zero. So a device already over its allowance gets
/// `delta` seconds beyond what it has used.
pub proof fn law_adjust_moves_from_usage(delta: i64, current: i64, usage_sec: i64)
    ensures
        ({
            let v = adjusted_limit(None, delta, current, usage_sec);
            &&& v >= 0
            &&& v >= current + delta
            &&& v >= usage_sec + delta
            &&& (v == 0 || v == current + delta || v == usage_sec + delta)
        }),
        usage_sec >= current && usage_sec + delta >= 0 ==> adjusted_limit(None, delta, current, usage_sec)
            == usage_sec + delta,
{
}

/// A new allowance is never negative; setting the remaining minutes leaves
/// exactly that many minutes beyond today's usage.
pub proof fn law_adjust_sets_remaining(set_remaining_min: Option<i64>, delta: i64, current: i64, usage_sec: i64)
    ensures
        adjusted_limit(set_remaining_min, delta, current, usage_sec) >= 0,
        forall|m: i64|
            set_remaining_min == Some(m) && m >= 0 && usage_sec >= 0 ==> #[trigger] adjusted_limit(
                Some(m),
                delta,
                current,
                usage_sec,
            ) - usage_sec == m * 60,
{
}

// ------------------------------------------------------------------ points

/// An accepted exchange is of 30 or 60 points and never overdraws: the
/// balance covers the points, and the allowance grows by a minute per point.
pub proof fn law_exchange_never_overdraws(balance: i64, points: i64, user_found: bool, tablet: Option<Seq<char>>, current_limit: i64)
    ensures
        exchange_spec(balance, points, user_found, tablet, current_limit) is Ok ==> ({
            let (minutes, limit) = exchange_spec(balance, points, user_found, tablet, current_limit)->Ok_0;
            &&& (points == 30 || points == 60)
            &&& balance - points >= 0
            &&& minutes == points
            &&& limit == current_limit + 60 * points
        }),
{
}

/// The balance stored with a new ledger entry is the ledger's balance
/// after it: the old balance plus earned points, minus other points.
pub proof fn law_recorded_balance_matches_ledger(s: Seq<LedgerEntry>, e: LedgerEntry)
    requires
        ledger_fits(s),
        i64::MIN <= ledger_sum(s) + signed_points(e) <= i64::MAX,
    ensures
        balance_spec(s.push(e)) == balance_spec(s) + signed_points(e),
{
    assert(s.push(e).drop_last() =~= s);
}

/// An earned entry raises the balance by its points and any other entry
/// lowers it by its points, while the sums stay in range.
pub proof fn law_earn_adds_spend_subtracts(s: Seq<LedgerEntry>, e: LedgerEntry)
    requires
        ledger_fits(s),
        i64::MIN <= ledger_sum(s) - e.points && ledger_sum(s) + e.points <= i64::MAX,
        i64::MIN <= ledger_sum(s) + e.points && ledger_sum(s) - e.points <= i64::MAX,
    ensures
        e.tx_type@ == "earn"@ ==> balance_spec(s.push(e)) == balance_spec(s) + e.points,
        e.tx_type@ != "earn"@ ==> balance_spec(s.push(e)) == balance_spec(s) - e.points,
        balance_spec(Seq::<LedgerEntry>::empty()) == 0,
{
    assert(s.push(e).drop_last() =~= s);
}

/// The worth of a request: 30 points for a user without a tablet; with a
/// tablet, what the settings give for a known kind, or by default 60 for
/// tutoring and 30 for homework and other work.
pub proof fn law_request_worth(t: Seq<char>, configured: Option<i64>)
    ensures
        points_for_spec(t, false, configured) == 30,
        t == "tutoring"@ ==> points_for_spec(t, true, None) == 60,
        (t == "homework"@ || t == "other"@) ==> points_for_spec(t, true, None) == 30,
        (t == "tutoring"@ || t == "homework"@ || t == "other"@) && configured is Some ==> points_for_spec(
            t,
            true,
            configured,
        ) == configured->Some_0,
{
    reveal_strlit("tutoring");
    reveal_strlit("homework");
    reveal_strlit("other");
    if t == "homework"@ {
        assert(t[0] == 'h');
        assert("tutoring"@[0] == 't');
        assert(t != "tutoring"@);
        assert(valid_request_type(t));
    }
    if t == "other"@ {
        assert(t.len() != "tutoring"@.len());
        assert(valid_request_type(t));
    }
}

/// A kind of work already asked for this week is refused, and an accepted
/// request is always worth some points.
pub proof fn law_weekly_quota_and_positive_points(t: Seq<char>, user: Option<crate::models::User>, configured: Option<i64>)
    ensures
        valid_request_type(t) ==> apply_spec(t, true, user, configured) == Err::<int, ApplyError>(ApplyError::QuotaUsed),
        apply_spec(t, false, user, configured) is Ok ==> apply_spec(t, false, user, configured)->Ok_0 > 0,
{
}

// ------------------------------------------------------------------ DNS log

/// Once a request of a kind is pending or approved in the week, that kind
/// is used up for its user, and a further request of it is refused,
/// whatever else is stored.
pub proof fn law_pending_request_uses_quota(
    requests: Seq<PointRequest>,
    r: PointRequest,
    week_start: Seq<char>,
    user: Option<crate::models::User>,
    configured: Option<i64>,
)
    requires
        valid_request_type(r.request_type@),
        r.status@ == "pending"@ || r.status@ == "approved"@,
        !lex_lt(r.created_at@, week_start),
    ensures
        quota_used_spec(requests.push(r), r.user_id, r.request_type@, week_start),
        apply_spec(
            r.request_type@,
            quota_used_spec(requests.push(r), r.user_id, r.request_type@, week_start),
            user,
            configured,
        ) == Err::<int, ApplyError>(ApplyError::QuotaUsed),
{
    let s = requests.push(r);
    assert(s[requests.len() as int] == r);
    assert(uses_quota(s[requests.len() as int], r.user_id, r.request_type@, week_start));
}

/// The domains read from the log are distinct, never empty and never
/// reverse lookups; the answers are distinct and never empty.
pub proof fn law_dns_reading_is_clean(entries: Seq<LogView>, ip: Seq<char>, cutoff: Instant)
    ensures
        log_fold(entries, ip, cutoff).0.no_duplicates(),
        log_fold(entries, ip, cutoff).1.no_duplicates(),
        forall|i: int| 0 <= i < log_fold(entries, ip, cutoff).0.len() ==> {
            let d = #[trigger] log_fold(entries, ip, cutoff).0[i];
            d.len() > 0 && !is_reverse_lookup(d)
        },
        forall|i: int| 0 <= i < log_fold(entries, ip, cutoff).1.len() ==> (#[trigger] log_fold(
            entries,
            ip,
            cutoff,
        ).1[i]).len() > 0,
    decreases entries.len(),
{
    if entries.len() > 0 {
        law_dns_reading_is_clean(entries.drop_last(), ip, cutoff);
        let st = log_fold(entries.drop_last(), ip, cutoff);
        let e = entries.last();
        match e.answers {
            Some(a) => lemma_add_answers_clean(st.1, a),
            None => {},
        }
        lemma_push_clean(st.0);
    }
}

proof fn lemma_push_clean(s: Seq<Seq<char>>)
    requires
        s.no_duplicates(),
    ensures
        forall|d: Seq<char>| !s.contains(d) ==> #[trigger] s.push(d).no_duplicates(),
{
    assert forall|d: Seq<char>| !s.contains(d) implies #[trigger] s.push(d).no_duplicates() by {
        let t = s.push(d);
        assert forall|i: int, j: int| 0 <= i < t.len() && 0 <= j < t.len() && i != j implies t[i] != t[j] by {
            if i == s.len() {
                assert(t[j] == s[j]);
            } else if j == s.len() {
                assert(t[i] == s[i]);
            } else {
                assert(t[i] == s[i]);
                assert(t[j] == s[j]);
            }
        }
    }
}

proof fn lemma_add_answers_clean(acc: Seq<Seq<char>>, ans: Seq<Option<Seq<char>>>)
    requires
        acc.no_duplicates(),
        forall|i: int| 0 <= i < acc.len() ==> (#[trigger] acc[i]).len() > 0,
    ensures
        add_answers(acc, ans).no_duplicates(),
        forall|i: int| 0 <= i < add_answers(acc, ans).len() ==> (#[trigger] add_answers(acc, ans)[i]).len() > 0,
    decreases ans.len(),
{
    if ans.len() > 0 {
        lemma_add_answers_clean(acc, ans.drop_last());
        let prev = add_answers(acc, ans.drop_last());
        lemma_push_clean(prev);
        assert forall|i: int| 0 <= i < add_answers(acc, ans).len() implies (#[trigger] add_answers(acc, ans)[i]).len() > 0 by {
            if i < prev.len() {
                match ans.last() {
                    Some(a) => {
                        let c = crate::dns::unmapped(a);
                        if c.len() > 0 && !prev.contains(c) {
                            assert(add_answers(acc, ans)[i] == prev[i]);
                        }
                    },
                    None => {},
                }
            }
        }
    }
}

} // verus!
