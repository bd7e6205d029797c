//! The control rules: when a device is blocked or let through, the memory
//! of what the router was last told, and the parents' adjustments.

use vstd::prelude::*;
use crate::keyed::KeyedList;
use crate::settings::{block_state_key, bool_text, limit_override_key, pause_key, switch_key};
use crate::text::{seq_starts_with, str_chars, str_eq, str_starts_with, string_of, to_uppercase, uppercase_text};

verus! {

// ------------------------------------------------------------------ the decision

/// While blocked or in adult mode, collected minutes are recorded as idle.
pub fn should_force_idle(blocked: bool, paused: bool) -> (r: bool)
    ensures
        r == (blocked || paused),
{
    blocked || paused
}

/// What the router is to be told about a device.
#[derive(Debug, Clone, Copy, PartialEq, Eq)]
pub enum FirewallAction {
    Block,
    Unblock,
}

/// A decision about one device and its reason.
pub struct DeviceDecision {
    pub action: FirewallAction,
    pub reason: &'static str,
}

/// The decision for a device: adult mode lets it through; a switch turned
/// off blocks it; with a non-negative allowance, reaching it blocks;
/// otherwise it is let through.
pub open spec fn decide_spec(paused: bool, switch_enabled: Option<bool>, limit_sec: i64, active_min: i64) -> (FirewallAction, Seq<char>) {
    if paused {
        (FirewallAction::Unblock, "大人模式 → 放行"@)
    } else if switch_enabled == Some(false) {
        (FirewallAction::Block, "开关关闭 → 封禁"@)
    } else if limit_sec >= 0 && active_min * 60 >= limit_sec {
        (FirewallAction::Block, "超限 → 封禁"@)
    } else {
        (FirewallAction::Unblock, "放行"@)
    }
}

/// Computing the usage overflows: the allowance is consulted and the
/// active minutes times sixty leave the `i64` range.
pub open spec fn decide_overflows(paused: bool, switch_enabled: Option<bool>, limit_sec: i64, active_min: i64) -> bool {
    !paused && switch_enabled != Some(false) && limit_sec >= 0 && !(i64::MIN <= active_min * 60 <= i64::MAX)
}

/// Decides whether a device is blocked now, from its adult-mode flag, its
/// switch, today's allowance in seconds and its active minutes today.
pub fn decide_device(paused: bool, switch_enabled: Option<bool>, limit_sec: i64, active_min: i64) -> (r: DeviceDecision)
    requires
        !decide_overflows(paused, switch_enabled, limit_sec, active_min),
    ensures
        (r.action, r.reason@) == decide_spec(paused, switch_enabled, limit_sec, active_min),
{
    if paused {
        return DeviceDecision { action: FirewallAction::Unblock, reason: "大人模式 → 放行" };
    }
    if switch_enabled == Some(false) {
        return DeviceDecision { action: FirewallAction::Block, reason: "开关关闭 → 封禁" };
    }
    if limit_sec >= 0 {
        let usage_sec = active_min * 60;
        if usage_sec >= limit_sec {
            return DeviceDecision { action: FirewallAction::Block, reason: "超限 → 封禁" };
        }
    }
    DeviceDecision { action: FirewallAction::Unblock, reason: "放行" }
}

/// The address to act on: the configured one, or the one the router's ARP
/// table gives when none is configured (empty when it gives none).
pub fn resolve_ip(configured: &str, arp_ip: Option<&String>) -> (r: String)
    ensures
        r@ == if configured@.len() == 0 {
            match arp_ip {
                Some(a) => a@,
                None => Seq::<char>::empty(),
            }
        } else {
            configured@
        },
{
    if configured.is_empty() {
        match arp_ip {
            Some(a) => a.clone(),
            None => String::new(),
        }
    } else {
        String::from_str(configured)
    }
}

/// The ARP table is needed: some tablet has no configured address.
pub fn need_arp(tablet_ips: &[String]) -> (r: bool)
    ensures
        r == exists|i: int| 0 <= i < tablet_ips@.len() && (#[trigger] tablet_ips@[i])@.len() == 0,
{
    let mut i: usize = 0;
    while i < tablet_ips.len()
        invariant
            i <= tablet_ips@.len(),
            forall|j: int| 0 <= j < i ==> (#[trigger] tablet_ips@[j])@.len() != 0,
        decreases tablet_ips.len() - i,
    {
        if tablet_ips[i].as_str().is_empty() {
            return true;
        }
        i = i + 1;
    }
    false
}

// ------------------------------------------------------------------ what the router was told

/// The blocked state last applied to each device, so that the router is
/// only told about changes.
pub struct FirewallState {
    applied: KeyedList<bool>,
}

/// A stored `BLOCK_STATE_<mac>` entry as the device (uppercased) and its
/// state; `None` for other keys and for values other than `true`/`false`.
pub open spec fn block_state_entry(key: Seq<char>, value: Seq<char>) -> Option<(Seq<char>, bool)> {
    if seq_starts_with(key, "BLOCK_STATE_"@) && (value == "true"@ || value == "false"@) {
        Some((uppercase_text(key.skip(12)), value == "true"@))
    } else {
        None
    }
}

/// The map after restoring stored entries in order (a later entry for the
/// same device wins).
pub open spec fn restored(m: Map<Seq<char>, bool>, entries: Seq<(Seq<char>, Seq<char>)>) -> Map<Seq<char>, bool>
    decreases entries.len(),
{
    if entries.len() == 0 {
        m
    } else {
        let prev = restored(m, entries.drop_last());
        match block_state_entry(entries.last().0, entries.last().1) {
            Some((mac, b)) => prev.insert(mac, b),
            None => prev,
        }
    }
}

/// The views of stored (key, value) pairs.
pub open spec fn pair_views(s: Seq<(String, String)>) -> Seq<(Seq<char>, Seq<char>)> {
    s.map_values(|p: (String, String)| (p.0@, p.1@))
}

impl FirewallState {
    /// Well formed.
    pub closed spec fn wf(&self) -> bool {
        self.applied.wf()
    }

    /// The state last applied to each device.
    pub closed spec fn view(&self) -> Map<Seq<char>, bool> {
        self.applied.view()
    }

    /// Nothing applied yet.
    pub fn new() -> (r: Self)
        ensures
            r.wf(),
            r@ == Map::<Seq<char>, bool>::empty(),
    {
        FirewallState { applied: KeyedList::new() }
    }

    /// The state last applied to a device, if any.
    pub fn applied_state(&self, key: &str) -> (r: Option<bool>)
        requires
            self.wf(),
        ensures
            r == if self@.contains_key(key@) {
                Some(self@[key@])
            } else {
                None
            },
    {
        match self.applied.get(key) {
            Some(b) => Some(*b),
            None => None,
        }
    }

    /// The router must be told: the device is not known to be in the wanted
    /// state already.
    pub fn needs_change(&self, key: &str, block: bool) -> (r: bool)
        requires
            self.wf(),
        ensures
            r == !(self@.contains_key(key@) && self@[key@] == block),
    {
        match self.applied.get(key) {
            Some(b) => *b != block,
            None => true,
        }
    }

    /// Remembers the state just applied to a device.
    pub fn record(&mut self, key: &str, blocked: bool)
        requires
            old(self).wf(),
        ensures
            final(self).wf(),
            final(self)@ == old(self)@.insert(key@, blocked),
    {
        self.applied.insert(String::from_str(key), blocked);
    }

    /// Restores the states kept in the settings (`BLOCK_STATE_<mac>` =
    /// `true`/`false`), in the given order.
    pub fn load_block_states(&mut self, entries: &[(String, String)])
        requires
            old(self).wf(),
        ensures
            final(self).wf(),
            final(self)@ == restored(old(self)@, pair_views(entries@)),
    {
        let ghost pv = pair_views(entries@);
        let mut i: usize = 0;
        while i < entries.len()
            invariant
                i <= entries@.len(),
                self.wf(),
                pv == pair_views(entries@),
                self@ == restored(old(self)@, pv.take(i as int)),
            decreases entries.len() - i,
        {
            proof {
                assert(pv.take(i + 1).drop_last() =~= pv.take(i as int));
                assert(pv.take(i + 1).last() == (entries@[i as int].0@, entries@[i as int].1@));
            }
            match parse_block_state(entries[i].0.as_str(), entries[i].1.as_str()) {
                Some((mac, b)) => {
                    self.applied.insert(mac, b);
                },
                None => {},
            }
            i = i + 1;
        }
        assert(pv.take(pv.len() as int) =~= pv);
    }

    /// What to store so the device's applied state survives a restart:
    /// `None` when nothing is known or the store already says so.
    pub fn persist_plan(&self, mac_upper: &str, stored: &Option<String>) -> (r: Option<(String, String)>)
        requires
            self.wf(),
        ensures
            !self@.contains_key(mac_upper@) ==> r is None,
            self@.contains_key(mac_upper@) ==> {
                let value = if self@[mac_upper@] {
                    "true"@
                } else {
                    "false"@
                };
                if crate::settings::value_view(*stored) == Some(value) {
                    r is None
                } else {
                    (r matches Some((k, v)) && k@ == "BLOCK_STATE_"@ + mac_upper@ && v@ == value)
                }
            },
    {
        let blocked = match self.applied.get(mac_upper) {
            Some(b) => *b,
            None => return None,
        };
        let value = bool_text(blocked);
        match stored {
            Some(s) => {
                if str_eq(s.as_str(), value.as_str()) {
                    return None;
                }
            },
            None => {},
        }
        Some((block_state_key(mac_upper), value))
    }
}

/// A stored entry's device part (as written, before uppercasing) and state:
/// `None` for other keys and for values other than `true`/`false`.
pub open spec fn block_state_parts_spec(key: Seq<char>, value: Seq<char>) -> Option<(Seq<char>, bool)> {
    if seq_starts_with(key, "BLOCK_STATE_"@) && (value == "true"@ || value == "false"@) {
        Some((key.skip(12), value == "true"@))
    } else {
        None
    }
}

/// Splits one stored entry into its device part, as written, and its
/// blocked state.
pub fn block_state_parts(key: &str, value: &str) -> (r: Option<(String, bool)>)
    ensures
        match r {
            Some((mac, b)) => block_state_parts_spec(key@, value@) == Some((mac@, b)),
            None => block_state_parts_spec(key@, value@) is None,
        },
{
    if !str_starts_with(key, "BLOCK_STATE_") {
        return None;
    }
    let is_t = str_eq(value, "true");
    let is_f = str_eq(value, "false");
    if !is_t && !is_f {
        return None;
    }
    let kc = str_chars(key);
    let mut rest: Vec<char> = Vec::new();
    let mut j: usize = 12;
    proof {
        reveal_strlit("BLOCK_STATE_");
    }
    while j < kc.len()
        invariant
            12 <= kc@.len(),
            12 <= j <= kc@.len(),
            rest@ == kc@.subrange(12, j as int),
        decreases kc.len() - j,
    {
        rest.push(kc[j]);
        j = j + 1;
    }
    assert(rest@ =~= key@.skip(12));
    Some((string_of(rest.as_slice()), is_t))
}

/// Reads one stored entry as a device and its blocked state.
pub fn parse_block_state(key: &str, value: &str) -> (r: Option<(String, bool)>)
    ensures
        match r {
            Some((mac, b)) => block_state_entry(key@, value@) == Some((mac@, b)),
            None => block_state_entry(key@, value@) is None,
        },
{
    match block_state_parts(key, value) {
        Some((raw, b)) => Some((to_uppercase(raw.as_str()), b)),
        None => None,
    }
}

// ------------------------------------------------------------------ dashboard cache

/// How a refresh of the dashboard cache ended.
#[derive(Debug, Clone, Copy, PartialEq, Eq)]
pub enum RefreshOutcome {
    Fresh,
    Failed,
    TimedOut,
}

/// What the refresh loop does next: its failure count, and whether it
/// pauses for five minutes (instead of the usual one) after three failures
/// in a row.
#[derive(Debug, Clone, Copy, PartialEq, Eq)]
pub struct RefreshStep {
    pub failures: u32,
    pub long_pause: bool,
}

/// One turn of the refresh loop: success clears the failures; a failure
/// counts, and the third in a row brings the long pause and a fresh count;
/// a timeout counts without that check.
pub fn refresh_step(failures: u32, outcome: RefreshOutcome) -> (r: RefreshStep)
    requires
        outcome != RefreshOutcome::Fresh ==> failures < u32::MAX,
    ensures
        r == match outcome {
            RefreshOutcome::Fresh => RefreshStep { failures: 0, long_pause: false },
            RefreshOutcome::Failed => if failures + 1 >= 3 {
                RefreshStep { failures: 0, long_pause: true }
            } else {
                RefreshStep { failures: (failures + 1) as u32, long_pause: false }
            },
            RefreshOutcome::TimedOut => RefreshStep { failures: (failures + 1) as u32, long_pause: false },
        },
{
    match outcome {
        RefreshOutcome::Fresh => RefreshStep { failures: 0, long_pause: false },
        RefreshOutcome::Failed => {
            let f = failures + 1;
            if f >= 3 {
                RefreshStep { failures: 0, long_pause: true }
            } else {
                RefreshStep { failures: f, long_pause: false }
            }
        },
        RefreshOutcome::TimedOut => RefreshStep { failures: failures + 1, long_pause: false },
    }
}

// ------------------------------------------------------------------ parents' adjustments

/// A request to change today's allowance of a device: set the remaining
/// minutes, or move the allowance by `delta` seconds.
#[derive(Debug, Clone)]
pub struct AdjustRequest {
    pub mac: String,
    pub delta: i64,
    /// Today's remaining minutes, set directly (takes precedence over `delta`).
    pub set_remaining_min: Option<i64>,
}

/// A request to turn a device's switch on or off.
#[derive(Debug, Clone)]
pub struct SwitchRequest {
    pub mac: String,
    pub enabled: bool,
}

/// A request to turn adult mode on or off.
#[derive(Debug, Clone)]
pub struct PauseRequest {
    pub mac: String,
    pub paused: bool,
}

/// What an adjustment writes: the day's override, or its removal when the
/// new allowance equals the daily one.
#[derive(Debug, Clone)]
pub enum LimitWrite {
    Store(String, String),
    Delete(String),
}

/// The allowance an adjustment gives: the usage plus the remaining minutes
/// (never below zero), or the larger of allowance and usage moved by
/// `delta`, floored at zero.
pub open spec fn adjusted_limit(set_remaining_min: Option<i64>, delta: i64, current: i64, usage_sec: i64) -> int {
    match set_remaining_min {
        Some(mins) => {
            let m = if mins > 0 {
                mins as int
            } else {
                0
            };
            let v = usage_sec + m * 60;
            if v > 0 {
                v
            } else {
                0
            }
        },
        None => {
            let base = if current > usage_sec {
                current as int
            } else {
                usage_sec as int
            };
            let v = base + delta;
            if v > 0 {
                v
            } else {
                0
            }
        },
    }
}

/// The adjustment's arithmetic stays in the `i64` range.
pub open spec fn adjust_fits(set_remaining_min: Option<i64>, delta: i64, current: i64, usage_sec: i64) -> bool {
    match set_remaining_min {
        Some(mins) => {
            let m = if mins > 0 {
                mins as int
            } else {
                0
            };
            m * 60 <= i64::MAX && usage_sec + m * 60 <= i64::MAX && usage_sec + m * 60 >= i64::MIN
        },
        None => {
            let base = if current > usage_sec {
                current as int
            } else {
                usage_sec as int
            };
            i64::MIN <= base + delta <= i64::MAX
        },
    }
}

/// Plans an adjustment of today's allowance: the new allowance in seconds
/// and the write that stores it under the day's override key.
pub fn plan_adjust(req: &AdjustRequest, mac_upper: &str, today: &str, current: i64, usage_sec: i64, base_limit: i64) -> (r: (i64, LimitWrite))
    requires
        adjust_fits(req.set_remaining_min, req.delta, current, usage_sec),
    ensures
        r.0 == adjusted_limit(req.set_remaining_min, req.delta, current, usage_sec),
        r.0 == base_limit ==> (r.1 matches LimitWrite::Delete(k) && k@ == "LIMIT_OVERRIDE_"@ + mac_upper@ + "_"@ + today@),
        r.0 != base_limit ==> (r.1 matches LimitWrite::Store(k, v) && k@ == "LIMIT_OVERRIDE_"@ + mac_upper@ + "_"@ + today@ && v@ == crate::numtext::int_text(r.0 as int)),
{
    let new_val: i64 = match req.set_remaining_min {
        Some(mins) => {
            let m = if mins > 0 {
                mins
            } else {
                0
            };
            let v = usage_sec + m * 60;
            if v > 0 {
                v
            } else {
                0
            }
        },
        None => {
            let base = if current > usage_sec {
                current
            } else {
                usage_sec
            };
            let v = base + req.delta;
            if v > 0 {
                v
            } else {
                0
            }
        },
    };
    let key = limit_override_key(mac_upper, today);
    if new_val == base_limit {
        (new_val, LimitWrite::Delete(key))
    } else {
        (new_val, LimitWrite::Store(key, crate::numtext::i64_text(new_val)))
    }
}

/// The setting a switch request writes, and whether the device ends up
/// blocked.
pub fn plan_switch(req: &SwitchRequest, mac_upper: &str) -> (r: (String, String, bool))
    ensures
        r.0@ == "SWITCH_"@ + mac_upper@,
        r.1@ == if req.enabled {
            "true"@
        } else {
            "false"@
        },
        r.2 == !req.enabled,
{
    (switch_key(mac_upper), bool_text(req.enabled), !req.enabled)
}

/// The setting a pause request writes.
pub fn plan_pause(req: &PauseRequest, mac_upper: &str) -> (r: (String, String))
    ensures
        r.0@ == "PAUSE_"@ + mac_upper@,
        r.1@ == if req.paused {
            "true"@
        } else {
            "false"@
        },
{
    (pause_key(mac_upper), bool_text(req.paused))
}

} // verus!
