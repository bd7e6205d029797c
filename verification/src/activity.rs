//! Deciding, minute by minute, whether a device is in use: DNS lookups of
//! known apps together with traffic or connections mean use; a short decay
//! keeps a device active through brief pauses; silence and blocking end it.

use vstd::prelude::*;
use crate::clock::{date_text_shape, local_date_text, local_minute_text, minute_text_shape};
use crate::domain_rules::{classification_of, classify_domains, matched_domains};
use crate::json::{json_list_or_empty, json_string_array};
use crate::keyed::KeyedList;
use crate::models::{ActivityResult, DomainClassification, VideoWindow};
use crate::order::{lemma_sorted_len, sorted_distinct, sorted_set_of};
use crate::text::{copy_strings, lowercase_text, str_eq, to_lowercase, views};

verus! {

/// How many quiet minutes a device stays active after a signal (the
/// ten-round decay window).
pub const DECAY_WINDOWS: i32 = 10;

/// Bytes per minute above which the device has traffic.
pub const BW_THRESHOLD: i64 = 50_000;

/// Bytes per minute below which the device is silent.
pub const IDLE_TRAFFIC: i64 = 5_000;

/// Connections from which the device has connections.
pub const CONN_THRESHOLD: i32 = 2;

/// Silent minutes after which the last activity is forgotten.
pub const SILENCE_THRESHOLD: i32 = 2;

/// How far back, in seconds, looked-up domains are remembered.
pub const DNS_MEMORY_SECS: i64 = 60;

/// What the detector remembers of one device.
#[derive(Debug, Clone, Copy)]
pub struct DeviceState {
    pub idle_count: i32,
    pub silence_count: i32,
    pub last_active_ts: Option<i64>,
}

/// The state of a device never seen before.
pub open spec fn fresh_state() -> DeviceState {
    DeviceState { idle_count: 0, silence_count: 0, last_active_ts: None }
}

/// The state after one round, and whether the device counts as active.
/// Blocking or adult mode forces idle and forgets the last activity; a
/// signal makes the device active and restarts the decay; silence makes it
/// idle and, after enough silent rounds, forgets the last activity; without
/// either, a device active lately stays active for a few rounds.
pub open spec fn next_state(
    st: DeviceState,
    signal: bool,
    silent: bool,
    force_idle: bool,
    ts: i64,
) -> (DeviceState, bool) {
    if force_idle {
        (
            DeviceState {
                idle_count: DECAY_WINDOWS,
                silence_count: st.silence_count,
                last_active_ts: None,
            },
            false,
        )
    } else if signal {
        (DeviceState { idle_count: 0, silence_count: 0, last_active_ts: Some(ts) }, true)
    } else if silent {
        let sc = (st.silence_count + 1) as i32;
        (
            DeviceState {
                idle_count: DECAY_WINDOWS,
                silence_count: sc,
                last_active_ts: if sc >= SILENCE_THRESHOLD {
                    None
                } else {
                    st.last_active_ts
                },
            },
            false,
        )
    } else if st.last_active_ts is Some && st.idle_count < DECAY_WINDOWS {
        (
            DeviceState {
                idle_count: (st.idle_count + 1) as i32,
                silence_count: st.silence_count,
                last_active_ts: st.last_active_ts,
            },
            true,
        )
    } else {
        (
            DeviceState {
                idle_count: DECAY_WINDOWS,
                silence_count: st.silence_count,
                last_active_ts: st.last_active_ts,
            },
            false,
        )
    }
}

/// A round's step would overflow the silence counter.
pub open spec fn step_overflows(st: DeviceState, signal: bool, silent: bool, force_idle: bool) -> bool {
    !force_idle && !signal && silent && st.silence_count == i32::MAX
}

/// Domains looked up at one time.
pub struct DnsBatch {
    pub ts: i64,
    pub domains: Vec<String>,
}

/// A batch as plain values.
pub open spec fn batch_view(b: DnsBatch) -> (i64, Seq<Seq<char>>) {
    (b.ts, views(b.domains@))
}

/// The views of a sequence of batches.
pub open spec fn batch_views(s: Seq<DnsBatch>) -> Seq<(i64, Seq<Seq<char>>)> {
    s.map_values(|b: DnsBatch| batch_view(b))
}

/// The batches from `cutoff` on, in order.
pub open spec fn keep_recent(s: Seq<(i64, Seq<Seq<char>>)>, cutoff: int) -> Seq<(i64, Seq<Seq<char>>)>
    decreases s.len(),
{
    if s.len() == 0 {
        s
    } else {
        let prev = keep_recent(s.drop_last(), cutoff);
        if s.last().0 >= cutoff {
            prev.push(s.last())
        } else {
            prev
        }
    }
}

/// Every domain of the batches.
pub open spec fn all_domains(s: Seq<(i64, Seq<Seq<char>>)>) -> Set<Seq<char>> {
    Set::new(
        |d: Seq<char>| exists|i: int, j: int| 0 <= i < s.len() && 0 <= j < s[i].1.len() && #[trigger] s[i].1[j] == d,
    )
}

/// The detection of one round: the verdict, the minute record to store, the
/// session change to store, and the classification behind them.
pub struct Detection {
    pub result: ActivityResult,
    pub window: VideoWindow,
    pub session: SessionUpsert,
    pub classification: DomainClassification,
}

/// A change to the device's session of the day: extend or open the active
/// one when the minute is active, close it when not.
#[derive(Debug, Clone)]
pub struct SessionUpsert {
    pub mac: String,
    pub date: String,
    pub ts: String,
    pub status: String,
    pub platform: String,
    pub domains: String,
}

/// Tracks every device's activity.
pub struct ActivityDetector {
    states: KeyedList<DeviceState>,
    prev_bytes: KeyedList<i64>,
    dns_cache: KeyedList<Vec<DnsBatch>>,
}

/// The first at most ten texts.
pub open spec fn first_ten(s: Seq<Seq<char>>) -> Seq<Seq<char>> {
    if s.len() <= 10 {
        s
    } else {
        s.take(10)
    }
}


/// The round's flags from its inputs: whether the domains name a known app,
/// whether there is traffic, connections, a signal (app and traffic or
/// connections), and silence (little traffic, no app, few connections).
pub open spec fn round_flags(dns: Seq<Seq<char>>, conn_count: i32, bytes_delta: i64) -> (
    bool,
    bool,
    bool,
    bool,
    bool,
) {
    let has_dns = classification_of(dns).0 != "NONE"@;
    let has_traffic = bytes_delta > BW_THRESHOLD;
    let has_conns = conn_count >= CONN_THRESHOLD;
    let signal = has_dns && (has_traffic || has_conns);
    let silent = bytes_delta < IDLE_TRAFFIC && !has_dns && conn_count < CONN_THRESHOLD;
    (has_dns, has_traffic, has_conns, signal, silent)
}

/// The status text of a round.
pub open spec fn status_text(active: bool) -> Seq<char> {
    if active {
        "ACTIVE"@
    } else {
        "IDLE"@
    }
}

/// Everything a round determines: the detector's new memory and each field
/// of the detection, given the minute and date texts of the round.
pub open spec fn detection_ok(
    old_d: ActivityDetector,
    new_d: ActivityDetector,
    out: Detection,
    mac: Seq<char>,
    ip: Seq<char>,
    ts: i64,
    minute: Seq<char>,
    date: Seq<char>,
    dns: Seq<Seq<char>>,
    conn_count: i32,
    bytes_delta: i64,
    force_idle: bool,
) -> bool {
    let cls = classification_of(dns);
    let flags = round_flags(dns, conn_count, bytes_delta);
    let stepped = next_state(old_d.state_of(mac), flags.3, flags.4, force_idle, ts);
    let active = stepped.1;
    let status = status_text(active);
    let cache = keep_recent(old_d.cache_of(mac).push((ts, dns)), ts - DNS_MEMORY_SECS);
    let platforms = json_string_array(views(out.classification.domains@));
    &&& new_d.wf()
    &&& new_d.state_of(mac) == stepped.0
    &&& forall|m: Seq<char>| m != mac ==> #[trigger] new_d.state_of(m) == old_d.state_of(m)
    &&& new_d.cache_of(mac) == cache
    &&& forall|m: Seq<char>| m != mac ==> #[trigger] new_d.cache_of(m) == old_d.cache_of(m)
    &&& forall|m: Seq<char>| #[trigger] new_d.prev_of(m) == old_d.prev_of(m)
    &&& (out.classification.category@, out.classification.name@) == cls
    &&& sorted_set_of(views(out.classification.domains@), matched_domains(dns))
    &&& out.result.mac@ == mac
    &&& out.result.ip@ == ip
    &&& out.result.status@ == status
    &&& out.result.category@ == cls.0
    &&& out.result.name@ == cls.1
    &&& out.result.bytes_delta == bytes_delta
    &&& out.result.conn_count == conn_count
    &&& out.result.has_dns == flags.0
    &&& out.result.has_traffic == flags.1
    &&& out.result.has_conns == flags.2
    &&& out.result.signal == flags.3
    &&& out.result.is_silent == flags.4
    &&& out.window.ts@ == minute
    &&& out.window.date@ == date
    &&& out.window.mac@ == mac
    &&& out.window.ip@ == ip
    &&& out.window.download_bytes == bytes_delta
    &&& out.window.dns_total_queries == all_domains(cache).len() as i64
    &&& out.window.video_domains@ == json_string_array(first_ten(dns))
    &&& out.window.video_platforms@ == platforms
    &&& out.window.video_score == if active {
        100i64
    } else {
        0i64
    }
    &&& out.window.video_status@ == status
    &&& out.window.activity_type@ == if active {
        lowercase_text(cls.0)
    } else {
        "none"@
    }
    &&& out.session.mac@ == mac
    &&& out.session.date@ == date
    &&& out.session.ts@ == minute
    &&& out.session.status@ == status
    &&& out.session.platform@ == cls.1
    &&& out.session.domains@ == platforms
}

/// One round's state step.
fn step(st: DeviceState, signal: bool, silent: bool, force_idle: bool, ts: i64) -> (r: (
    DeviceState,
    bool,
))
    requires
        !step_overflows(st, signal, silent, force_idle),
    ensures
        r == next_state(st, signal, silent, force_idle, ts),
{
    if force_idle {
        (DeviceState { idle_count: DECAY_WINDOWS, silence_count: st.silence_count, last_active_ts: None }, false)
    } else if signal {
        (DeviceState { idle_count: 0, silence_count: 0, last_active_ts: Some(ts) }, true)
    } else if silent {
        let sc = st.silence_count + 1;
        (
            DeviceState {
                idle_count: DECAY_WINDOWS,
                silence_count: sc,
                last_active_ts: if sc >= SILENCE_THRESHOLD {
                    None
                } else {
                    st.last_active_ts
                },
            },
            false,
        )
    } else if st.last_active_ts.is_some() && st.idle_count < DECAY_WINDOWS {
        (
            DeviceState {
                idle_count: st.idle_count + 1,
                silence_count: st.silence_count,
                last_active_ts: st.last_active_ts,
            },
            true,
        )
    } else {
        (
            DeviceState {
                idle_count: DECAY_WINDOWS,
                silence_count: st.silence_count,
                last_active_ts: st.last_active_ts,
            },
            false,
        )
    }
}

/// The first at most ten strings.
fn first_ten_of(v: &[String]) -> (r: Vec<String>)
    ensures
        views(r@) == first_ten(views(v@)),
{
    let n: usize = if v.len() <= 10 {
        v.len()
    } else {
        10
    };
    let mut r: Vec<String> = Vec::new();
    let mut i: usize = 0;
    while i < n
        invariant
            n <= v@.len(),
            i <= n,
            views(r@) == views(v@).take(i as int),
        decreases n - i,
    {
        let ghost before = views(r@);
        r.push(v[i].clone());
        assert(views(r@) =~= before.push(v@[i as int]@));
        assert(views(v@).take(i + 1) =~= views(v@).take(i as int).push(v@[i as int]@));
        i = i + 1;
    }
    assert(views(v@).take(v@.len() as int) =~= views(v@));
    r
}

impl ActivityDetector {
    /// Well formed.
    pub closed spec fn wf(&self) -> bool {
        self.states.wf() && self.prev_bytes.wf() && self.dns_cache.wf()
    }

    /// What the detector remembers of a device.
    pub closed spec fn state_of(&self, mac: Seq<char>) -> DeviceState {
        if self.states.view().contains_key(mac) {
            self.states.view()[mac]
        } else {
            fresh_state()
        }
    }

    /// The byte counter last seen for a device (0 before any).
    pub closed spec fn prev_of(&self, mac: Seq<char>) -> i64 {
        if self.prev_bytes.view().contains_key(mac) {
            self.prev_bytes.view()[mac]
        } else {
            0
        }
    }

    /// The remembered DNS batches of a device, oldest first.
    pub closed spec fn cache_of(&self, mac: Seq<char>) -> Seq<(i64, Seq<Seq<char>>)> {
        if self.dns_cache.view().contains_key(mac) {
            batch_views(self.dns_cache.view()[mac]@)
        } else {
            Seq::empty()
        }
    }

    /// A detector that has seen nothing.
    pub fn new() -> (r: Self)
        ensures
            r.wf(),
            forall|m: Seq<char>| #[trigger] r.state_of(m) == fresh_state(),
            forall|m: Seq<char>| #[trigger] r.prev_of(m) == 0,
            forall|m: Seq<char>| #[trigger] r.cache_of(m) == Seq::<(i64, Seq<Seq<char>>)>::empty(),
    {
        ActivityDetector { states: KeyedList::new(), prev_bytes: KeyedList::new(), dns_cache: KeyedList::new() }
    }

    /// What the detector remembers of a device (the fresh state if nothing).
    pub fn device_state(&self, mac: &str) -> (r: DeviceState)
        requires
            self.wf(),
        ensures
            r == self.state_of(mac@),
    {
        match self.states.get(mac) {
            Some(s) => *s,
            None => DeviceState { idle_count: 0, silence_count: 0, last_active_ts: None },
        }
    }

    /// The byte counter last seen for a device (0 before any).
    pub fn previous_bytes(&self, mac: &str) -> (r: i64)
        requires
            self.wf(),
        ensures
            r == self.prev_of(mac@),
    {
        match self.prev_bytes.get(mac) {
            Some(v) => *v,
            None => 0,
        }
    }

    /// The bytes a device moved since the last reading (never negative,
    /// so a reset counter gives 0), remembering the new reading.
    pub fn calc_bytes_delta(&mut self, mac: &str, current: i64) -> (delta: i64)
        requires
            old(self).wf(),
            i64::MIN <= current - old(self).prev_of(mac@) <= i64::MAX,
        ensures
            final(self).wf(),
            delta == if current - old(self).prev_of(mac@) > 0 {
                current - old(self).prev_of(mac@)
            } else {
                0
            },
            final(self).prev_of(mac@) == current,
            forall|m: Seq<char>| m != mac@ ==> #[trigger] final(self).prev_of(m) == old(self).prev_of(m),
            forall|m: Seq<char>| #[trigger] final(self).state_of(m) == old(self).state_of(m),
            forall|m: Seq<char>| #[trigger] final(self).cache_of(m) == old(self).cache_of(m),
    {
        let prev = self.previous_bytes(mac);
        self.prev_bytes.insert(String::from_str(mac), current);
        let d = current - prev;
        if d > 0 {
            d
        } else {
            0
        }
    }

    /// Remembers the domains a device looked up at `ts`, forgetting those
    /// older than a minute before `ts`.
    pub fn add_dns(&mut self, mac: &str, ts: i64, domains: Vec<String>)
        requires
            old(self).wf(),
            ts >= i64::MIN + DNS_MEMORY_SECS,
        ensures
            final(self).wf(),
            final(self).cache_of(mac@) == keep_recent(
                old(self).cache_of(mac@).push((ts, views(domains@))),
                ts - DNS_MEMORY_SECS,
            ),
            forall|m: Seq<char>| m != mac@ ==> #[trigger] final(self).cache_of(m) == old(self).cache_of(m),
            forall|m: Seq<char>| #[trigger] final(self).state_of(m) == old(self).state_of(m),
            forall|m: Seq<char>| #[trigger] final(self).prev_of(m) == old(self).prev_of(m),
    {
        let ghost all = self.cache_of(mac@).push((ts, views(domains@)));
        let mut list: Vec<DnsBatch> = Vec::new();
        let cutoff = ts - DNS_MEMORY_SECS;
        match self.dns_cache.get(mac) {
            Some(old_list) => {
                let mut i: usize = 0;
                while i < old_list.len()
                    invariant
                        i <= old_list@.len(),
                        batch_views(list@) == keep_recent(batch_views(old_list@).take(i as int), cutoff as int),
                    decreases old_list.len() - i,
                {
                    proof {
                        assert(batch_views(old_list@).take(i + 1).drop_last() =~= batch_views(old_list@).take(i as int));
                    }
                    if old_list[i].ts >= cutoff {
                        let ghost before = batch_views(list@);
                        list.push(DnsBatch { ts: old_list[i].ts, domains: copy_strings(old_list[i].domains.as_slice()) });
                        assert(batch_views(list@) =~= before.push(batch_view(old_list@[i as int])));
                    }
                    i = i + 1;
                }
                assert(batch_views(old_list@).take(old_list@.len() as int) =~= batch_views(old_list@));
            },
            None => {
                assert(batch_views(list@) =~= keep_recent(Seq::<(i64, Seq<Seq<char>>)>::empty(), cutoff as int));
            },
        }
        proof {
            assert(all.drop_last() =~= self.cache_of(mac@));
        }
        let ghost before = batch_views(list@);
        list.push(DnsBatch { ts, domains });
        assert(batch_views(list@) =~= before.push((ts, views(domains@))));
        self.dns_cache.insert(String::from_str(mac), list);
    }

    /// The round's step would overflow the device's silence counter (after
    /// more than two thousand million silent rounds in a row).
    pub fn round_overflows(&self, mac: &str, dns_domains: &[String], conn_count: i32, bytes_delta: i64, force_idle: bool) -> (r: bool)
        requires
            self.wf(),
        ensures
            r == step_overflows(
                self.state_of(mac@),
                round_flags(views(dns_domains@), conn_count, bytes_delta).3,
                round_flags(views(dns_domains@), conn_count, bytes_delta).4,
                force_idle,
            ),
    {
        let cls = classify_domains(dns_domains);
        let has_dns = !str_eq(cls.category.as_str(), "NONE");
        let signal = has_dns && (bytes_delta > BW_THRESHOLD || conn_count >= CONN_THRESHOLD);
        let silent = bytes_delta < IDLE_TRAFFIC && !has_dns && conn_count < CONN_THRESHOLD;
        let st = self.device_state(mac);
        !force_idle && !signal && silent && st.silence_count == i32::MAX
    }

    /// Judges one round of a device from the domains it looked up, its
    /// connection count and the bytes it moved, given the round's minute and
    /// date texts; updates the device's memory and returns the verdict with
    /// the records to store.
    pub fn detect_at(
        &mut self,
        mac: &str,
        ip: &str,
        ts: i64,
        minute_ts: String,
        date_str: String,
        dns_domains: Vec<String>,
        conn_count: i32,
        bytes_delta: i64,
        force_idle: bool,
    ) -> (out: Detection)
        requires
            old(self).wf(),
            ts >= i64::MIN + DNS_MEMORY_SECS,
            !step_overflows(
                old(self).state_of(mac@),
                round_flags(views(dns_domains@), conn_count, bytes_delta).3,
                round_flags(views(dns_domains@), conn_count, bytes_delta).4,
                force_idle,
            ),
        ensures
            detection_ok(
                *old(self),
                *final(self),
                out,
                mac@,
                ip@,
                ts,
                minute_ts@,
                date_str@,
                views(dns_domains@),
                conn_count,
                bytes_delta,
                force_idle,
            ),
    {
        let ghost dns = views(dns_domains@);
        let first = first_ten_of(dns_domains.as_slice());
        self.add_dns(mac, ts, copy_strings(dns_domains.as_slice()));
        let cls = classify_domains(dns_domains.as_slice());
        let has_dns = !str_eq(cls.category.as_str(), "NONE");
        let has_traffic = bytes_delta > BW_THRESHOLD;
        let has_conns = conn_count >= CONN_THRESHOLD;
        let signal = has_dns && (has_traffic || has_conns);
        let is_silent = bytes_delta < IDLE_TRAFFIC && !has_dns && conn_count < CONN_THRESHOLD;
        let st = self.device_state(mac);
        let (new_st, active) = step(st, signal, is_silent, force_idle, ts);
        let ghost mid = *self;
        self.states.insert(String::from_str(mac), new_st);
        proof {
            assert(self.dns_cache == mid.dns_cache);
            assert(self.prev_bytes == mid.prev_bytes);
            assert(forall|m: Seq<char>| #[trigger] self.cache_of(m) == mid.cache_of(m));
            assert(forall|m: Seq<char>| #[trigger] self.prev_of(m) == mid.prev_of(m));
            assert forall|m: Seq<char>| m != mac@ implies #[trigger] self.state_of(m) == mid.state_of(
                m,
            ) by {
                assert(self.states.view().contains_key(m) == mid.states.view().contains_key(m));
                if mid.states.view().contains_key(m) {
                    assert(self.states.view()[m] == mid.states.view()[m]);
                }
            }
        }
        let status: &str = if active {
            "ACTIVE"
        } else {
            "IDLE"
        };
        let activity_type = if active {
            to_lowercase(cls.category.as_str())
        } else {
            String::from_str("none")
        };
        let cached = self.get_cached_domains(mac);
        proof {
            lemma_sorted_len(views(cached@));
        }
        let total = cached.len() as i64;
        let video_domains = json_list_or_empty(first.as_slice());
        let platforms = json_list_or_empty(cls.domains.as_slice());
        let score: i64 = if active {
            100
        } else {
            0
        };
        let window = VideoWindow {
            ts: minute_ts.clone(),
            date: date_str.clone(),
            mac: String::from_str(mac),
            ip: String::from_str(ip),
            download_bytes: bytes_delta,
            dns_total_queries: total,
            video_domains,
            video_platforms: platforms.clone(),
            video_score: score,
            video_status: String::from_str(status),
            activity_type,
        };
        let session = SessionUpsert {
            mac: String::from_str(mac),
            date: date_str,
            ts: minute_ts,
            status: String::from_str(status),
            platform: cls.name.clone(),
            domains: platforms,
        };
        let result = ActivityResult {
            mac: String::from_str(mac),
            ip: String::from_str(ip),
            status: String::from_str(status),
            category: cls.category.clone(),
            name: cls.name.clone(),
            bytes_delta,
            conn_count,
            has_dns,
            has_traffic,
            has_conns,
            signal,
            is_silent,
        };
        Detection { result, window, session, classification: cls }
    }

    /// Judges one round at Unix time `ts` (as `detect_at` does), with the
    /// minute and date texts of `ts` in the local time zone.
    pub fn detect_and_record(
        &mut self,
        mac: &str,
        ip: &str,
        ts: i64,
        dns_domains: Vec<String>,
        conn_count: i32,
        bytes_delta: i64,
        force_idle: bool,
    ) -> (out: Detection)
        requires
            old(self).wf(),
            ts >= i64::MIN + DNS_MEMORY_SECS,
            !step_overflows(
                old(self).state_of(mac@),
                round_flags(views(dns_domains@), conn_count, bytes_delta).3,
                round_flags(views(dns_domains@), conn_count, bytes_delta).4,
                force_idle,
            ),
        ensures
            minute_text_shape(out.window.ts@),
            minute_text_shape(out.session.ts@),
            date_text_shape(out.window.date@),
            date_text_shape(out.session.date@),
            exists|minute: Seq<char>, date: Seq<char>|
                #[trigger] detection_ok(
                    *old(self),
                    *final(self),
                    out,
                    mac@,
                    ip@,
                    ts,
                    minute,
                    date,
                    views(dns_domains@),
                    conn_count,
                    bytes_delta,
                    force_idle,
                ),
    {
        let minute_ts = local_minute_text(ts);
        let date_str = local_date_text(ts);
        self.detect_at(mac, ip, ts, minute_ts, date_str, dns_domains, conn_count, bytes_delta, force_idle)
    }

    /// Judges one round as `detect_and_record` does when the round can be
    /// judged; `None`, with nothing remembered, when the time is out of range
    /// or the device's silence counter would overflow.
    pub fn detect_checked(
        &mut self,
        mac: &str,
        ip: &str,
        ts: i64,
        dns_domains: Vec<String>,
        conn_count: i32,
        bytes_delta: i64,
        force_idle: bool,
    ) -> (r: Option<Detection>)
        requires
            old(self).wf(),
        ensures
            r is None <==> (ts < i64::MIN + DNS_MEMORY_SECS || step_overflows(
                old(self).state_of(mac@),
                round_flags(views(dns_domains@), conn_count, bytes_delta).3,
                round_flags(views(dns_domains@), conn_count, bytes_delta).4,
                force_idle,
            )),
            r is None ==> *final(self) == *old(self),
            r matches Some(out) ==> {
                &&& minute_text_shape(out.window.ts@)
                &&& minute_text_shape(out.session.ts@)
                &&& date_text_shape(out.window.date@)
                &&& date_text_shape(out.session.date@)
                &&& exists|minute: Seq<char>, date: Seq<char>|
                    #[trigger] detection_ok(
                        *old(self),
                        *final(self),
                        out,
                        mac@,
                        ip@,
                        ts,
                        minute,
                        date,
                        views(dns_domains@),
                        conn_count,
                        bytes_delta,
                        force_idle,
                    )
            },
    {
        if ts < i64::MIN + DNS_MEMORY_SECS {
            return None;
        }
        if self.round_overflows(mac, dns_domains.as_slice(), conn_count, bytes_delta, force_idle) {
            return None;
        }
        Some(self.detect_and_record(mac, ip, ts, dns_domains, conn_count, bytes_delta, force_idle))
    }

    /// Every domain a device looked up in the remembered minute, sorted and
    /// without repeats.
    pub fn get_cached_domains(&self, mac: &str) -> (r: Vec<String>)
        requires
            self.wf(),
        ensures
            sorted_set_of(views(r@), all_domains(self.cache_of(mac@))),
    {
        let mut flat: Vec<String> = Vec::new();
        let ghost cache = self.cache_of(mac@);
        match self.dns_cache.get(mac) {
            Some(list) => {
                let mut i: usize = 0;
                while i < list.len()
                    invariant
                        i <= list@.len(),
                        cache == batch_views(list@),
                        views(flat@).to_set() == all_domains(cache.take(i as int)),
                    decreases list.len() - i,
                {
                    let mut j: usize = 0;
                    let ghost base = views(flat@).to_set();
                    while j < list[i].domains.len()
                        invariant
                            i < list@.len(),
                            j <= list@[i as int].domains@.len(),
                            cache == batch_views(list@),
                            base == all_domains(cache.take(i as int)),
                            views(flat@).to_set() == base.union(views(list@[i as int].domains@).take(j as int).to_set()),
                        decreases list@[i as int].domains@.len() - j,
                    {
                        let ghost before = views(flat@);
                        flat.push(list[i].domains[j].clone());
                        proof {
                            assert(views(flat@) =~= before.push(list@[i as int].domains@[j as int]@));
                            before.lemma_push_to_set_commute(list@[i as int].domains@[j as int]@);
                            let dv = views(list@[i as int].domains@);
                            assert(dv.take(j + 1) =~= dv.take(j as int).push(dv[j as int]));
                            dv.take(j as int).lemma_push_to_set_commute(dv[j as int]);
                        }
                        j = j + 1;
                    }
                    proof {
                        let dv = views(list@[i as int].domains@);
                        assert(dv.take(dv.len() as int) =~= dv);
                        assert(cache[i as int].1 == dv);
                        assert(views(flat@).to_set() =~= all_domains(cache.take(i + 1))) by {
                            assert forall|d: Seq<char>| #[trigger] views(flat@).to_set().contains(d) <==> all_domains(cache.take(i + 1)).contains(d) by {
                                if all_domains(cache.take(i + 1)).contains(d) {
                                    let (a, b) = choose|a: int, b: int| 0 <= a < cache.take(i + 1).len() && 0 <= b < cache.take(i + 1)[a].1.len() && #[trigger] cache.take(i + 1)[a].1[b] == d;
                                    if a < i {
                                        assert(cache.take(i as int)[a].1[b] == d);
                                    } else {
                                        assert(dv.contains(d));
                                        assert(dv[b] == d);
                                    }
                                }
                                if base.contains(d) {
                                    let (a, b) = choose|a: int, b: int| 0 <= a < cache.take(i as int).len() && 0 <= b < cache.take(i as int)[a].1.len() && #[trigger] cache.take(i as int)[a].1[b] == d;
                                    assert(cache.take(i + 1)[a].1[b] == d);
                                }
                                if dv.to_set().contains(d) {
                                    let b = choose|b: int| 0 <= b < dv.len() && dv[b] == d;
                                    assert(cache.take(i + 1)[i as int].1[b] == d);
                                }
                            }
                        }
                    }
                    i = i + 1;
                }
                assert(cache.take(list@.len() as int) =~= cache);
            },
            None => {
                assert(views(flat@).to_set() =~= all_domains(cache));
            },
        }
        sorted_distinct(flat.as_slice())
    }
}

} // verus!
