//! What the parents' dashboard shows of each device.

use vstd::prelude::*;
use crate::models::{ControlStatus, DeviceInfo};
use crate::control::{decide_device, decide_spec};
use crate::text::{char_views, split_chars, split_on, str_chars, string_of};

verus! {

/// The number of bytes `char::len_utf8` gives for a character.
pub open spec fn utf8_width(c: char) -> int {
    if (c as u32) <= 0x7f {
        1
    } else if (c as u32) <= 0x7ff {
        2
    } else if (c as u32) <= 0xffff {
        3
    } else {
        4
    }
}

/// `str::get(..n)`: the leading characters that take exactly `n` bytes of
/// UTF-8, or `None` when `n` is past the end or inside a character.
pub open spec fn byte_prefix(p: Seq<char>, n: int) -> Option<Seq<char>>
    decreases p.len(),
{
    if n == 0 {
        Some(Seq::empty())
    } else if p.len() == 0 || utf8_width(p[0]) > n {
        None
    } else {
        match byte_prefix(p.drop_first(), n - utf8_width(p[0])) {
            Some(r) => Some(seq![p[0]] + r),
            None => None,
        }
    }
}

/// The `HH:MM` of a minute text `YYYY-MM-DDTHH:MM:SS`: the first five
/// bytes after the first `T` (up to a second `T`); empty when there are
/// not five whole characters' worth.
pub open spec fn clock_time_spec(ts: Seq<char>) -> Seq<char> {
    let parts = split_on(ts, 'T');
    if parts.len() < 2 {
        Seq::empty()
    } else {
        match byte_prefix(parts[1], 5) {
            Some(p) => p,
            None => Seq::empty(),
        }
    }
}

fn char_width(c: char) -> (w: usize)
    ensures
        w == utf8_width(c),
{
    let v = c as u32;
    if v <= 0x7f {
        1
    } else if v <= 0x7ff {
        2
    } else if v <= 0xffff {
        3
    } else {
        4
    }
}

/// The `HH:MM` of a stored minute text.
pub fn clock_time(ts: &str) -> (r: String)
    ensures
        r@ == clock_time_spec(ts@),
{
    let cs = str_chars(ts);
    let parts = split_chars(cs.as_slice(), 'T');
    if parts.len() < 2 {
        return String::new();
    }
    let p = &parts[1];
    assert(char_views(parts@)[1] == p@);
    assert(split_on(ts@, 'T')[1] == p@);
    let mut out: Vec<char> = Vec::new();
    let mut left: usize = 5;
    let mut i: usize = 0;
    assert(p@.skip(0) =~= p@);
    while left > 0
        invariant
            i <= p@.len(),
            left <= 5,
            split_on(ts@, 'T').len() >= 2,
            split_on(ts@, 'T')[1] == p@,
            byte_prefix(p@, 5) == match byte_prefix(p@.skip(i as int), left as int) {
                Some(r) => Some(out@ + r),
                None => None,
            },
        decreases 5 - (5 - left) + (p@.len() - i),
    {
        if i >= p.len() {
            proof {
                assert(p@.skip(i as int).len() == 0);
                assert(byte_prefix(p@.skip(i as int), left as int) is None);
                assert(clock_time_spec(ts@) =~= Seq::<char>::empty());
            }
            return String::new();
        }
        let w = char_width(p[i]);
        if w > left {
            proof {
                let t = p@.skip(i as int);
                assert(t[0] == p@[i as int]);
                assert(byte_prefix(t, left as int) is None);
                assert(clock_time_spec(ts@) =~= Seq::<char>::empty());
            }
            return String::new();
        }
        proof {
            let t = p@.skip(i as int);
            assert(t[0] == p@[i as int]);
            assert(t.drop_first() =~= p@.skip(i + 1));
            match byte_prefix(p@.skip(i + 1), left - w) {
                Some(r) => {
                    assert(out@.push(p@[i as int]) + r =~= out@ + (seq![t[0]] + r));
                },
                None => {},
            }
        }
        out.push(p[i]);
        left = left - w;
        i = i + 1;
    }
    assert(out@ + Seq::<char>::empty() =~= out@);
    string_of(out.as_slice())
}

/// The device's line on the dashboard: online when it has an address, and
/// its usage in seconds from its active minutes.
pub fn device_info(
    mac_upper: &str,
    name: &str,
    ip: &str,
    minutes: (i64, i64, i64),
    limit_sec: i64,
) -> (r: DeviceInfo)
    requires
        minutes.0 * 60 <= i64::MAX,
        minutes.0 * 60 >= i64::MIN,
    ensures
        r.mac@ == mac_upper@,
        r.name@ == name@,
        r.ip@ == ip@,
        r.online == (ip@.len() > 0),
        r.daily_active_min == minutes.0,
        r.daily_video_min == minutes.1,
        r.daily_game_min == minutes.2,
        r.limit_sec == limit_sec,
        r.usage_sec == minutes.0 * 60,
{
    DeviceInfo {
        mac: String::from_str(mac_upper),
        name: String::from_str(name),
        ip: String::from_str(ip),
        online: !ip.is_empty(),
        daily_active_min: minutes.0,
        daily_video_min: minutes.1,
        daily_game_min: minutes.2,
        limit_sec,
        usage_sec: minutes.0 * 60,
    }
}

/// The device's line on the control page: blocked when it is online and
/// its address is in the block list; the reason is what the control cycle
/// decides for the device now.
pub fn control_status(
    mac_upper: &str,
    name: &str,
    ip: &str,
    paused: bool,
    switch_enabled: Option<bool>,
    active_min: i64,
    limit_sec: i64,
    list_rows: i32,
) -> (r: ControlStatus)
    requires
        i64::MIN <= active_min * 60 <= i64::MAX,
    ensures
        r.mac@ == mac_upper@,
        r.name@ == name@,
        r.ip@ == ip@,
        r.online == (ip@.len() > 0),
        r.blocked == (ip@.len() > 0 && list_rows > 0),
        r.paused == paused,
        r.switch_enabled == switch_enabled,
        r.usage_sec == active_min * 60,
        r.limit_sec == limit_sec,
        r.reason@ == decide_spec(paused, switch_enabled, limit_sec, active_min).1,
{
    let online = !ip.is_empty();
    let decision = decide_device(paused, switch_enabled, limit_sec, active_min);
    ControlStatus {
        mac: String::from_str(mac_upper),
        name: String::from_str(name),
        ip: String::from_str(ip),
        online,
        blocked: online && list_rows > 0,
        paused,
        switch_enabled,
        usage_sec: active_min * 60,
        limit_sec,
        reason: String::from_str(decision.reason),
    }
}

/// A query for a device's minute records names both the device and the day.
pub fn video_windows_query_ok(mac: &str, date: &str) -> (r: bool)
    ensures
        r == (mac@.len() > 0 && date@.len() > 0),
{
    !mac.is_empty() && !date.is_empty()
}

} // verus!
