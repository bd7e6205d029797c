//! The rules of the key-value settings: their keys, defaults, flags and
//! daily limits. Reading and writing the store is the caller's part; these
//! functions take what was read and say what to write.

use vstd::prelude::*;
use crate::numtext::{i64_chars, int_text, parse_i64, parse_i64_spec};
use crate::text::{concat, str_chars, str_eq, str_starts_with, seq_starts_with, string_of};

verus! {

/// The view of an optional stored value.
pub open spec fn value_view(v: Option<String>) -> Option<Seq<char>> {
    match v {
        Some(s) => Some(s@),
        None => None,
    }
}

/// A stored value read as an `i64`, if it is one.
pub open spec fn value_i64(v: Option<String>) -> Option<i64> {
    match v {
        Some(s) => parse_i64_spec(s@),
        None => None,
    }
}

/// The stored value, or `default` when there is none.
pub fn get_or(value: Option<String>, default: &str) -> (r: String)
    ensures
        r@ == match value {
            Some(s) => s@,
            None => default@,
        },
{
    match value {
        Some(s) => s,
        None => String::from_str(default),
    }
}

/// The stored value read as an `i64`, if it is one.
pub fn get_i64_opt(value: &Option<String>) -> (r: Option<i64>)
    ensures
        r == value_i64(*value),
{
    match value {
        Some(s) => {
            let cs = str_chars(s.as_str());
            parse_i64(cs.as_slice())
        },
        None => None,
    }
}

/// The stored value read as an `i64`, or `default` when it is missing or
/// not a number.
pub fn get_i64(value: &Option<String>, default: i64) -> (r: i64)
    ensures
        r == match value_i64(*value) {
            Some(n) => n,
            None => default,
        },
{
    match get_i64_opt(value) {
        Some(n) => n,
        None => default,
    }
}

/// The default daily allowance, in minutes, when `DAILY_LIMIT` is unset.
pub const DEFAULT_DAILY_LIMIT_MIN: i64 = 60;

/// The daily allowance in seconds that a stored `DAILY_LIMIT` value (in
/// minutes) gives.
pub open spec fn daily_limit_spec(value: Option<String>) -> int {
    match value_i64(value) {
        Some(n) => n * 60,
        None => DEFAULT_DAILY_LIMIT_MIN * 60,
    }
}

/// The daily allowance in seconds from the stored `DAILY_LIMIT` minutes.
pub fn get_daily_limit(value: &Option<String>) -> (r: i64)
    requires
        i64::MIN <= daily_limit_spec(*value) <= i64::MAX,
    ensures
        r == daily_limit_spec(*value),
{
    get_i64(value, DEFAULT_DAILY_LIMIT_MIN) * 60
}

/// Today's allowance in seconds: the day's override when one is stored
/// (zero included), else the daily allowance.
pub fn get_current_limit(override_value: &Option<String>, daily_limit: i64) -> (r: i64)
    ensures
        r == match value_i64(*override_value) {
            Some(n) => n,
            None => daily_limit,
        },
{
    match get_i64_opt(override_value) {
        Some(n) => n,
        None => daily_limit,
    }
}

/// The key of a device's override of the allowance for one day.
pub fn limit_override_key(mac_upper: &str, today: &str) -> (r: String)
    ensures
        r@ == "LIMIT_OVERRIDE_"@ + mac_upper@ + "_"@ + today@,
{
    let mut k = concat("LIMIT_OVERRIDE_", mac_upper);
    k.append("_");
    k.append(today);
    k
}

/// The key of a device's adult-mode flag.
pub fn pause_key(mac_upper: &str) -> (r: String)
    ensures
        r@ == "PAUSE_"@ + mac_upper@,
{
    concat("PAUSE_", mac_upper)
}

/// The key of a device's on/off switch.
pub fn switch_key(mac_upper: &str) -> (r: String)
    ensures
        r@ == "SWITCH_"@ + mac_upper@,
{
    concat("SWITCH_", mac_upper)
}

/// The key under which a device's blocked state is kept across restarts.
pub fn block_state_key(mac_upper: &str) -> (r: String)
    ensures
        r@ == "BLOCK_STATE_"@ + mac_upper@,
{
    concat("BLOCK_STATE_", mac_upper)
}

/// The key of a user's points settings.
pub fn points_config_key(user_id: i64) -> (r: String)
    ensures
        r@ == "POINTS_CONFIG_USER_"@ + int_text(user_id as int),
{
    let id = i64_chars(user_id);
    let idt = string_of(id.as_slice());
    concat("POINTS_CONFIG_USER_", idt.as_str())
}

/// The stored flag is exactly `true`.
pub fn is_true(value: &Option<String>) -> (r: bool)
    ensures
        r == (value_view(*value) == Some("true"@)),
{
    match value {
        Some(s) => str_eq(s.as_str(), "true"),
        None => false,
    }
}

/// A stored switch: on when `true`, off for any other text, unset when
/// missing.
pub fn switch_state(value: &Option<String>) -> (r: Option<bool>)
    ensures
        r == match value_view(*value) {
            Some(s) => Some(s == "true"@),
            None => None,
        },
{
    match value {
        Some(s) => Some(str_eq(s.as_str(), "true")),
        None => None,
    }
}

/// The text a flag is stored as.
pub fn bool_text(b: bool) -> (r: String)
    ensures
        r@ == if b {
            "true"@
        } else {
            "false"@
        },
{
    if b {
        String::from_str("true")
    } else {
        String::from_str("false")
    }
}

/// The name of the router's address list for blocked devices.
pub fn block_list_name(value: Option<String>) -> (r: String)
    ensures
        r@ == match value {
            Some(s) => s@,
            None => "block-tablet"@,
        },
{
    get_or(value, "block-tablet")
}

/// The DNS log service's address: `http://` is put in front unless the
/// text already begins with `http`.
pub fn normalize_service_url(raw: &str) -> (r: String)
    ensures
        r@ == if seq_starts_with(raw@, "http"@) {
            raw@
        } else {
            "http://"@ + raw@
        },
{
    if str_starts_with(raw, "http") {
        String::from_str(raw)
    } else {
        concat("http://", raw)
    }
}

} // verus!
