//! The uptime probe: turns a system uptime in seconds into a human-readable
//! duration such as `1 days, 1 hours, 0 minutes`.
//!
//! The uptime is first rounded to whole minutes (halves rounded up) and then
//! decomposed into days, hours and minutes. The days segment appears only
//! when there is at least one day; the hours segment whenever a days segment
//! appears or there is at least one hour; the minutes segment whenever any
//! other segment appears or there is at least one minute. An uptime that
//! rounds to zero minutes therefore yields the empty string.

use vstd::prelude::*;
use vstd::arithmetic::div_mod::lemma_multiply_divide_lt;
use crate::numfmt::{dec_rep, u64_to_string};

verus! {

/// The whole minutes nearest to `secs` seconds, halves rounded up.
pub open spec fn minutes_of(secs: nat) -> nat {
    (secs + 30) / 60
}

/// The rendered uptime for `secs` seconds.
pub open spec fn uptime_text(secs: nat) -> Seq<char> {
    let m = minutes_of(secs);
    let days = m / 1440;
    let hours = (m % 1440) / 60;
    let minutes = m % 60;
    if days > 0 {
        dec_rep(days) + " days, "@ + dec_rep(hours) + " hours, "@ + dec_rep(minutes) + " minutes"@
    } else if hours > 0 {
        dec_rep(hours) + " hours, "@ + dec_rep(minutes) + " minutes"@
    } else if minutes > 0 {
        dec_rep(minutes) + " minutes"@
    } else {
        Seq::empty()
    }
}

/// Renders the uptime fact from a system uptime of `uptime_seconds` seconds.
pub fn get_current(uptime_seconds: u64) -> (r: String)
    ensures
        r@ == uptime_text(uptime_seconds as nat),
{
    let num = (uptime_seconds as u128) + 30;
    let m128 = num / 60;
    proof {
        assert(num < 60 * 0x1000_0000_0000_0000);
        lemma_multiply_divide_lt(num as int, 60, 0x1000_0000_0000_0000);
    }
    let m = m128 as u64;
    let days = m / 1440;
    let hours = (m % 1440) / 60;
    let minutes = m % 60;
    if days > 0 {
        let mut r = u64_to_string(days);
        r.append(" days, ");
        let h = u64_to_string(hours);
        r.append(h.as_str());
        r.append(" hours, ");
        let mi = u64_to_string(minutes);
        r.append(mi.as_str());
        r.append(" minutes");
        r
    } else if hours > 0 {
        let mut r = u64_to_string(hours);
        r.append(" hours, ");
        let mi = u64_to_string(minutes);
        r.append(mi.as_str());
        r.append(" minutes");
        r
    } else if minutes > 0 {
        let mut r = u64_to_string(minutes);
        r.append(" minutes");
        r
    } else {
        String::new()
    }
}

} // verus!
