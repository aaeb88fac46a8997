use vstd::prelude::*;
use crate::text::{chars_of, push_dec_u64, spec_dec, string_from_chars};

verus! {

/// The humanized age of a moment `diff` seconds in the past, bucketed at
/// minute, hour and day granularity; anything under a minute (and any
/// moment in the future) reads "just now".
pub open spec fn spec_relative_age(diff: int) -> Seq<char> {
    if diff < 60 {
        "just now"@
    } else if diff < 3600 {
        spec_dec(diff / 60) + " min ago"@
    } else if diff < 86400 {
        spec_dec(diff / 3600) + " hours ago"@
    } else {
        spec_dec(diff / 86400) + " days ago"@
    }
}

/// Relative-age text for a commit timestamp as seen at time `now`
/// (both in seconds since the Unix epoch).
pub fn format_relative_age(now: i64, timestamp: i64) -> (r: String)
    ensures
        r@ == spec_relative_age(now - timestamp),
{
    let diff: i128 = now as i128 - timestamp as i128;
    if diff < 60 {
        "just now".to_owned()
    } else {
        let d: u64 = diff as u64;
        proof {
            assert(d == now - timestamp);
        }
        let quotient: u64;
        let suffix: &str;
        if d < 3600 {
            quotient = d / 60;
            suffix = " min ago";
        } else if d < 86400 {
            quotient = d / 3600;
            suffix = " hours ago";
        } else {
            quotient = d / 86400;
            suffix = " days ago";
        }
        let mut v: Vec<char> = Vec::new();
        push_dec_u64(quotient, &mut v);
        let mut tail = chars_of(suffix);
        v.append(&mut tail);
        string_from_chars(&v)
    }
}

/// Relies on `std::time::SystemTime::now`, read as whole seconds since the
/// Unix epoch (0 when the clock reads before it). Nothing is promised of
/// the value: callers state what holds whatever moment comes back.
#[verifier::external_body]
fn now_unix_seconds() -> i64 {
    match std::time::SystemTime::now().duration_since(std::time::UNIX_EPOCH) {
        Ok(d) => d.as_secs() as i64,
        Err(_) => 0,
    }
}

/// Humanized age of `timestamp` relative to the wall clock at the moment of
/// the call.
pub fn format_relative_time(timestamp: i64) -> (r: String)
    ensures
        exists|now: i64| r@ == #[trigger] spec_relative_age(now - timestamp),
{
    let now = now_unix_seconds();
    let r = format_relative_age(now, timestamp);
    proof {
        assert(r@ == spec_relative_age(now - timestamp));
    }
    r
}

} // verus!
