//! Relative-age text for container cards.

use vstd::prelude::*;
use vstd::string::StringExecFns;
use crate::text::{i128_to_string, int_dec_str};

verus! {

/// The relative-age text for a creation time `timestamp`, read at time
/// `now`, both in unix seconds: the elapsed seconds, minutes, hours or days,
/// with the coarsest unit under which the count is at least one.
pub open spec fn spec_format_duration(now: int, timestamp: int) -> Seq<char> {
    let d = now - timestamp;
    if d < 60 {
        int_dec_str(d) + " seconds ago"@
    } else if d < 3600 {
        int_dec_str(d / 60) + " minutes ago"@
    } else if d < 86400 {
        int_dec_str(d / 3600) + " hours ago"@
    } else {
        int_dec_str(d / 86400) + " days ago"@
    }
}

/// Format the age of `timestamp` as seen at time `now`, both unix seconds.
pub fn format_duration_at(timestamp: i64, now: i64) -> (r: String)
    ensures
        r@ == spec_format_duration(now as int, timestamp as int),
{
    let duration: i128 = now as i128 - timestamp as i128;
    if duration < 60 {
        proof {
            reveal_strlit(" seconds ago");
        }
        let mut s = i128_to_string(duration);
        s.append(" seconds ago");
        proof {
            assert(s@ =~= spec_format_duration(now as int, timestamp as int));
        }
        s
    } else if duration < 3600 {
        proof {
            reveal_strlit(" minutes ago");
        }
        let mut s = i128_to_string(duration / 60);
        s.append(" minutes ago");
        proof {
            assert(s@ =~= spec_format_duration(now as int, timestamp as int));
        }
        s
    } else if duration < 86400 {
        proof {
            reveal_strlit(" hours ago");
        }
        let mut s = i128_to_string(duration / 3600);
        s.append(" hours ago");
        proof {
            assert(s@ =~= spec_format_duration(now as int, timestamp as int));
        }
        s
    } else {
        proof {
            reveal_strlit(" days ago");
        }
        let mut s = i128_to_string(duration / 86400);
        s.append(" days ago");
        proof {
            assert(s@ =~= spec_format_duration(now as int, timestamp as int));
        }
        s
    }
}

/// Relies on std::time::SystemTime::now and duration_since: the unix clock's
/// reading in whole seconds; zero when the clock reads before the epoch, and
/// capped so the result is never negative.
#[verifier::external_body]
fn unix_now_secs() -> (r: i64)
    ensures
        0 <= r,
{
    let secs = std::time::SystemTime::now()
        .duration_since(std::time::UNIX_EPOCH)
        .unwrap_or_default()
        .as_secs();
    if secs > i64::MAX as u64 {
        i64::MAX
    } else {
        secs as i64
    }
}

/// Format a unix timestamp as a relative age read off the system clock now.
pub fn format_duration(timestamp: i64) -> (r: String)
    ensures
        exists|now: int|
            0 <= now <= i64::MAX && r@ == #[trigger] spec_format_duration(
                now,
                timestamp as int,
            ),
{
    let now = unix_now_secs();
    let r = format_duration_at(timestamp, now);
    proof {
        assert(r@ == spec_format_duration(now as int, timestamp as int));
    }
    r
}

} // verus!
