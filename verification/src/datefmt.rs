//! Human-readable duration formatting.

use vstd::prelude::*;
use vstd::string::StringExecFns;
use crate::strutil::dec_str;
use crate::strutil::u32_to_dec;

verus! {

/// `n` seconds written as hours, minutes and seconds, with the leading
/// zero fields left off: `XhYm Zs`, `Ym Zs` or `Zs`.
pub open spec fn duration_spec(n: int) -> Seq<char> {
    let hours = n / 3600;
    let minutes = (n % 3600) / 60;
    let secs = n % 60;
    if hours > 0 {
        dec_str(hours) + "h "@ + dec_str(minutes) + "m "@ + dec_str(secs) + "s"@
    } else if minutes > 0 {
        dec_str(minutes) + "m "@ + dec_str(secs) + "s"@
    } else {
        dec_str(secs) + "s"@
    }
}

/// Format a duration in seconds for display.
pub fn format_duration_seconds(seconds: u32) -> (r: String)
    ensures
        r@ == duration_spec(seconds as int),
{
    let hours = seconds / 3600;
    let minutes = (seconds % 3600) / 60;
    let secs = seconds % 60;
    if hours > 0 {
        let mut r = u32_to_dec(hours);
        r.append("h ");
        let m = u32_to_dec(minutes);
        r.append(m.as_str());
        r.append("m ");
        let t = u32_to_dec(secs);
        r.append(t.as_str());
        r.append("s");
        r
    } else if minutes > 0 {
        let mut r = u32_to_dec(minutes);
        r.append("m ");
        let t = u32_to_dec(secs);
        r.append(t.as_str());
        r.append("s");
        r
    } else {
        let mut r = u32_to_dec(secs);
        r.append("s");
        r
    }
}

} // verus!
