//! Timestamp reconstruction: a textual timestamp from a query row
//! becomes nanoseconds since the epoch, carried as an unsigned 128-bit
//! count the way the store's write path expects it.

use vstd::prelude::*;
use crate::value::DynVal;

verus! {

/// What parsing a timestamp text yields, as a function of the text alone.
/// `None`: the text is not a well-formed timestamp. `Some(None)`: the
/// text is well-formed but its nanosecond count does not fit a signed
/// 64-bit integer. `Some(Some(n))`: exactly `n` nanoseconds since the
/// epoch, negative before it.
pub uninterp spec fn rfc3339_nanos(s: Seq<char>) -> Option<Option<i64>>;

/// Relies on chrono's `DateTime::parse_from_rfc3339` and
/// `DateTime::timestamp_nanos_opt`: the first accepts exactly the
/// well-formed timestamp texts, the second returns the represented
/// instant's nanoseconds since the epoch where they fit a signed 64-bit
/// integer. Both depend on the text alone.
#[verifier::external_body]
pub(crate) fn parse_rfc3339_nanos(s: &str) -> (r: Option<Option<i64>>)
    ensures
        r == rfc3339_nanos(s@),
{
    match chrono::DateTime::parse_from_rfc3339(s) {
        Ok(d) => Some(d.timestamp_nanos_opt()),
        Err(_) => None,
    }
}

/// A signed nanosecond count reinterpreted as an unsigned 128-bit one:
/// a count before the epoch wraps around, as a widening reinterpretation
/// of the sign bit does.
pub open spec fn wrap128(n: i64) -> u128 {
    if n >= 0 {
        n as u128
    } else {
        ((0x1_0000_0000_0000_0000_0000_0000_0000_0000 as int) + n) as u128
    }
}

/// Executable form of `wrap128`.
pub fn wrap_nanos(n: i64) -> (r: u128)
    ensures
        r == wrap128(n),
{
    if n >= 0 {
        n as u128
    } else {
        let mag: u128 = (-(n as i128)) as u128;
        let r: u128 = (u128::MAX - mag) + 1;
        proof {
            assert(r == (0x1_0000_0000_0000_0000_0000_0000_0000_0000 as int) + n);
        }
        r
    }
}

/// The timestamp a dynamic value contributes to a point: the parsed
/// nanosecond count of a well-formed textual timestamp, and zero for
/// anything else (a malformed text, an out-of-range instant, or a
/// non-textual value).
pub open spec fn spec_time_of(v: DynVal) -> u128 {
    match v {
        DynVal::Text(s) => match rfc3339_nanos(s) {
            Some(Some(n)) => wrap128(n),
            _ => 0,
        },
        _ => 0,
    }
}

/// Whether a dynamic value in the timestamp slot deserves a warning:
/// only a value that is not a well-formed timestamp text at all.
pub open spec fn spec_time_malformed(v: DynVal) -> bool {
    match v {
        DynVal::Text(s) => rfc3339_nanos(s) is None,
        _ => true,
    }
}

} // verus!
