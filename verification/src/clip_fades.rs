use vstd::prelude::*;
use crate::time::seconds_time::SecondsTime;

verus! {

/// The smaller of two amounts.
pub open spec fn min_nat(a: nat, b: nat) -> nat {
    if a < b {
        a
    } else {
        b
    }
}

/// Fits two fades into a clip of length `len` after the clip was trimmed: the fade on the
/// trimmed side, `first`, is cut to the clip's length, then the other one, `second`, to what
/// is left. Together they never take more than the clip.
pub fn fit_fades(first: SecondsTime, second: SecondsTime, len: SecondsTime) -> (r: (
    SecondsTime,
    SecondsTime,
))
    ensures
        r.0@ == min_nat(first@, len@),
        r.1@ == min_nat(second@, (len@ - r.0@) as nat),
        r.0@ + r.1@ <= len@,
{
    let a = if first.to_bits() < len.to_bits() { first } else { len };
    let room = len - a;
    let b = if second.to_bits() < room.to_bits() { second } else { room };
    (a, b)
}

} // verus!
