//! Counting flags.

use vstd::prelude::*;

verus! {

/// One for a flag that is set, zero for one that is not.
pub open spec fn flag(b: bool) -> nat {
    if b {
        1
    } else {
        0
    }
}

/// The number of flags that are set.
pub open spec fn flags_set(a: bool, b: bool, c: bool, d: bool, e: bool, f: bool, g: bool, h: bool) -> nat {
    flag(a) + flag(b) + flag(c) + flag(d) + flag(e) + flag(f) + flag(g) + flag(h)
}

fn bit(b: bool) -> (r: usize)
    ensures
        r == flag(b),
        r <= 1,
{
    if b {
        1
    } else {
        0
    }
}

/// The number of flags that are set.
pub fn count_flags(a: bool, b: bool, c: bool, d: bool, e: bool, f: bool, g: bool, h: bool) -> (r: usize)
    ensures
        r == flags_set(a, b, c, d, e, f, g, h),
{
    let ab: usize = bit(a) + bit(b);
    let cd: usize = bit(c) + bit(d);
    let ef: usize = bit(e) + bit(f);
    let gh: usize = bit(g) + bit(h);
    let abcd: usize = ab + cd;
    let efgh: usize = ef + gh;
    abcd + efgh
}

} // verus!
