//! Numeric codepoints and their conversion to `char`.

use vstd::prelude::*;

verus! {

/// Whether a numeric codepoint is a Unicode scalar value, i.e. is neither a
/// surrogate nor beyond the last codepoint, and so converts to a `char`.
pub open spec fn is_scalar_value(cp: u32) -> bool {
    cp < 0xD800 || (0xDFFF < cp && cp <= 0x10FFFF)
}

/// Relies on std's `char::from_u32`: `Some` exactly on Unicode scalar values;
/// surrogates and values above 0x10FFFF give `None`.
pub assume_specification[ char::from_u32 ](cp: u32) -> (r: Option<char>)
    ensures
        r is Some <==> is_scalar_value(cp),
        r matches Some(c) ==> c as u32 == cp,
;

/// Converts a numeric codepoint to a `char` when it is a valid scalar value.
pub fn codepoint_to_char(cp: u32) -> (r: Option<char>)
    ensures
        r is Some <==> is_scalar_value(cp),
        r matches Some(c) ==> c as u32 == cp,
{
    char::from_u32(cp)
}

/// The numeric codepoints of `[start, start + count)` that fit in a `u32`,
/// in increasing order; the rest of the range lies past the last codepoint
/// and is skipped.
pub open spec fn spec_range_codepoints(start: int, count: nat) -> Seq<u32>
    decreases count,
{
    if count == 0 {
        Seq::empty()
    } else {
        spec_range_codepoints(start, (count - 1) as nat) + if start + count - 1 <= u32::MAX {
            seq![(start + count - 1) as u32]
        } else {
            Seq::empty()
        }
    }
}

/// Walks the codepoint range `[start, start + count)` in increasing order,
/// dropping the part that would run past `u32::MAX` (no codepoint lives
/// there).
pub fn range_codepoints(start: u32, count: u32) -> (r: Vec<u32>)
    ensures
        r@ == spec_range_codepoints(start as int, count as nat),
{
    let mut r: Vec<u32> = Vec::new();
    let mut i: u32 = 0;
    while i < count
        invariant
            i <= count,
            r@ =~= spec_range_codepoints(start as int, i as nat),
        decreases count - i,
    {
        if (start as u64) + (i as u64) <= (u32::MAX as u64) {
            r.push(start + i);
        }
        i += 1;
        assert(r@ =~= spec_range_codepoints(start as int, i as nat));
    }
    r
}

} // verus!
