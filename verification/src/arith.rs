//! Overflow-checked multiplication used by every nonlinear formula in the
//! crate.  The ghost bounds let each call site pick the range it can prove.

use vstd::prelude::*;

verus! {

/// Multiply two bounded `i64` values; the ghost bounds certify that the
/// product fits.
pub(crate) fn prod(a: i64, b: i64, Ghost(ba): Ghost<int>, Ghost(bb): Ghost<int>) -> (r: i64)
    requires
        0 <= ba,
        0 <= bb,
        -ba <= a <= ba,
        -bb <= b <= bb,
        ba * bb <= i64::MAX,
    ensures
        r == a * b,
        -(ba * bb) <= r <= ba * bb,
{
    proof {
        assert(-(ba * bb) <= a * b <= ba * bb) by (nonlinear_arith)
            requires
                0 <= ba,
                0 <= bb,
                -ba <= a <= ba,
                -bb <= b <= bb,
        ;
    }
    a * b
}

} // verus!
