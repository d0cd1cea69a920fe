//! Small functions with conditions of the kinds the analysis judges.
use vstd::prelude::*;

verus! {

/// Compares two locals initialised from literals: the condition always holds.
pub fn something() -> (r: i32)
    ensures
        r == 5,
{
    let a: i32 = 5;
    let b: i32 = 10;
    if a < b {
        return 5;
    }
    0
}

/// Three nested comparisons of parameters; the innermost one can never hold
/// once the outer two do, so 5 is never returned.
pub fn something_other(a: usize, b: usize, c: usize) -> (r: i32)
    ensures
        r == (if a < b {
            if b < c {
                if c < a { 5i32 } else { 6i32 }
            } else {
                7i32
            }
        } else {
            8i32
        }),
        r != 5,
{
    if a < b {
        if b < c {
            if c < a {
                5
            } else {
                6
            }
        } else {
            7
        }
    } else {
        8
    }
}

} // verus!
