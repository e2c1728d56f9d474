//! What is known of random numbers.

use vstd::prelude::*;

verus! {

/// The random generator may give `n`. It may give any number, but that is
/// closed: other modules learn it of a number only by drawing that number. So a
/// result that is said to be made of such a number is made of one that was
/// drawn.
pub closed spec fn is_draw(n: u64) -> bool {
    n <= u64::MAX
}

} // verus!
