//! The integer capability: bit bookkeeping on top of the numeric core.
//!
//! The library's own code never calls through this trait; it states the
//! interface an integer scalar offers.

use crate::numeric::bit::BitNum;
use crate::numeric::num::Num;
use vstd::prelude::*;

verus! {

/// An integer: a number with bit structure and the bit-counting,
/// rotation and exponentiation operations.
pub trait Int: Num + BitNum {
    fn count_zeros(self) -> u32;

    fn count_ones(self) -> u32;

    fn leading_zeros(self) -> u32;

    fn trailing_zeros(self) -> u32;

    fn leading_ones(self) -> u32;

    fn trailing_ones(self) -> u32;

    fn rotate_left(self, n: u32) -> Self;

    fn rotate_right(self, n: u32) -> Self;

    fn swap_bytes(self) -> Self;

    fn pow(self, exp: u32) -> Self;
}

} // verus!
