//! Fixed integer sets: residues modulo a compile-time bound `MAX`.
//!
//! `FI<T, MAX>` holds one value of the underlying machine type; its
//! closed operations apply the machine operation and then reduce by
//! `MAX`.  The reduction keeps the machine remainder's sign, as the
//! machine's `%` does.

use crate::linear::scalar::Scalar;
use vstd::prelude::*;

verus! {

/// The machine types a fixed set can be built over.
pub trait FixedInteger: Sized + Copy {

}

impl FixedInteger for i8 {

}

impl FixedInteger for i16 {

}

impl FixedInteger for i32 {

}

impl FixedInteger for i64 {

}

impl FixedInteger for u8 {

}

impl FixedInteger for u16 {

}

impl FixedInteger for u32 {

}

impl FixedInteger for u64 {

}

/// A fixed integer set: a value of `T` reduced modulo `MAX`,
/// such as `{0, 1, 2, 3, 4, 5}` for `MAX == 6`.
#[derive(Debug, Copy, Clone, PartialEq)]
pub struct FI<T: FixedInteger, const MAX: usize> {
    val: T,
}

impl<T: FixedInteger, const MAX: usize> FI<T, MAX> {
    /// The stored representative.
    pub closed spec fn val_spec(self) -> T {
        self.val
    }

    pub fn new(val: T) -> (r: Self)
        ensures
            r.val_spec() == val,
    {
        Self { val }
    }

    pub fn value(&self) -> (r: T)
        ensures
            r == self.val_spec(),
    {
        self.val
    }
}

impl<const MAX: usize> FI<i32, MAX> {
    /// The bound, squeezed into the machine type.
    pub fn max_primitive(&self) -> (r: i32)
        ensures
            r == MAX as i32,
    {
        #[verifier::truncate] (MAX as i32)
    }

    /// The bound as a set member.
    pub fn max(&self) -> (r: Self)
        ensures
            r.val_spec() == MAX as i32,
    {
        Self { val: #[verifier::truncate] (MAX as i32) }
    }

    /// The least representative the signed set reaches.
    pub fn min_value() -> (r: i32)
        requires
            1 <= MAX <= 0x7fffffff,
        ensures
            r as int == -(MAX as int) + 1,
    {
        let m = #[verifier::truncate] (MAX as i32);
        -m + 1
    }

    /// The greatest representative the signed set reaches.
    pub fn max_value() -> (r: i32)
        requires
            1 <= MAX <= 0x7fffffff,
        ensures
            r as int == MAX as int - 1,
    {
        let m = #[verifier::truncate] (MAX as i32);
        m - 1
    }

    /// The sum in the set: machine addition reduced by the bound.
    pub fn add(self, rhs: Self) -> (r: Self)
        requires
            <i32 as Scalar>::div_ok(
                <i32 as Scalar>::add_spec(self.val_spec(), rhs.val_spec()),
                MAX as i32,
            ),
        ensures
            r.val_spec() == <i32 as Scalar>::rem_spec(
                <i32 as Scalar>::add_spec(self.val_spec(), rhs.val_spec()),
                MAX as i32,
            ),
    {
        let m = #[verifier::truncate] (MAX as i32);
        let val = <i32 as Scalar>::rem(<i32 as Scalar>::add(self.val, rhs.val), m);
        Self { val }
    }

    pub fn add_assign(&mut self, rhs: Self)
        requires
            <i32 as Scalar>::div_ok(
                <i32 as Scalar>::add_spec(old(self).val_spec(), rhs.val_spec()),
                MAX as i32,
            ),
        ensures
            final (self).val_spec() == <i32 as Scalar>::rem_spec(
                <i32 as Scalar>::add_spec(old(self).val_spec(), rhs.val_spec()),
                MAX as i32,
            ),
    {
        *self = self.add(rhs);
    }

    /// The difference in the set.
    pub fn sub(self, rhs: Self) -> (r: Self)
        requires
            <i32 as Scalar>::div_ok(
                <i32 as Scalar>::sub_spec(self.val_spec(), rhs.val_spec()),
                MAX as i32,
            ),
        ensures
            r.val_spec() == <i32 as Scalar>::rem_spec(
                <i32 as Scalar>::sub_spec(self.val_spec(), rhs.val_spec()),
                MAX as i32,
            ),
    {
        let m = #[verifier::truncate] (MAX as i32);
        let val = <i32 as Scalar>::rem(<i32 as Scalar>::sub(self.val, rhs.val), m);
        Self { val }
    }

    pub fn sub_assign(&mut self, rhs: Self)
        requires
            <i32 as Scalar>::div_ok(
                <i32 as Scalar>::sub_spec(old(self).val_spec(), rhs.val_spec()),
                MAX as i32,
            ),
        ensures
            final (self).val_spec() == <i32 as Scalar>::rem_spec(
                <i32 as Scalar>::sub_spec(old(self).val_spec(), rhs.val_spec()),
                MAX as i32,
            ),
    {
        *self = self.sub(rhs);
    }

    /// The product in the set.
    pub fn mul(self, rhs: Self) -> (r: Self)
        requires
            <i32 as Scalar>::div_ok(
                <i32 as Scalar>::mul_spec(self.val_spec(), rhs.val_spec()),
                MAX as i32,
            ),
        ensures
            r.val_spec() == <i32 as Scalar>::rem_spec(
                <i32 as Scalar>::mul_spec(self.val_spec(), rhs.val_spec()),
                MAX as i32,
            ),
    {
        let m = #[verifier::truncate] (MAX as i32);
        let val = <i32 as Scalar>::rem(<i32 as Scalar>::mul(self.val, rhs.val), m);
        Self { val }
    }

    pub fn mul_assign(&mut self, rhs: Self)
        requires
            <i32 as Scalar>::div_ok(
                <i32 as Scalar>::mul_spec(old(self).val_spec(), rhs.val_spec()),
                MAX as i32,
            ),
        ensures
            final (self).val_spec() == <i32 as Scalar>::rem_spec(
                <i32 as Scalar>::mul_spec(old(self).val_spec(), rhs.val_spec()),
                MAX as i32,
            ),
    {
        *self = self.mul(rhs);
    }

    /// The quotient in the set.
    pub fn div(self, rhs: Self) -> (r: Self)
        requires
            <i32 as Scalar>::div_ok(self.val_spec(), rhs.val_spec()),
            <i32 as Scalar>::div_ok(
                <i32 as Scalar>::div_spec(self.val_spec(), rhs.val_spec()),
                MAX as i32,
            ),
        ensures
            r.val_spec() == <i32 as Scalar>::rem_spec(
                <i32 as Scalar>::div_spec(self.val_spec(), rhs.val_spec()),
                MAX as i32,
            ),
    {
        let m = #[verifier::truncate] (MAX as i32);
        let val = <i32 as Scalar>::rem(<i32 as Scalar>::div(self.val, rhs.val), m);
        Self { val }
    }

    pub fn div_assign(&mut self, rhs: Self)
        requires
            <i32 as Scalar>::div_ok(old(self).val_spec(), rhs.val_spec()),
            <i32 as Scalar>::div_ok(
                <i32 as Scalar>::div_spec(old(self).val_spec(), rhs.val_spec()),
                MAX as i32,
            ),
        ensures
            final (self).val_spec() == <i32 as Scalar>::rem_spec(
                <i32 as Scalar>::div_spec(old(self).val_spec(), rhs.val_spec()),
                MAX as i32,
            ),
    {
        *self = self.div(rhs);
    }

    /// The machine remainder by another member; the bound plays no part.
    pub fn rem(self, rhs: Self) -> (r: Self)
        requires
            <i32 as Scalar>::div_ok(self.val_spec(), rhs.val_spec()),
        ensures
            r.val_spec() == <i32 as Scalar>::rem_spec(self.val_spec(), rhs.val_spec()),
    {
        let val = <i32 as Scalar>::rem(self.val, rhs.val);
        Self { val }
    }

    pub fn rem_assign(&mut self, rhs: Self)
        requires
            <i32 as Scalar>::div_ok(old(self).val_spec(), rhs.val_spec()),
        ensures
            final (self).val_spec() == <i32 as Scalar>::rem_spec(
                old(self).val_spec(),
                rhs.val_spec(),
            ),
    {
        *self = self.rem(rhs);
    }

    /// The Euclidean norm: the magnitude of the representative.
    pub fn euclid_norm(&self) -> (r: u32)
        requires
            self.val_spec() != i32::MIN,
        ensures
            r == <i32 as Scalar>::abs_spec(self.val_spec()) as u32,
    {
        let a = <i32 as Scalar>::abs(self.val);
        a as u32
    }

    /// Quotient and remainder by another member, as a pair.
    pub fn euclid_div(&self, rhs: Self) -> (r: (Self, Self))
        requires
            <i32 as Scalar>::div_ok(self.val_spec(), rhs.val_spec()),
            <i32 as Scalar>::div_ok(
                <i32 as Scalar>::div_spec(self.val_spec(), rhs.val_spec()),
                MAX as i32,
            ),
        ensures
            r.0.val_spec() == <i32 as Scalar>::rem_spec(
                <i32 as Scalar>::div_spec(self.val_spec(), rhs.val_spec()),
                MAX as i32,
            ),
            r.1.val_spec() == <i32 as Scalar>::rem_spec(self.val_spec(), rhs.val_spec()),
    {
        (self.div(rhs), self.rem(rhs))
    }

    /// The representatives from `start` up to `stop`.
    pub fn list_set(start: i32, stop: i32) -> (r: Vec<i32>)
        ensures
            start <= stop ==> r@.len() == stop - start,
            start > stop ==> r@.len() == 0,
            forall|i: int| 0 <= i < r@.len() ==> #[trigger] r@[i] == start + i,
    {
        let mut values: Vec<i32> = Vec::new();
        if start > stop {
            return values;
        }
        let mut val = start;
        while val < stop
            invariant
                start <= val <= stop,
                values@.len() == val - start,
                forall|i: int| 0 <= i < values@.len() ==> #[trigger] values@[i] == start + i,
            decreases stop - val,
        {
            values.push(val);
            val = val + 1;
        }
        values
    }

    /// Every representative of the signed set, ascending.
    pub fn whole_list_set() -> (r: Vec<i32>)
        requires
            1 <= MAX <= 0x7fffffff,
        ensures
            r@.len() == 2 * (MAX as int) - 1,
            forall|i: int| 0 <= i < r@.len() ==> #[trigger] r@[i] as int == -(MAX as int) + 1 + i,
    {
        let low = Self::min_value();
        let m = #[verifier::truncate] (MAX as i32);
        Self::list_set(low, m)
    }
}

impl<const MAX: usize> FI<u32, MAX> {
    /// The bound, squeezed into the machine type.
    pub fn max_primitive(&self) -> (r: u32)
        ensures
            r == MAX as u32,
    {
        #[verifier::truncate] (MAX as u32)
    }

    /// The bound as a set member.
    pub fn max(&self) -> (r: Self)
        ensures
            r.val_spec() == MAX as u32,
    {
        Self { val: #[verifier::truncate] (MAX as u32) }
    }

    /// The least representative of the unsigned set.
    pub fn min_value() -> (r: u32)
        ensures
            r == 0,
    {
        0
    }

    /// The greatest representative of the unsigned set.
    pub fn max_value() -> (r: u32)
        requires
            1 <= MAX <= 0xffffffff,
        ensures
            r as int == MAX as int - 1,
    {
        let m = #[verifier::truncate] (MAX as u32);
        m - 1
    }

    /// The sum in the set: machine addition reduced by the bound.
    pub fn add(self, rhs: Self) -> (r: Self)
        requires
            <u32 as Scalar>::div_ok(
                <u32 as Scalar>::add_spec(self.val_spec(), rhs.val_spec()),
                MAX as u32,
            ),
        ensures
            r.val_spec() == <u32 as Scalar>::rem_spec(
                <u32 as Scalar>::add_spec(self.val_spec(), rhs.val_spec()),
                MAX as u32,
            ),
    {
        let m = #[verifier::truncate] (MAX as u32);
        let val = <u32 as Scalar>::rem(<u32 as Scalar>::add(self.val, rhs.val), m);
        Self { val }
    }

    pub fn add_assign(&mut self, rhs: Self)
        requires
            <u32 as Scalar>::div_ok(
                <u32 as Scalar>::add_spec(old(self).val_spec(), rhs.val_spec()),
                MAX as u32,
            ),
        ensures
            final (self).val_spec() == <u32 as Scalar>::rem_spec(
                <u32 as Scalar>::add_spec(old(self).val_spec(), rhs.val_spec()),
                MAX as u32,
            ),
    {
        *self = self.add(rhs);
    }

    /// The difference in the set.
    pub fn sub(self, rhs: Self) -> (r: Self)
        requires
            <u32 as Scalar>::div_ok(
                <u32 as Scalar>::sub_spec(self.val_spec(), rhs.val_spec()),
                MAX as u32,
            ),
        ensures
            r.val_spec() == <u32 as Scalar>::rem_spec(
                <u32 as Scalar>::sub_spec(self.val_spec(), rhs.val_spec()),
                MAX as u32,
            ),
    {
        let m = #[verifier::truncate] (MAX as u32);
        let val = <u32 as Scalar>::rem(<u32 as Scalar>::sub(self.val, rhs.val), m);
        Self { val }
    }

    pub fn sub_assign(&mut self, rhs: Self)
        requires
            <u32 as Scalar>::div_ok(
                <u32 as Scalar>::sub_spec(old(self).val_spec(), rhs.val_spec()),
                MAX as u32,
            ),
        ensures
            final (self).val_spec() == <u32 as Scalar>::rem_spec(
                <u32 as Scalar>::sub_spec(old(self).val_spec(), rhs.val_spec()),
                MAX as u32,
            ),
    {
        *self = self.sub(rhs);
    }

    /// The product in the set.
    pub fn mul(self, rhs: Self) -> (r: Self)
        requires
            <u32 as Scalar>::div_ok(
                <u32 as Scalar>::mul_spec(self.val_spec(), rhs.val_spec()),
                MAX as u32,
            ),
        ensures
            r.val_spec() == <u32 as Scalar>::rem_spec(
                <u32 as Scalar>::mul_spec(self.val_spec(), rhs.val_spec()),
                MAX as u32,
            ),
    {
        let m = #[verifier::truncate] (MAX as u32);
        let val = <u32 as Scalar>::rem(<u32 as Scalar>::mul(self.val, rhs.val), m);
        Self { val }
    }

    pub fn mul_assign(&mut self, rhs: Self)
        requires
            <u32 as Scalar>::div_ok(
                <u32 as Scalar>::mul_spec(old(self).val_spec(), rhs.val_spec()),
                MAX as u32,
            ),
        ensures
            final (self).val_spec() == <u32 as Scalar>::rem_spec(
                <u32 as Scalar>::mul_spec(old(self).val_spec(), rhs.val_spec()),
                MAX as u32,
            ),
    {
        *self = self.mul(rhs);
    }

    /// The quotient in the set.
    pub fn div(self, rhs: Self) -> (r: Self)
        requires
            <u32 as Scalar>::div_ok(self.val_spec(), rhs.val_spec()),
            <u32 as Scalar>::div_ok(
                <u32 as Scalar>::div_spec(self.val_spec(), rhs.val_spec()),
                MAX as u32,
            ),
        ensures
            r.val_spec() == <u32 as Scalar>::rem_spec(
                <u32 as Scalar>::div_spec(self.val_spec(), rhs.val_spec()),
                MAX as u32,
            ),
    {
        let m = #[verifier::truncate] (MAX as u32);
        let val = <u32 as Scalar>::rem(<u32 as Scalar>::div(self.val, rhs.val), m);
        Self { val }
    }

    pub fn div_assign(&mut self, rhs: Self)
        requires
            <u32 as Scalar>::div_ok(old(self).val_spec(), rhs.val_spec()),
            <u32 as Scalar>::div_ok(
                <u32 as Scalar>::div_spec(old(self).val_spec(), rhs.val_spec()),
                MAX as u32,
            ),
        ensures
            final (self).val_spec() == <u32 as Scalar>::rem_spec(
                <u32 as Scalar>::div_spec(old(self).val_spec(), rhs.val_spec()),
                MAX as u32,
            ),
    {
        *self = self.div(rhs);
    }

    /// The machine remainder by another member; the bound plays no part.
    pub fn rem(self, rhs: Self) -> (r: Self)
        requires
            <u32 as Scalar>::div_ok(self.val_spec(), rhs.val_spec()),
        ensures
            r.val_spec() == <u32 as Scalar>::rem_spec(self.val_spec(), rhs.val_spec()),
    {
        let val = <u32 as Scalar>::rem(self.val, rhs.val);
        Self { val }
    }

    pub fn rem_assign(&mut self, rhs: Self)
        requires
            <u32 as Scalar>::div_ok(old(self).val_spec(), rhs.val_spec()),
        ensures
            final (self).val_spec() == <u32 as Scalar>::rem_spec(
                old(self).val_spec(),
                rhs.val_spec(),
            ),
    {
        *self = self.rem(rhs);
    }

    /// The Euclidean norm: unsigned values are their own magnitude.
    pub fn euclid_norm(&self) -> (r: u32)
        ensures
            r == self.val_spec(),
    {
        self.val
    }

    /// Quotient and remainder by another member, as a pair.
    pub fn euclid_div(&self, rhs: Self) -> (r: (Self, Self))
        requires
            <u32 as Scalar>::div_ok(self.val_spec(), rhs.val_spec()),
            <u32 as Scalar>::div_ok(
                <u32 as Scalar>::div_spec(self.val_spec(), rhs.val_spec()),
                MAX as u32,
            ),
        ensures
            r.0.val_spec() == <u32 as Scalar>::rem_spec(
                <u32 as Scalar>::div_spec(self.val_spec(), rhs.val_spec()),
                MAX as u32,
            ),
            r.1.val_spec() == <u32 as Scalar>::rem_spec(self.val_spec(), rhs.val_spec()),
    {
        (self.div(rhs), self.rem(rhs))
    }

    /// The representatives from `start` up to `stop`.
    pub fn list_set(start: u32, stop: u32) -> (r: Vec<u32>)
        ensures
            start <= stop ==> r@.len() == stop - start,
            start > stop ==> r@.len() == 0,
            forall|i: int| 0 <= i < r@.len() ==> #[trigger] r@[i] == start + i,
    {
        let mut values: Vec<u32> = Vec::new();
        if start > stop {
            return values;
        }
        let mut val = start;
        while val < stop
            invariant
                start <= val <= stop,
                values@.len() == val - start,
                forall|i: int| 0 <= i < values@.len() ==> #[trigger] values@[i] == start + i,
            decreases stop - val,
        {
            values.push(val);
            val = val + 1;
        }
        values
    }

    /// Every representative of the unsigned set, ascending.
    pub fn whole_list_set() -> (r: Vec<u32>)
        requires
            1 <= MAX <= 0xffffffff,
        ensures
            r@.len() == MAX as int,
            forall|i: int| 0 <= i < r@.len() ==> #[trigger] r@[i] as int == i,
    {
        let m = #[verifier::truncate] (MAX as u32);
        Self::list_set(0, m)
    }
}

} // verus!
