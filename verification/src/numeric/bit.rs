//! The bitwise capability markers of the integer types.

use vstd::prelude::*;

verus! {

/// A number with the bitwise operator set.
pub trait BitNum: Sized + Copy {

}

/// The bitwise operator set itself.
pub trait BitOps: Sized + Copy {

}

/// The in-place bitwise operator set.
pub trait BitAssignOps: Sized + Copy {

}

/// Both bitwise operator sets together.
pub trait BitAssign: BitNum + BitAssignOps {

}

impl BitNum for i8 {

}

impl BitNum for i16 {

}

impl BitNum for i32 {

}

impl BitNum for i64 {

}

impl BitNum for u8 {

}

impl BitNum for u16 {

}

impl BitNum for u32 {

}

impl BitNum for u64 {

}

impl BitOps for i8 {

}

impl BitOps for i16 {

}

impl BitOps for i32 {

}

impl BitOps for i64 {

}

impl BitOps for u8 {

}

impl BitOps for u16 {

}

impl BitOps for u32 {

}

impl BitOps for u64 {

}

impl BitAssignOps for i8 {

}

impl BitAssignOps for i16 {

}

impl BitAssignOps for i32 {

}

impl BitAssignOps for i64 {

}

impl BitAssignOps for u8 {

}

impl BitAssignOps for u16 {

}

impl BitAssignOps for u32 {

}

impl BitAssignOps for u64 {

}

impl BitAssign for i8 {

}

impl BitAssign for i16 {

}

impl BitAssign for i32 {

}

impl BitAssign for i64 {

}

impl BitAssign for u8 {

}

impl BitAssign for u16 {

}

impl BitAssign for u32 {

}

impl BitAssign for u64 {

}

} // verus!
