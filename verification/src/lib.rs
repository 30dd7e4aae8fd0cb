pub mod arith;
pub mod group_theory;
pub mod linear;
pub mod number_theory;
pub mod numeric;
pub mod traits;
