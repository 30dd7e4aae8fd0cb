pub mod bit;
pub mod cmp;
pub mod float;
pub mod integer;
pub mod mul_add;
pub mod num;
pub mod trig;
