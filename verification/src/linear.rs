pub mod bivec;
pub mod dynamic;
pub mod laws;
pub mod mat;
pub mod rotor;
pub mod scalar;
pub mod specific_impls;
pub mod text;
pub mod vec;
