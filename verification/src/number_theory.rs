pub mod euclid;
pub mod find;
