pub mod extended_euclidean_algorithm;
pub mod groups;
pub mod primes;
