//! A pseudorandom number generator with a stored seed, and small integer
//! hashes.
pub mod hashing;

pub mod rng;
