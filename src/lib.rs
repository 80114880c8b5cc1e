//! A classic Bloom filter: a fixed-size bit array, `k` hash rounds per key,
//! insertion sets bits and membership queries never give a false negative.
//!
//! `filter` holds the filter and the model its contracts speak of; `laws`
//! holds the general properties of that model, proved.
mod bits;
pub mod hashing;
pub mod filter;
pub mod laws;

pub use filter::{BloomFilter, ConfigError};
