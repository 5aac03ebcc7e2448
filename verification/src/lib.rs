//! A Bloom filter: a space-efficient probabilistic set that answers
//! "possibly present" or "definitely absent".
//!
//! The filter owns a fixed-length bit array and a fixed set of independently
//! seeded hashers. Inserting an element sets one bucket per hasher; a query
//! answers `true` only when every one of those buckets is set. Buckets are
//! never cleared, so an inserted element is never reported absent.
//!
//! * [`sizing`] derives the number of hashers from the shape of a filter,
//!   under one of two rounding policies.
//! * [`hashing`] makes hashers and reduces their digests to buckets.
//! * [`bits`] is the bit array.
//! * [`model`] is what a filter is to its contracts, with the laws that
//!   follow: no false negatives, buckets are never cleared, the count of
//!   insertions is exact.
//! * [`filter`] is the filter.

pub mod bits;
pub mod filter;
pub mod hashing;
pub mod model;
pub mod sizing;

pub use filter::{BloomFilter, SizingError};
pub use hashing::bucket_of;
pub use model::FilterState;
pub use sizing::{n_hashers_for, optimal_n_hashers, truncated_n_hashers, Rounding};
