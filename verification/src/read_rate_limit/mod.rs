//! Read capacity, kept apart from login failures, refreshes and account changes.

pub mod attempt_laws;
pub mod gate_laws;
pub mod laws;
pub mod limits;
pub mod model;
pub mod policy;
pub mod token_buckets;

pub use limits::{
    aggregate_read_rate_limit_middleware, user_read_rate_limit_middleware, IdentityReadLimits,
};
pub use policy::ReadRatePolicy;
pub use token_buckets::TokenBuckets;
