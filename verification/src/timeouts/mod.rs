//! Keeping the number of requests to an exchange within its limit.
pub mod counts;
pub mod laws;
pub mod manager;
pub mod meaning;
pub mod request;
pub mod tally;
