//! Client-side solver for a server-issued time-lock puzzle.
//!
//! A challenge arrives as an opaque 397-byte blob; [`Challenge::decode`]
//! parses it into typed fields, [`Challenge::solve`] performs the mandatory
//! sequential modular-exponentiation rounds, and [`Solution::encode`] turns
//! the result into a URL-safe, unpadded base64 token ready for submission.

pub mod bignum;
pub mod challenge;
pub mod client;
pub mod solution;

pub use challenge::{Challenge, ClientIp, DuckityError, CHALLENGE_SIZE};
pub use client::DuckityClient;
pub use solution::Solution;
