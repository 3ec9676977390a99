//! The ways to reach the API.

pub mod https;
