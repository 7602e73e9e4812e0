//! Tooling for a blockchain node's test tree and account reports.

pub mod address;
pub mod download;
pub mod paths;
pub mod plan;
pub mod release;
pub mod run;
pub mod text;
