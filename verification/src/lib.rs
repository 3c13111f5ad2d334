//! Random SQL query generation over Socrata open-data datasets.
pub mod text;
pub mod socrata;
pub mod query;
pub mod random;
pub mod generate;
pub mod slug;
pub mod ddn;
pub mod query_state;
pub mod laws;
