//! The calls of the API, one file for each group of endpoints.

pub mod search;
pub mod search_laws;
