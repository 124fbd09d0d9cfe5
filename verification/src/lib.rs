//! Checker for links that point at resources on the live web, possibly at a
//! named anchor inside an HTML page, with a revalidation cache that avoids
//! redundant network traffic for links recently confirmed valid.
//!
//! The crate holds the decision logic: cache freshness, probe planning,
//! anchor scanning over a fetched page, and the cache writes that amortize
//! future fragment checks. The network calls themselves are made by the
//! caller, which hands the responses to the functions here.

pub mod cache;
pub mod checker;
pub mod laws;
pub mod scanner;
pub mod url;
