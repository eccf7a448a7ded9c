//! Detection of Ruby version declarations and of mismatches between them.
//!
//! The library parses version declarations out of `.ruby-version` and
//! `.tool-versions` file contents into normalized records, and compares
//! all records pairwise, classifying each divergent pair by the coarsest
//! version component at which the two records differ.

pub mod detect;
pub mod parse;
pub mod scan;
pub mod version;
