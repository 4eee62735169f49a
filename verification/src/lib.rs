//! Compiles a declarative list of class-name expressions into one
//! deduplicated, space-joined class list.
//!
//! A class list is written as a comma-separated list of texts, numbers,
//! variables and conditionals. What is known at once is folded into one text;
//! what waits for the program to run is left as parts for a builder, which
//! folds in the same way when it is fed.
//!
//! - [`text`]: white space, words, trimming, decimal numbers.
//! - [`dedup`]: the deduplication engine and its laws.
//! - [`cn_builder`]: the builder that is fed while the program runs.
//! - [`tokens`]: the token tree that the compiler reads.
//! - [`error`]: what the compiler reports.
//! - [`classnames`]: the grammar, the fold, and the laws of the fold.
//! - [`variants`]: class lists for the cases of an enum.

pub mod classnames;
pub mod cn_builder;
pub mod dedup;
pub mod error;
pub mod text;
pub mod tokens;
pub mod variants;
