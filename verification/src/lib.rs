//! A linter for short-option tokens of an `ls`-style command line.
//!
//! The classifier walks the argument tokens, records which known short
//! options were seen together with their values, and collects diagnostics
//! for unknown options, duplicates and missing values. The combiner then
//! computes the smallest number of dash-prefixed tokens that could express
//! the same options, and the suggested combined spelling.

pub mod catalog;
pub mod classifier;
pub mod combiner;
pub mod diagnostics;
pub mod observed;
pub mod views;
