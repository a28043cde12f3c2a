//! Positional amino-acid frequency tabulation for aligned antibody CDR
//! sequence files.
//!
//! A [`tables::FreqTable`] accumulates, per sequence length, how many lines
//! had that length and, per (length, position, symbol), how often each
//! amino-acid code occurred. A [`report::Report`] lists the non-zero counts
//! in the order they are printed. All counting is verified against a
//! mathematical model of the lines seen so far.

pub mod cli;
pub mod report;
pub mod symbols;
pub mod tables;
pub mod trim;
