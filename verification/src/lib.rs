//! Keyword-impact analysis for PHP package corpora.
//!
//! The crate holds the rules of the analysis: which packages of the
//! popularity ranking are wanted and how one of them is acquired, where a
//! package is kept on disk, which files are scanned, how the names in a
//! syntax tree are matched against the requested keywords and labels, and
//! how the matches are folded into a ranked report. Everything here works on
//! plain values; reading files, talking to the registry and parsing source
//! text are left to the caller.

pub mod config;
pub mod text;
pub mod counting;
pub mod vendor;
pub mod results;
pub mod tally;
pub mod term_map;
pub mod report;
pub mod ranking;
pub mod wrap;
pub mod display;
pub mod matching;
pub mod analyzer;
pub mod package;
pub mod downloader;
pub mod extractor;
pub mod files;
