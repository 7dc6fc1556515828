//! Directory trees annotated with per-file token counts.
//!
//! The crate turns the entries reported by a directory walk into a sorted tree
//! of [`scanner::FileNode`] values and decides, for every file, whether and how
//! its tokens are counted. Reading directories and files is left to the caller:
//! every function here works on plain values and carries a contract.
//!
//! - [`config`] holds the policy of a scan and [`error`] the errors.
//! - [`file_filters`] classifies entries by name and content.
//! - [`tokenizer`] counts tokens and plans how a file is read for counting.
//! - [`scanner`] records the entries of a walk and builds the tree.
//! - [`order`] and [`tree`] say what a sorted tree of recorded entries is.
//! - [`laws`] proves what holds of every scan.
//! - [`text`] holds the string helpers the others share.

pub mod config;
pub mod error;
pub mod file_filters;
pub mod laws;
pub mod order;
pub mod scanner;
pub mod text;
pub mod tokenizer;
pub mod tree;
