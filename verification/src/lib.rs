//! Resolution of a detector data collection into the data files that compose it,
//! and the rules by which named datasets are read out of such files.
//!
//! The library performs no input or output itself. Wherever a file has to be
//! opened or a dataset read, it says what is to be done and decides what
//! follows from the outcome it is handed.

pub mod collection;
pub mod dataset;
pub mod error;
pub mod naming;
pub mod numeral;
pub mod tree_builder;
