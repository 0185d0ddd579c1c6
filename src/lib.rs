//! Bulk move or copy of files, adding and/or removing a literal suffix
//! from each file name.
pub mod arguments;
pub mod error;
pub mod utils;
pub mod command;
