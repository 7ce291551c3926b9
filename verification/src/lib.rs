//! Entries of an SSH client configuration file: reading the file's text into
//! host records, changing the records by name, and writing them back as text.

pub mod command;
pub mod listing;
mod paint;
pub mod parser;
pub mod round_trip;
pub mod text;
