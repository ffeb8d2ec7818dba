//! Parsing of fixed eight-line municipality records out of extracted PDF page
//! text, with optional suffix stripping, and rendering of the result as CSV.

pub mod cli;
pub mod csv;
pub mod document;
pub mod pipeline;
pub mod record;
pub mod suffix;
pub mod text;
