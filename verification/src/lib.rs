//! Data plumbing between JSON, TOML and CSV.
//!
//! The library holds the work of the converter: which input format a file
//! has, how input text becomes a document (CSV here, JSON and TOML through
//! their crates), how a document is written as JSON, as a TOML document or
//! as a CSV table, and the order in which a conversion run opens, reads and
//! writes.

pub mod cli;
pub mod codec;
pub mod driver;
pub mod error;
pub mod formats;
pub mod json;
pub mod text;

pub use cli::{Cli, Format};
pub use driver::{guess_input_format, run, Action, Event, Run, Stage};
pub use error::TransforError;
pub use formats::{read_data, write_data, CsvPlan, WriteError};
pub use json::{JsonMap, JsonValue};
