//! The command-line options of a conversion, as plain values.

use vstd::prelude::*;

verus! {

/// The set of supported data formats.
#[derive(Clone, Copy, Debug, PartialEq, Eq, Structural)]
pub enum Format {
    /// JavaScript Object Notation
    Json,
    /// TOML's Obvious, Minimal Language
    Toml,
    /// Comma-Separated Values
    Csv,
}

/// The options of one conversion run.
#[derive(Debug)]
pub struct Cli {
    /// The input format. If absent, it is guessed from the file extension.
    pub input_format: Option<Format>,
    /// The desired output format.
    pub output_format: Format,
    /// The input file to read. If absent, the input is standard input.
    pub input_file: Option<String>,
    /// The output file to write to. If absent, the output is standard output.
    pub output_file: Option<String>,
}

} // verus!
