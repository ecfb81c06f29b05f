//! The errors of a conversion run.

use vstd::prelude::*;

verus! {

/// `std::io::Error`, carried through unread.
#[verifier::external_type_specification]
#[verifier::external_body]
pub struct ExIoError(std::io::Error);

/// `serde_json::Error`, carried through unread.
#[verifier::external_type_specification]
#[verifier::external_body]
pub struct ExJsonError(serde_json::Error);

/// `toml::de::Error`, carried through unread.
#[verifier::external_type_specification]
#[verifier::external_body]
pub struct ExTomlDeError(toml::de::Error);

/// `toml::ser::Error`, carried through unread.
#[verifier::external_type_specification]
#[verifier::external_body]
pub struct ExTomlSerError(toml::ser::Error);

/// `csv::Error`, carried through unread.
#[verifier::external_type_specification]
#[verifier::external_body]
pub struct ExCsvError(csv::Error);

/// All the ways a conversion run can fail.
#[derive(Debug)]
pub enum TransforError {
    /// An I/O operation (reading or writing a file or stream) failed.
    Io(std::io::Error),
    /// JSON text could not be read or written.
    Json(serde_json::Error),
    /// TOML text could not be read.
    Toml(toml::de::Error),
    /// A document could not be written as TOML.
    TomlSer(toml::ser::Error),
    /// A CSV operation (read or write) failed.
    Csv(csv::Error),
    /// The input file path is invalid.
    InvalidPath(String),
    /// The input format was not given and cannot be guessed; the text names
    /// the input ("stdin" or the file path).
    UnknownInputFormat(String),
    /// CSV output needs an array of objects.
    NonTabularForCsv,
    /// The input stream was empty.
    EmptyInput,
}

} // verus!
