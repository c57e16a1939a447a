//! The one error type that every decoder of this crate reports.

use vstd::prelude::*;

verus! {

/// `std::io::Error`, which is carried and never looked into.
#[verifier::external_type_specification]
#[verifier::external_body]
pub struct ExIoError(std::io::Error);

/// `std::string::FromUtf8Error`, which is carried and never looked into.
#[verifier::external_type_specification]
#[verifier::external_body]
pub struct ExFromUtf8Error(std::string::FromUtf8Error);

#[derive(Debug)]
pub enum DviousError {
    /// A file could not be read.
    IoError(std::io::Error),
    /// The font-path resolver did not succeed.
    KpsewhichError(String),
    /// A read would have crossed the end of the buffer.
    IndexOutOfBoundsError,
    /// A font-metric buffer contradicts itself.
    TfmParseError(String),
    /// A DVI instruction starts with a byte that names no opcode.
    UnknownOpcodeError(u8),
    /// A string field does not hold UTF-8.
    Utf8Error(std::string::FromUtf8Error),
}

pub type DviousResult<T> = Result<T, DviousError>;

/// What a `DviousError` says, with the payloads that cannot be inspected left out.
pub enum Failure {
    Io,
    Kpsewhich(Seq<char>),
    IndexOutOfBounds,
    TfmParse(Seq<char>),
    UnknownOpcode(u8),
    Utf8,
}

impl View for DviousError {
    type V = Failure;

    open spec fn view(&self) -> Failure {
        match self {
            DviousError::IoError(_) => Failure::Io,
            DviousError::KpsewhichError(message) => Failure::Kpsewhich(message@),
            DviousError::IndexOutOfBoundsError => Failure::IndexOutOfBounds,
            DviousError::TfmParseError(message) => Failure::TfmParse(message@),
            DviousError::UnknownOpcodeError(byte) => Failure::UnknownOpcode(*byte),
            DviousError::Utf8Error(_) => Failure::Utf8,
        }
    }
}

impl From<std::io::Error> for DviousError {
    fn from(error: std::io::Error) -> (result: Self) {
        DviousError::IoError(error)
    }
}

impl vstd::std_specs::convert::FromSpecImpl<std::io::Error> for DviousError {
    open spec fn obeys_from_spec() -> bool {
        true
    }

    open spec fn from_spec(error: std::io::Error) -> Self {
        DviousError::IoError(error)
    }
}

impl From<std::string::FromUtf8Error> for DviousError {
    fn from(error: std::string::FromUtf8Error) -> (result: Self) {
        DviousError::Utf8Error(error)
    }
}

impl vstd::std_specs::convert::FromSpecImpl<std::string::FromUtf8Error> for DviousError {
    open spec fn obeys_from_spec() -> bool {
        true
    }

    open spec fn from_spec(error: std::string::FromUtf8Error) -> Self {
        DviousError::Utf8Error(error)
    }
}

} // verus!
