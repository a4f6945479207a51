//! Error type of the nuclear-data loaders.
use vstd::prelude::*;
use vstd::std_specs::convert::FromSpecImpl;

verus! {

#[verifier::external_type_specification]
#[verifier::external_body]
pub struct ExIoError(std::io::Error);

/// Errors emitted by the nuclear-data loaders.
#[derive(Debug)]
pub enum NuclearError {
    /// HDF5 failure with the file path and a diagnostic.
    Hdf5 { path: String, detail: String },
    /// Dimension mismatch between expected and actual shape.
    DimensionMismatch { expected: String, got: String },
    /// Underlying I/O error.
    Io(std::io::Error),
}

/// Result of a loader call.
pub type NuclearResult<T> = Result<T, NuclearError>;

/// Calls `std::io::Error`'s `Display` (through `ToString`); the text is
/// operating-system dependent and nothing is claimed of it.
#[verifier::external_body]
pub(crate) fn io_error_text(e: &std::io::Error) -> String {
    e.to_string()
}

impl NuclearError {
    /// Human-readable description.
    pub fn message(&self) -> (m: String)
        ensures
            match self {
                NuclearError::Hdf5 { path, detail } => m@ == "HDF5 error reading "@ + path@ + ": "@
                    + detail@,
                NuclearError::DimensionMismatch { expected, got } => m@
                    == "dimension mismatch: expected "@ + expected@ + ", got "@ + got@,
                NuclearError::Io(_) => m@.len() >= "I/O error: "@.len() && m@.take(
                    "I/O error: "@.len() as int,
                ) == "I/O error: "@,
            },
    {
        match self {
            NuclearError::Hdf5 { path, detail } => {
                let mut m = String::from_str("HDF5 error reading ");
                m.append(path.as_str());
                m.append(": ");
                m.append(detail.as_str());
                m
            },
            NuclearError::DimensionMismatch { expected, got } => {
                let mut m = String::from_str("dimension mismatch: expected ");
                m.append(expected.as_str());
                m.append(", got ");
                m.append(got.as_str());
                m
            },
            NuclearError::Io(e) => {
                let mut m = String::from_str("I/O error: ");
                let ghost head = m@;
                let t = io_error_text(e);
                m.append(t.as_str());
                assert(m@.take(head.len() as int) =~= head);
                m
            },
        }
    }

    /// The underlying I/O error, if this is one.
    pub fn source_io(&self) -> (e: Option<&std::io::Error>)
        ensures
            match self {
                NuclearError::Io(x) => e == Some(x),
                _ => e is None,
            },
    {
        match self {
            NuclearError::Io(x) => Some(x),
            _ => None,
        }
    }
}

impl From<std::io::Error> for NuclearError {
    fn from(e: std::io::Error) -> (r: Self) {
        NuclearError::Io(e)
    }
}

impl FromSpecImpl<std::io::Error> for NuclearError {
    open spec fn obeys_from_spec() -> bool {
        true
    }

    open spec fn from_spec(v: std::io::Error) -> NuclearError {
        NuclearError::Io(v)
    }
}

} // verus!
