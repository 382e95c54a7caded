//! The load/persist error taxonomy every store operation reports. Failures
//! are always typed results; the facade maps them to transport statuses and
//! the session renders them inline.

use vstd::prelude::*;

verus! {

/// Why a document could not be read or written.
#[derive(Clone, Debug)]
pub enum LoadError {
    /// The storage medium was unreachable or unwritable.
    IOError,
    /// The payload failed to parse into a document; carries the diagnostic.
    BadFormat(String),
    /// The locator exists but is not a valid document root.
    BadStructure(String),
    /// No document matches the requested id.
    NotFound,
    /// The operation is not implemented by this backend variant.
    Unsupported,
    /// The policy guard denied the request.
    Unauthorized,
}

impl LoadError {
    /// A short, stable tag for each variant, for rendering to an operator.
    pub fn describe(&self) -> (s: String)
        ensures
            s@ == match self {
                LoadError::IOError => "io error"@,
                LoadError::BadFormat(_) => "bad format"@,
                LoadError::BadStructure(_) => "bad structure"@,
                LoadError::NotFound => "not found"@,
                LoadError::Unsupported => "unsupported"@,
                LoadError::Unauthorized => "unauthorized"@,
            },
    {
        match self {
            LoadError::IOError => String::from_str("io error"),
            LoadError::BadFormat(_) => String::from_str("bad format"),
            LoadError::BadStructure(_) => String::from_str("bad structure"),
            LoadError::NotFound => String::from_str("not found"),
            LoadError::Unsupported => String::from_str("unsupported"),
            LoadError::Unauthorized => String::from_str("unauthorized"),
        }
    }
}

} // verus!
