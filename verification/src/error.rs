//! What can go wrong while an implementation is derived.

use vstd::prelude::*;
use vstd::string::*;

verus! {

/// Why no implementation was derived.
#[derive(Debug)]
pub enum DeriveError {
    /// A `case = "..."` selector names no known case style; the name is
    /// kept for the message.
    UnrecognizedCase(String),
    /// The declaration is a struct or a union.
    NotAnEnum,
    /// The regex engine refused the pattern that finds numeric placeholders.
    InvalidPattern,
}

/// A `DeriveError` over mathematical text.
pub enum DeriveFault {
    UnrecognizedCase(Seq<char>),
    NotAnEnum,
    InvalidPattern,
}

impl View for DeriveError {
    type V = DeriveFault;

    open spec fn view(&self) -> DeriveFault {
        match *self {
            DeriveError::UnrecognizedCase(name) => DeriveFault::UnrecognizedCase(name@),
            DeriveError::NotAnEnum => DeriveFault::NotAnEnum,
            DeriveError::InvalidPattern => DeriveFault::InvalidPattern,
        }
    }
}

impl DeriveError {
    /// The text shown to the user.
    pub fn message(&self) -> (out: String)
        ensures
            out@ == match *self {
                DeriveError::UnrecognizedCase(name) => "Unrecognized case name: "@ + name@,
                DeriveError::NotAnEnum => "EnumDisplay can only be derived for enums"@,
                DeriveError::InvalidPattern => "the placeholder pattern did not compile"@,
            },
    {
        match self {
            DeriveError::UnrecognizedCase(name) => {
                let mut out = String::from_str("Unrecognized case name: ");
                out.append(name.as_str());
                out
            },
            DeriveError::NotAnEnum => String::from_str(
                "EnumDisplay can only be derived for enums",
            ),
            DeriveError::InvalidPattern => String::from_str(
                "the placeholder pattern did not compile",
            ),
        }
    }
}

} // verus!
