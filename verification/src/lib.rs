//! Derivation of `Display` implementations for enums.
//!
//! An enum declaration, given as plain data, is turned into the description
//! of an `impl ::core::fmt::Display` block: one match arm per variant, which
//! yields either the variant's name (optionally converted to another case) or
//! a format string supplied for that variant.  The description can be written
//! out as source text and can be evaluated, so that what the generated code
//! prints is itself specified.

pub mod arm;
pub mod attrs;
pub mod case;
pub mod derive;
pub mod error;
pub mod format;
pub mod laws;
pub mod meta;
pub mod placeholder;
pub mod text;
pub mod variant;
