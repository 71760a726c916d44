//! Annotations, as far as the derivation reads them.
//!
//! An attribute `#[name]`, `#[name(a, b)]` or `#[name = lit]` is kept as its
//! name and a payload.  Inside a list, an entry is a literal, a `key = lit`
//! pair, or something else that is never looked into.

use vstd::prelude::*;

verus! {

/// A literal.  Only string literals carry a value.
#[derive(Clone, Debug)]
pub enum Lit {
    Str(String),
    Other,
}

/// One entry of an attribute's list.
#[derive(Clone, Debug)]
pub enum NestedMeta {
    /// A bare literal, as in `display("text")`.
    Lit(Lit),
    /// A `key = literal` pair, as in `display(format = "text")`.
    NameValue { name: String, lit: Lit },
    /// A bare path or a nested list.
    Other,
}

/// The payload of an attribute.
#[derive(Clone, Debug)]
pub enum Meta {
    /// `#[name]`
    Path,
    /// `#[name(entry, ...)]`
    List(Vec<NestedMeta>),
    /// `#[name = literal]`
    NameValue(Lit),
}

/// An attribute on an enum or on one of its variants.
#[derive(Clone, Debug)]
pub struct Attribute {
    pub path: String,
    pub meta: Meta,
}

/// The name of the attribute that configures the whole enum.
pub const ENUM_ATTRIBUTE: &'static str = "enum_display";

/// The name of the attribute that gives a variant its format.
pub const VARIANT_ATTRIBUTE: &'static str = "display";

/// The key that selects the case style.
pub const CASE_KEY: &'static str = "case";

/// The key that introduces a format in the `key = value` form.
pub const FORMAT_KEY: &'static str = "format";

} // verus!
