//! Rewriting of numeric placeholders in a format string.
//!
//! A format written for a tuple variant refers to its fields by position:
//! `{0}`, `{2:?}`.  The generated code binds these fields to names of its own,
//! so each such placeholder is renamed before the format is stored.  The
//! matching is done by the `regex` crate.

use crate::error::DeriveError;
use regex::Regex;
use vstd::prelude::*;
use vstd::string::*;

verus! {

/// `regex::Regex`, a compiled pattern.  Nothing is known of what is inside.
#[verifier::external_type_specification]
#[verifier::external_body]
pub struct ExRegex(regex::Regex);

/// `regex::Error`, the reason for which a pattern does not compile.
#[verifier::external_type_specification]
#[verifier::external_body]
pub struct ExRegexError(regex::Error);

/// The prefix of the name that a positional field is bound to.
pub const UNNAMED_PREFIX: &'static str = "_unnamed_";

/// Finds a brace-delimited segment that starts with a decimal number:
/// the number is the first group, what follows it up to the closing brace
/// the second.  White space around the number belongs to neither.
pub const PLACEHOLDER_PATTERN: &'static str = r"\{\s*(\d+)\s*([^}]*)\}";

/// What each match is replaced with: the two groups behind the prefix.
pub const PLACEHOLDER_REPLACEMENT: &'static str = "{_unnamed_${1}${2}}";

/// What compiling a pattern yields: the compiled regex, or the reason for
/// which the regex engine refuses the pattern.
pub uninterp spec fn regex_compiled(pattern: Seq<char>) -> Result<Regex, regex::Error>;

/// The haystack with every non-overlapping match of a compiled regex
/// replaced by the expansion of the replacement, in which `${n}` stands for
/// the n-th group of the match.
pub uninterp spec fn regex_replaced(
    re: Regex,
    haystack: Seq<char>,
    replacement: Seq<char>,
) -> Seq<char>;

/// Calls `regex::Regex::new`.  Compiling is a function of the pattern
/// alone; the contract only gives its outcome a name.
#[verifier::external_body]
pub(crate) fn regex_new(pattern: &str) -> (r: Result<Regex, regex::Error>)
    ensures
        r == regex_compiled(pattern@),
{
    Regex::new(pattern)
}

/// Calls `regex::Regex::replace_all` with a replacement string.  The
/// result is a function of the regex, the haystack and the replacement; the
/// contract only gives it a name.
#[verifier::external_body]
fn regex_replace_all(re: &Regex, haystack: &str, replacement: &str) -> (out: String)
    ensures
        out@ == regex_replaced(*re, haystack@, replacement@),
{
    re.replace_all(haystack, replacement).into_owned()
}

/// Whether the regex engine accepts a pattern.
pub open spec fn regex_accepts(pattern: Seq<char>) -> bool {
    regex_compiled(pattern) is Ok
}

/// A format string with its numeric placeholders renamed, where the regex
/// engine accepts the placeholder pattern.
pub open spec fn placeholders_translated(fmt: Seq<char>) -> Seq<char> {
    regex_replaced(regex_compiled(PLACEHOLDER_PATTERN@)->Ok_0, fmt, PLACEHOLDER_REPLACEMENT@)
}

/// What becomes of a format string once the outcome of compiling the
/// pattern is known: the replaced text, or the compile failure passed on.
pub fn translated_with(compiled: Result<Regex, regex::Error>, fmt: &str) -> (r: Result<
    String,
    DeriveError,
>)
    ensures
        match compiled {
            Ok(re) => r matches Ok(out) && out@ == regex_replaced(
                re,
                fmt@,
                PLACEHOLDER_REPLACEMENT@,
            ),
            Err(_) => r matches Err(DeriveError::InvalidPattern),
        },
{
    match compiled {
        Ok(re) => Ok(regex_replace_all(&re, fmt, PLACEHOLDER_REPLACEMENT)),
        Err(_) => Err(DeriveError::InvalidPattern),
    }
}

} // verus!
