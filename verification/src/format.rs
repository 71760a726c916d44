//! Evaluation of a format string.
//!
//! The generated code hands a variant's format to `format!`, with the
//! variant's display text bound to `variant` and each field bound to its
//! name.  This module says what text that yields, for the formats that need
//! no more than the `Display` rendering of each field: literal text, the
//! escapes `{{` and `}}`, and placeholders `{name}`.

use crate::text::{chars_of, str_eq, texts};
use vstd::prelude::*;
use vstd::string::*;

verus! {

/// The name that the display text of the variant is bound to.
pub const VARIANT_NAME: &'static str = "variant";

/// Why a format could not be evaluated.
#[derive(Debug)]
pub enum RenderError {
    /// The enum has no variant of the given name.
    UnknownVariant,
    /// The number of values differs from the number of bound fields.
    FieldCount,
    /// A `{` is never closed, or a `}` closes nothing.
    UnmatchedBrace,
    /// A placeholder asks for more than the plain rendering of a name.
    UnsupportedPlaceholder,
    /// A placeholder names nothing that is in scope.
    UnknownName(String),
}

/// A `RenderError` over mathematical text.
pub enum RenderFault {
    UnknownVariant,
    FieldCount,
    UnmatchedBrace,
    UnsupportedPlaceholder,
    UnknownName(Seq<char>),
}

impl View for RenderError {
    type V = RenderFault;

    open spec fn view(&self) -> RenderFault {
        match *self {
            RenderError::UnknownVariant => RenderFault::UnknownVariant,
            RenderError::FieldCount => RenderFault::FieldCount,
            RenderError::UnmatchedBrace => RenderFault::UnmatchedBrace,
            RenderError::UnsupportedPlaceholder => RenderFault::UnsupportedPlaceholder,
            RenderError::UnknownName(name) => RenderFault::UnknownName(name@),
        }
    }
}

/// What an evaluation returns, over mathematical text.
pub open spec fn outcome(r: Result<String, RenderError>) -> Result<Seq<char>, RenderFault> {
    match r {
        Ok(text) => Ok(text@),
        Err(e) => Err(e@),
    }
}

/// What a format can refer to: the display text of the variant, and the
/// fields that the match arm binds, each with its rendering.
pub struct Scope {
    pub variant: Seq<char>,
    pub names: Seq<Seq<char>>,
    pub values: Seq<Seq<char>>,
}

/// The first position at which a name occurs among the bound names.
pub open spec fn position(names: Seq<Seq<char>>, name: Seq<char>) -> Option<int>
    decreases names.len(),
{
    if names.len() == 0 {
        None
    } else {
        match position(names.drop_last(), name) {
            Some(i) => Some(i),
            None => if names.last() == name {
                Some(names.len() - 1)
            } else {
                None
            },
        }
    }
}

/// The text that a name stands for.  `variant` always is the display text,
/// whatever the fields are called.
pub open spec fn resolved(scope: Scope, name: Seq<char>) -> Option<Seq<char>> {
    if name == VARIANT_NAME@ {
        Some(scope.variant)
    } else {
        match position(scope.names, name) {
            Some(i) => if i < scope.values.len() {
                Some(scope.values[i])
            } else {
                None
            },
            None => None,
        }
    }
}

/// The length of the placeholder name that starts at `at`: the characters
/// up to the closing brace, none of which opens a brace or a format spec.
pub open spec fn name_len(fmt: Seq<char>, at: int) -> Result<nat, RenderFault>
    decreases fmt.len() - at,
{
    if at < 0 || at >= fmt.len() {
        Err(RenderFault::UnmatchedBrace)
    } else if fmt[at] == '}' {
        Ok(0)
    } else if fmt[at] == '{' || fmt[at] == ':' {
        Err(RenderFault::UnsupportedPlaceholder)
    } else {
        match name_len(fmt, at + 1) {
            Ok(n) => Ok(n + 1),
            Err(fault) => Err(fault),
        }
    }
}

/// A text in front of what the rest of an evaluation yields.
pub open spec fn prefixed(head: Seq<char>, tail: Result<Seq<char>, RenderFault>) -> Result<
    Seq<char>,
    RenderFault,
> {
    match tail {
        Ok(text) => Ok(head + text),
        Err(fault) => Err(fault),
    }
}

/// What the format yields from position `pos` on.
pub open spec fn rendered_from(fmt: Seq<char>, pos: int, scope: Scope) -> Result<
    Seq<char>,
    RenderFault,
>
    decreases
            (if pos < fmt.len() {
                fmt.len() - pos
            } else {
                0
            }),
{
    if pos < 0 || pos >= fmt.len() {
        Ok(Seq::empty())
    } else if fmt[pos] == '{' {
        if pos + 1 < fmt.len() && fmt[pos + 1] == '{' {
            prefixed(seq!['{'], rendered_from(fmt, pos + 2, scope))
        } else {
            match name_len(fmt, pos + 1) {
                Err(fault) => Err(fault),
                Ok(n) => {
                    let name = fmt.subrange(pos + 1, pos + 1 + n);
                    match resolved(scope, name) {
                        None => Err(RenderFault::UnknownName(name)),
                        Some(value) => prefixed(value, rendered_from(fmt, pos + 2 + n, scope)),
                    }
                },
            }
        }
    } else if fmt[pos] == '}' {
        if pos + 1 < fmt.len() && fmt[pos + 1] == '}' {
            prefixed(seq!['}'], rendered_from(fmt, pos + 2, scope))
        } else {
            Err(RenderFault::UnmatchedBrace)
        }
    } else {
        prefixed(seq![fmt[pos]], rendered_from(fmt, pos + 1, scope))
    }
}

/// The text that a format yields in a scope.
pub open spec fn rendered(fmt: Seq<char>, scope: Scope) -> Result<Seq<char>, RenderFault> {
    rendered_from(fmt, 0, scope)
}

/// A name keeps its first position when more names follow.
pub proof fn lemma_position_stable(names: Seq<Seq<char>>, more: Seq<Seq<char>>, name: Seq<char>)
    requires
        position(names, name) is Some,
    ensures
        position(names + more, name) == position(names, name),
    decreases more.len(),
{
    if more.len() == 0 {
        assert(names + more =~= names);
    } else {
        assert((names + more).drop_last() =~= names + more.drop_last());
        lemma_position_stable(names, more.drop_last(), name);
    }
}

/// A position that is found lies within the names and holds the name.
pub proof fn lemma_position_bounds(names: Seq<Seq<char>>, name: Seq<char>)
    ensures
        match position(names, name) {
            Some(i) => 0 <= i < names.len() && names[i] == name,
            None => forall|j: int| 0 <= j < names.len() ==> names[j] != name,
        },
    decreases names.len(),
{
    if names.len() > 0 {
        lemma_position_bounds(names.drop_last(), name);
        if position(names.drop_last(), name) is None {
            assert forall|j: int| 0 <= j < names.len() && names.last() != name implies names[j]
                != name by {
                if j < names.len() - 1 {
                    assert(names.drop_last()[j] == names[j]);
                }
            }
        } else {
            let i = position(names.drop_last(), name).unwrap();
            assert(names.drop_last()[i] == names[i]);
        }
    }
}

/// Where a name ends, the closing brace stands.
pub proof fn lemma_name_len_bounds(fmt: Seq<char>, at: int)
    requires
        0 <= at,
    ensures
        name_len(fmt, at) matches Ok(n) ==> at + n < fmt.len() && fmt[at + n] == '}',
    decreases fmt.len() - at,
{
    if at < fmt.len() && fmt[at] != '}' && fmt[at] != '{' && fmt[at] != ':' {
        lemma_name_len_bounds(fmt, at + 1);
    }
}

/// Finds the first of the names that equals the key.
fn find_name(names: &Vec<String>, key: &String) -> (r: Option<usize>)
    ensures
        match r {
            Some(k) => k < names.len() && position(texts(names@), key@) == Some(k as int),
            None => position(texts(names@), key@) is None,
        },
{
    let mut k: usize = 0;
    while k < names.len()
        invariant
            k <= names.len(),
            position(texts(names@).take(k as int), key@) is None,
        decreases names.len() - k,
    {
        proof {
            let all = texts(names@);
            assert(all.take(k as int + 1).drop_last() =~= all.take(k as int));
            assert(all.take(k as int + 1).last() == names@[k as int]@);
        }
        if names[k] == *key {
            proof {
                let all = texts(names@);
                assert(all =~= all.take(k as int + 1) + all.skip(k as int + 1));
                lemma_position_stable(all.take(k as int + 1), all.skip(k as int + 1), key@);
            }
            return Some(k);
        }
        k += 1;
    }
    proof {
        assert(texts(names@).take(k as int) =~= texts(names@));
    }
    None
}

/// Measures the placeholder name that starts at `at`.
fn scan_name(chars: &Vec<char>, at: usize) -> (r: Result<usize, RenderError>)
    requires
        at <= chars.len(),
    ensures
        match name_len(chars@, at as int) {
            Ok(n) => r == Ok::<usize, RenderError>(n as usize) && at + n < chars.len(),
            Err(fault) => r matches Err(e) && e@ == fault,
        },
{
    let mut end: usize = at;
    while end < chars.len() && chars[end] != '}'
        invariant
            at <= end <= chars.len(),
            match name_len(chars@, end as int) {
                Ok(n) => name_len(chars@, at as int) == Ok::<nat, RenderFault>(
                    (n + end - at) as nat,
                ),
                Err(fault) => name_len(chars@, at as int) == Err::<nat, RenderFault>(fault),
            },
        decreases chars.len() - end,
    {
        if chars[end] == '{' || chars[end] == ':' {
            return Err(RenderError::UnsupportedPlaceholder);
        }
        end += 1;
    }
    if end < chars.len() {
        Ok(end - at)
    } else {
        Err(RenderError::UnmatchedBrace)
    }
}

/// Evaluates a format: `variant` stands for the display text, every other
/// name for the value at the position where it first occurs among `names`.
pub fn render_format(fmt: &str, variant: &str, names: &Vec<String>, values: &[String]) -> (r:
    Result<String, RenderError>)
    ensures
        outcome(r) == if names.len() == values.len() {
            rendered(
                fmt@,
                Scope { variant: variant@, names: texts(names@), values: texts(values@) },
            )
        } else {
            Err(RenderFault::FieldCount)
        },
{
    if names.len() != values.len() {
        return Err(RenderError::FieldCount);
    }
    let ghost scope = Scope { variant: variant@, names: texts(names@), values: texts(values@) };
    let chars = chars_of(fmt);
    let mut out = String::new();
    let mut run: usize = 0;
    let mut pos: usize = 0;
    while pos < chars.len()
        invariant
            chars@ == fmt@,
            names.len() == values.len(),
            scope == (Scope { variant: variant@, names: texts(names@), values: texts(values@) }),
            run <= pos <= chars.len(),
            rendered(fmt@, scope) == prefixed(
                out@ + fmt@.subrange(run as int, pos as int),
                rendered_from(fmt@, pos as int, scope),
            ),
        decreases chars.len() - pos,
    {
        let ghost pending = out@ + fmt@.subrange(run as int, pos as int);
        let c = chars[pos];
        if c == '{' || c == '}' {
            out.append(fmt.substring_char(run, pos));
            assert(out@ == pending);
            if pos + 1 < chars.len() && chars[pos + 1] == c {
                out.append(fmt.substring_char(pos, pos + 1));
                proof {
                    assert(fmt@.subrange(pos as int, pos as int + 1) =~= seq![c]);
                    assert(fmt@.subrange(pos as int + 2, pos as int + 2) =~= Seq::<char>::empty());
                    let rest = rendered_from(fmt@, pos as int + 2, scope);
                    if let Ok(text) = rest {
                        assert(pending + (seq![c] + text) =~= (pending + seq![c]) + text);
                    }
                    assert(out@ + Seq::<char>::empty() =~= out@);
                }
                pos += 2;
                run = pos;
            } else if c == '}' {
                return Err(RenderError::UnmatchedBrace);
            } else {
                let n = match scan_name(&chars, pos + 1) {
                    Ok(n) => n,
                    Err(e) => {
                        return Err(e);
                    },
                };
                let name = String::from_str(fmt.substring_char(pos + 1, pos + 1 + n));
                let ghost key = fmt@.subrange(pos as int + 1, pos as int + 1 + n as int);
                assert(name@ == key);
                if str_eq(name.as_str(), VARIANT_NAME) {
                    out.append(variant);
                } else {
                    match find_name(names, &name) {
                        Some(k) => {
                            out.append(values[k].as_str());
                            assert(texts(values@)[k as int] == values@[k as int]@);
                        },
                        None => {
                            return Err(RenderError::UnknownName(name));
                        },
                    }
                }
                proof {
                    let value = resolved(scope, key).unwrap();
                    let rest = rendered_from(fmt@, pos as int + 2 + n as int, scope);
                    assert(out@ == pending + value);
                    assert(fmt@.subrange(pos as int + 2 + n as int, pos as int + 2 + n as int)
                        =~= Seq::<char>::empty());
                    if let Ok(text) = rest {
                        assert(pending + (value + text) =~= (pending + value) + text);
                    }
                    assert(out@ + Seq::<char>::empty() =~= out@);
                }
                pos = pos + 2 + n;
                run = pos;
            }
        } else {
            proof {
                let rest = rendered_from(fmt@, pos as int + 1, scope);
                assert(fmt@.subrange(run as int, pos as int + 1) =~= fmt@.subrange(
                    run as int,
                    pos as int,
                ) + seq![c]);
                if let Ok(text) = rest {
                    assert(pending + (seq![c] + text) =~= (pending + seq![c]) + text);
                }
                assert(out@ + (fmt@.subrange(run as int, pos as int) + seq![c]) =~= pending
                    + seq![c]);
            }
            pos += 1;
        }
    }
    out.append(fmt.substring_char(run, pos));
    proof {
        assert(out@ + Seq::<char>::empty() =~= out@);
    }
    Ok(out)
}

} // verus!
