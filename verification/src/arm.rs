//! Match arms of the generated `fmt` method: what they are, how they are
//! written as source text, and what text they produce when they run.

use crate::format::{render_format, rendered, outcome, RenderError, RenderFault, Scope};
use crate::text::{chars_of, texts};
use vstd::prelude::*;
use vstd::string::*;

verus! {

/// The pattern of a match arm, behind the name of the variant.
#[derive(Clone, Debug)]
pub enum ArmPattern {
    /// `Name`
    Unit,
    /// `Name { .. }`
    NamedRest,
    /// `Name { a, b }`
    Named(Vec<String>),
    /// `Name(..)`
    TupleRest,
    /// `Name(a, b)`
    Tuple(Vec<String>),
}

/// The body of a match arm.
#[derive(Clone, Debug)]
pub enum ArmBody {
    /// A string literal, returned as `&'static str`.
    Borrowed(String),
    /// `String::from` of a string literal.
    Owned(String),
    /// `format!` of a format string, with `variant` bound to a string literal.
    Format { variant: String, format: String },
}

/// One match arm.
#[derive(Clone, Debug)]
pub struct Arm {
    pub ident: String,
    pub pattern: ArmPattern,
    pub body: ArmBody,
}

/// An `ArmPattern` over mathematical text.
pub enum ArmPatternModel {
    Unit,
    NamedRest,
    Named(Seq<Seq<char>>),
    TupleRest,
    Tuple(Seq<Seq<char>>),
}

/// An `ArmBody` over mathematical text.
pub enum ArmBodyModel {
    Borrowed(Seq<char>),
    Owned(Seq<char>),
    Format { variant: Seq<char>, format: Seq<char> },
}

/// An `Arm` over mathematical text.
pub struct ArmModel {
    pub ident: Seq<char>,
    pub pattern: ArmPatternModel,
    pub body: ArmBodyModel,
}

impl View for ArmPattern {
    type V = ArmPatternModel;

    open spec fn view(&self) -> ArmPatternModel {
        match *self {
            ArmPattern::Unit => ArmPatternModel::Unit,
            ArmPattern::NamedRest => ArmPatternModel::NamedRest,
            ArmPattern::Named(fields) => ArmPatternModel::Named(texts(fields@)),
            ArmPattern::TupleRest => ArmPatternModel::TupleRest,
            ArmPattern::Tuple(fields) => ArmPatternModel::Tuple(texts(fields@)),
        }
    }
}

impl View for ArmBody {
    type V = ArmBodyModel;

    open spec fn view(&self) -> ArmBodyModel {
        match *self {
            ArmBody::Borrowed(text) => ArmBodyModel::Borrowed(text@),
            ArmBody::Owned(text) => ArmBodyModel::Owned(text@),
            ArmBody::Format { variant, format } => ArmBodyModel::Format {
                variant: variant@,
                format: format@,
            },
        }
    }
}

impl View for Arm {
    type V = ArmModel;

    open spec fn view(&self) -> ArmModel {
        ArmModel { ident: self.ident@, pattern: self.pattern@, body: self.body@ }
    }
}

/// How one character stands inside a string literal.
pub open spec fn escaped_char(c: char) -> Seq<char> {
    if c == '"' {
        seq!['\\', '"']
    } else if c == '\\' {
        seq!['\\', '\\']
    } else if c == '\n' {
        seq!['\\', 'n']
    } else if c == '\r' {
        seq!['\\', 'r']
    } else if c == '\t' {
        seq!['\\', 't']
    } else {
        seq![c]
    }
}

/// A text as it stands between the quotes of a string literal.
pub open spec fn escaped(text: Seq<char>) -> Seq<char>
    decreases text.len(),
{
    if text.len() == 0 {
        Seq::empty()
    } else {
        escaped(text.drop_last()) + escaped_char(text.last())
    }
}

/// The string literal that denotes a text.
pub open spec fn literal(text: Seq<char>) -> Seq<char> {
    seq!['"'] + escaped(text) + seq!['"']
}

/// Names separated by `, `.
pub open spec fn joined(names: Seq<Seq<char>>) -> Seq<char>
    decreases names.len(),
{
    if names.len() == 0 {
        Seq::empty()
    } else if names.len() == 1 {
        names[0]
    } else {
        joined(names.drop_last()) + ", "@ + names.last()
    }
}

/// The source text of a pattern, behind the name of the variant.
pub open spec fn pattern_source(pattern: ArmPatternModel) -> Seq<char> {
    match pattern {
        ArmPatternModel::Unit => Seq::empty(),
        ArmPatternModel::NamedRest => " { .. }"@,
        ArmPatternModel::Named(fields) => " { "@ + joined(fields) + " }"@,
        ArmPatternModel::TupleRest => "(..)"@,
        ArmPatternModel::Tuple(fields) => "("@ + joined(fields) + ")"@,
    }
}

/// The source text of a body.
pub open spec fn body_source(body: ArmBodyModel) -> Seq<char> {
    match body {
        ArmBodyModel::Borrowed(text) => literal(text) + ","@,
        ArmBodyModel::Owned(text) => "String::from("@ + literal(text) + "),"@,
        ArmBodyModel::Format { variant, format } => "{ let variant = "@ + literal(variant)
            + "; format!("@ + literal(format) + ") }"@,
    }
}

/// The source text of an arm: `Name <pattern> => <body>`.
pub open spec fn arm_source(arm: ArmModel) -> Seq<char> {
    arm.ident + pattern_source(arm.pattern) + " => "@ + body_source(arm.body)
}

/// The names that a pattern binds, in the order of the fields.
pub open spec fn bound_names(pattern: ArmPatternModel) -> Seq<Seq<char>> {
    match pattern {
        ArmPatternModel::Named(fields) => fields,
        ArmPatternModel::Tuple(fields) => fields,
        _ => Seq::empty(),
    }
}

/// The text that an arm produces for a value whose fields render as
/// `values`.  An arm without a format yields its literal, whatever the
/// fields hold.
pub open spec fn arm_rendered(arm: ArmModel, values: Seq<Seq<char>>) -> Result<
    Seq<char>,
    RenderFault,
> {
    match arm.body {
        ArmBodyModel::Borrowed(text) => Ok(text),
        ArmBodyModel::Owned(text) => Ok(text),
        ArmBodyModel::Format { variant, format } => if bound_names(arm.pattern).len()
            == values.len() {
            rendered(format, Scope { variant, names: bound_names(arm.pattern), values })
        } else {
            Err(RenderFault::FieldCount)
        },
    }
}

/// Writes a text as a string literal.
pub fn string_literal(text: &str) -> (out: String)
    ensures
        out@ == literal(text@),
{
    let chars = chars_of(text);
    let mut out = String::from_str("\"");
    proof {
        reveal_strlit("\"");
        reveal_strlit("\\\"");
        reveal_strlit("\\\\");
        reveal_strlit("\\n");
        reveal_strlit("\\r");
        reveal_strlit("\\t");
        assert("\""@ =~= seq!['"']);
        assert("\\\""@ =~= seq!['\\', '"']);
        assert("\\\\"@ =~= seq!['\\', '\\']);
        assert("\\n"@ =~= seq!['\\', 'n']);
        assert("\\r"@ =~= seq!['\\', 'r']);
        assert("\\t"@ =~= seq!['\\', 't']);
        assert(text@.take(0) =~= Seq::<char>::empty());
        assert(text@.subrange(0, 0) =~= Seq::<char>::empty());
        assert(out@ + text@.subrange(0, 0) =~= seq!['"'] + escaped(text@.take(0)));
    }
    let mut run: usize = 0;
    let mut pos: usize = 0;
    while pos < chars.len()
        invariant
            chars@ == text@,
            run <= pos <= chars.len(),
            out@ + text@.subrange(run as int, pos as int) == seq!['"'] + escaped(
                text@.take(pos as int),
            ),
            "\""@ == seq!['"'],
            "\\\""@ == seq!['\\', '"'],
            "\\\\"@ == seq!['\\', '\\'],
            "\\n"@ == seq!['\\', 'n'],
            "\\r"@ == seq!['\\', 'r'],
            "\\t"@ == seq!['\\', 't'],
        decreases chars.len() - pos,
    {
        let c = chars[pos];
        let ghost before = seq!['"'] + escaped(text@.take(pos as int));
        proof {
            assert(text@.take(pos as int + 1).drop_last() =~= text@.take(pos as int));
            assert(text@.take(pos as int + 1).last() == c);
            assert(seq!['"'] + escaped(text@.take(pos as int + 1)) =~= before + escaped_char(c));
        }
        if c == '"' || c == '\\' || c == '\n' || c == '\r' || c == '\t' {
            out.append(text.substring_char(run, pos));
            assert(out@ == before);
            if c == '"' {
                out.append("\\\"");
            } else if c == '\\' {
                out.append("\\\\");
            } else if c == '\n' {
                out.append("\\n");
            } else if c == '\r' {
                out.append("\\r");
            } else {
                out.append("\\t");
            }
            pos += 1;
            run = pos;
            proof {
                assert(text@.subrange(run as int, pos as int) =~= Seq::<char>::empty());
                assert(out@ + text@.subrange(run as int, pos as int) =~= out@);
            }
        } else {
            proof {
                assert(text@.subrange(run as int, pos as int + 1) =~= text@.subrange(
                    run as int,
                    pos as int,
                ) + seq![c]);
                assert(out@ + text@.subrange(run as int, pos as int + 1) =~= before + seq![c]);
            }
            pos += 1;
        }
    }
    out.append(text.substring_char(run, pos));
    proof {
        assert(text@.take(pos as int) =~= text@);
    }
    out.append("\"");
    out
}

/// Writes names separated by `, `.
pub fn join_names(names: &Vec<String>) -> (out: String)
    ensures
        out@ == joined(texts(names@)),
{
    let mut out = String::new();
    let mut k: usize = 0;
    while k < names.len()
        invariant
            k <= names.len(),
            out@ == joined(texts(names@).take(k as int)),
        decreases names.len() - k,
    {
        proof {
            let all = texts(names@);
            assert(all.take(k as int + 1).drop_last() =~= all.take(k as int));
            assert(all.take(k as int + 1).last() == names@[k as int]@);
            if k == 0 {
                assert(all.take(1)[0] == names@[0]@);
                assert(Seq::<char>::empty() + names@[0]@ =~= names@[0]@);
            }
        }
        if k > 0 {
            out.append(", ");
        }
        out.append(names[k].as_str());
        k += 1;
    }
    proof {
        assert(texts(names@).take(k as int) =~= texts(names@));
    }
    out
}

impl ArmPattern {
    /// The source text of the pattern, behind the name of the variant.
    pub fn to_source(&self) -> (out: String)
        ensures
            out@ == pattern_source(self@),
    {
        match self {
            ArmPattern::Unit => String::new(),
            ArmPattern::NamedRest => String::from_str(" { .. }"),
            ArmPattern::Named(fields) => {
                let mut out = String::from_str(" { ");
                out.append(join_names(fields).as_str());
                out.append(" }");
                out
            },
            ArmPattern::TupleRest => String::from_str("(..)"),
            ArmPattern::Tuple(fields) => {
                let mut out = String::from_str("(");
                out.append(join_names(fields).as_str());
                out.append(")");
                out
            },
        }
    }
}

impl ArmBody {
    /// The source text of the body.
    pub fn to_source(&self) -> (out: String)
        ensures
            out@ == body_source(self@),
    {
        match self {
            ArmBody::Borrowed(text) => {
                let mut out = string_literal(text.as_str());
                out.append(",");
                out
            },
            ArmBody::Owned(text) => {
                let mut out = String::from_str("String::from(");
                out.append(string_literal(text.as_str()).as_str());
                out.append("),");
                out
            },
            ArmBody::Format { variant, format } => {
                let mut out = String::from_str("{ let variant = ");
                out.append(string_literal(variant.as_str()).as_str());
                out.append("; format!(");
                out.append(string_literal(format.as_str()).as_str());
                out.append(") }");
                out
            },
        }
    }
}

impl Arm {
    /// The source text of the arm.
    pub fn to_source(&self) -> (out: String)
        ensures
            out@ == arm_source(self@),
    {
        let mut out = self.ident.clone();
        out.append(self.pattern.to_source().as_str());
        out.append(" => ");
        out.append(self.body.to_source().as_str());
        out
    }

    /// The text that the arm produces for a value whose fields, in the
    /// order of their declaration, render as `values`.
    pub fn render(&self, values: &[String]) -> (r: Result<String, RenderError>)
        ensures
            outcome(r) == arm_rendered(self@, texts(values@)),
    {
        match &self.body {
            ArmBody::Borrowed(text) => Ok(text.clone()),
            ArmBody::Owned(text) => Ok(text.clone()),
            ArmBody::Format { variant, format } => {
                match &self.pattern {
                    ArmPattern::Named(fields) => render_format(
                        format.as_str(),
                        variant.as_str(),
                        fields,
                        values,
                    ),
                    ArmPattern::Tuple(fields) => render_format(
                        format.as_str(),
                        variant.as_str(),
                        fields,
                        values,
                    ),
                    _ => {
                        let none: Vec<String> = Vec::new();
                        assert(texts(none@) =~= Seq::<Seq<char>>::empty());
                        render_format(format.as_str(), variant.as_str(), &none, values)
                    },
                }
            },
        }
    }
}

} // verus!
