//! Case styles for variant names.

use convert_case::{Case, Casing};
use vstd::prelude::*;
use vstd::string::*;

verus! {

/// The case styles that an `enum_display(case = "...")` selector may name.
#[derive(Clone, Copy, Debug, PartialEq, Eq, Structural)]
pub enum CaseKind {
    Upper,
    Lower,
    Title,
    Toggle,
    Camel,
    Pascal,
    UpperCamel,
    Snake,
    UpperSnake,
    ScreamingSnake,
    Kebab,
    Cobol,
    UpperKebab,
    Train,
    Flat,
    UpperFlat,
    Alternating,
}

/// The case style that a selector names, if it names one.
pub open spec fn case_kind_named(name: Seq<char>) -> Option<CaseKind> {
    if name == "Upper"@ {
        Some(CaseKind::Upper)
    } else if name == "Lower"@ {
        Some(CaseKind::Lower)
    } else if name == "Title"@ {
        Some(CaseKind::Title)
    } else if name == "Toggle"@ {
        Some(CaseKind::Toggle)
    } else if name == "Camel"@ {
        Some(CaseKind::Camel)
    } else if name == "Pascal"@ {
        Some(CaseKind::Pascal)
    } else if name == "UpperCamel"@ {
        Some(CaseKind::UpperCamel)
    } else if name == "Snake"@ {
        Some(CaseKind::Snake)
    } else if name == "UpperSnake"@ {
        Some(CaseKind::UpperSnake)
    } else if name == "ScreamingSnake"@ {
        Some(CaseKind::ScreamingSnake)
    } else if name == "Kebab"@ {
        Some(CaseKind::Kebab)
    } else if name == "Cobol"@ {
        Some(CaseKind::Cobol)
    } else if name == "UpperKebab"@ {
        Some(CaseKind::UpperKebab)
    } else if name == "Train"@ {
        Some(CaseKind::Train)
    } else if name == "Flat"@ {
        Some(CaseKind::Flat)
    } else if name == "UpperFlat"@ {
        Some(CaseKind::UpperFlat)
    } else if name == "Alternating"@ {
        Some(CaseKind::Alternating)
    } else {
        None
    }
}

/// What `convert_case` makes of an identifier in a given case style.
pub uninterp spec fn case_converted(ident: Seq<char>, kind: CaseKind) -> Seq<char>;

/// Calls `convert_case::Casing::to_case` on the identifier, with the case
/// style of the same name.  The conversion is a function of the text and the
/// style alone; the contract only gives its result a name.
#[verifier::external_body]
pub(crate) fn to_case(ident: &str, kind: CaseKind) -> (out: String)
    ensures
        out@ == case_converted(ident@, kind),
{
    ident.to_case(match kind {
        CaseKind::Upper => Case::Upper, CaseKind::Lower => Case::Lower,
        CaseKind::Title => Case::Title, CaseKind::Toggle => Case::Toggle,
        CaseKind::Camel => Case::Camel, CaseKind::Pascal => Case::Pascal,
        CaseKind::UpperCamel => Case::UpperCamel, CaseKind::Snake => Case::Snake,
        CaseKind::UpperSnake => Case::UpperSnake,
        CaseKind::ScreamingSnake => Case::ScreamingSnake,
        CaseKind::Kebab => Case::Kebab, CaseKind::Cobol => Case::Cobol,
        CaseKind::UpperKebab => Case::UpperKebab, CaseKind::Train => Case::Train,
        CaseKind::Flat => Case::Flat, CaseKind::UpperFlat => Case::UpperFlat,
        CaseKind::Alternating => Case::Alternating,
    })
}

/// Applies an optional case style to an identifier: the identifier itself
/// where no style is selected.
pub open spec fn display_text(ident: Seq<char>, case: Option<CaseKind>) -> Seq<char> {
    match case {
        Some(kind) => case_converted(ident, kind),
        None => ident,
    }
}

impl CaseKind {
    /// The name that selects this case style.
    pub open spec fn name(self) -> Seq<char> {
        match self {
            CaseKind::Upper => "Upper"@,
            CaseKind::Lower => "Lower"@,
            CaseKind::Title => "Title"@,
            CaseKind::Toggle => "Toggle"@,
            CaseKind::Camel => "Camel"@,
            CaseKind::Pascal => "Pascal"@,
            CaseKind::UpperCamel => "UpperCamel"@,
            CaseKind::Snake => "Snake"@,
            CaseKind::UpperSnake => "UpperSnake"@,
            CaseKind::ScreamingSnake => "ScreamingSnake"@,
            CaseKind::Kebab => "Kebab"@,
            CaseKind::Cobol => "Cobol"@,
            CaseKind::UpperKebab => "UpperKebab"@,
            CaseKind::Train => "Train"@,
            CaseKind::Flat => "Flat"@,
            CaseKind::UpperFlat => "UpperFlat"@,
            CaseKind::Alternating => "Alternating"@,
        }
    }
}

/// Every case style is selected by its own name, and by no other.
pub proof fn law_case_names(kind: CaseKind, name: Seq<char>)
    ensures
        case_kind_named(name) == Some(kind) <==> name == kind.name(),
{
    reveal_strlit("Upper");
    reveal_strlit("Lower");
    reveal_strlit("Title");
    reveal_strlit("Toggle");
    reveal_strlit("Camel");
    reveal_strlit("Pascal");
    reveal_strlit("UpperCamel");
    reveal_strlit("Snake");
    reveal_strlit("UpperSnake");
    reveal_strlit("ScreamingSnake");
    reveal_strlit("Kebab");
    reveal_strlit("Cobol");
    reveal_strlit("UpperKebab");
    reveal_strlit("Train");
    reveal_strlit("Flat");
    reveal_strlit("UpperFlat");
    reveal_strlit("Alternating");
    assert("Upper"@[0] == 'U' && "Lower"@[0] == 'L' && "Snake"@[0] == 'S' && "Kebab"@[0] == 'K');
    assert("Title"@[0] == 'T' && "Title"@[1] == 'i' && "Train"@[0] == 'T' && "Train"@[1] == 'r');
    assert("Camel"@[0] == 'C' && "Camel"@[1] == 'a' && "Cobol"@[0] == 'C' && "Cobol"@[1] == 'o');
    assert("Toggle"@[0] == 'T' && "Pascal"@[0] == 'P');
    assert("UpperCamel"@[5] == 'C' && "UpperSnake"@[5] == 'S' && "UpperKebab"@[5] == 'K');
    if name.len() == 5 {
        let _ = (name[0], name[1]);
    } else if name.len() == 6 {
        let _ = name[0];
    } else if name.len() == 10 {
        let _ = name[5];
    }
}

} // verus!
