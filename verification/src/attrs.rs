//! Configuration read from annotations: the case style of an enum and the
//! format of a variant.

use crate::case::{case_kind_named, display_text, to_case, CaseKind};
use crate::error::DeriveError;
use crate::meta::{
    Attribute, Lit, Meta, NestedMeta, CASE_KEY, ENUM_ATTRIBUTE, FORMAT_KEY, VARIANT_ATTRIBUTE,
};
use crate::placeholder::{
    placeholders_translated, regex_accepts, regex_new, translated_with, PLACEHOLDER_PATTERN,
};
use crate::text::str_eq;
use vstd::prelude::*;
use vstd::string::*;

verus! {

/// The case name that one entry of an `enum_display(...)` list selects.
pub open spec fn entry_selector(entry: NestedMeta) -> Option<Seq<char>> {
    match entry {
        NestedMeta::NameValue { name, lit: Lit::Str(value) } => if name@ == CASE_KEY@ {
            Some(value@)
        } else {
            None
        },
        _ => None,
    }
}

/// The case names that a list selects, in the order of its entries.
pub open spec fn list_selectors(list: Seq<NestedMeta>) -> Seq<Seq<char>>
    decreases list.len(),
{
    if list.len() == 0 {
        Seq::empty()
    } else {
        match entry_selector(list.last()) {
            Some(name) => list_selectors(list.drop_last()).push(name),
            None => list_selectors(list.drop_last()),
        }
    }
}

/// The case names that one attribute selects.
pub open spec fn attr_selectors(attr: Attribute) -> Seq<Seq<char>> {
    match attr.meta {
        Meta::List(list) => if attr.path@ == ENUM_ATTRIBUTE@ {
            list_selectors(list@)
        } else {
            Seq::empty()
        },
        _ => Seq::empty(),
    }
}

/// Every case name that the attributes of an enum select, in reading order.
pub open spec fn selectors(attrs: Seq<Attribute>) -> Seq<Seq<char>>
    decreases attrs.len(),
{
    if attrs.len() == 0 {
        Seq::empty()
    } else {
        selectors(attrs.drop_last()) + attr_selectors(attrs.last())
    }
}

/// The first name in a sequence that is no case style.
pub open spec fn first_unrecognized(names: Seq<Seq<char>>) -> Option<Seq<char>>
    decreases names.len(),
{
    if names.len() == 0 {
        None
    } else {
        match first_unrecognized(names.drop_last()) {
            Some(name) => Some(name),
            None => if case_kind_named(names.last()) is None {
                Some(names.last())
            } else {
                None
            },
        }
    }
}

/// The case style in force after a sequence of selectors: that of the last.
pub open spec fn selected_case(names: Seq<Seq<char>>) -> Option<CaseKind> {
    if names.len() == 0 {
        None
    } else {
        case_kind_named(names.last())
    }
}

/// The selectors of a list are those of its front followed by those of its
/// back.
proof fn lemma_list_selectors_concat(a: Seq<NestedMeta>, b: Seq<NestedMeta>)
    ensures
        list_selectors(a + b) == list_selectors(a) + list_selectors(b),
    decreases b.len(),
{
    if b.len() == 0 {
        assert(a + b =~= a);
        assert(list_selectors(a) + list_selectors(b) =~= list_selectors(a));
    } else {
        assert((a + b).last() == b.last());
        assert((a + b).drop_last() =~= a + b.drop_last());
        lemma_list_selectors_concat(a, b.drop_last());
        assert(list_selectors(a + b) =~= list_selectors(a) + list_selectors(b));
    }
}

/// The selectors of attributes are those of the first ones followed by
/// those of the others.
proof fn lemma_selectors_concat(a: Seq<Attribute>, b: Seq<Attribute>)
    ensures
        selectors(a + b) == selectors(a) + selectors(b),
    decreases b.len(),
{
    if b.len() == 0 {
        assert(a + b =~= a);
        assert(selectors(a) + selectors(b) =~= selectors(a));
    } else {
        assert((a + b).last() == b.last());
        assert((a + b).drop_last() =~= a + b.drop_last());
        lemma_selectors_concat(a, b.drop_last());
        assert(selectors(a + b) =~= selectors(a) + selectors(b));
    }
}

/// The first unrecognized name of a sequence lies in its front, or else
/// is the first one of its back.
proof fn lemma_first_unrecognized_concat(a: Seq<Seq<char>>, b: Seq<Seq<char>>)
    ensures
        first_unrecognized(a + b) == match first_unrecognized(a) {
            Some(name) => Some(name),
            None => first_unrecognized(b),
        },
    decreases b.len(),
{
    if b.len() == 0 {
        assert(a + b =~= a);
    } else {
        assert((a + b).last() == b.last());
        assert((a + b).drop_last() =~= a + b.drop_last());
        lemma_first_unrecognized_concat(a, b.drop_last());
    }
}

/// The configuration of a whole enum.
#[derive(Clone, Copy, Debug)]
pub struct EnumAttrs {
    pub case_transform: Option<CaseKind>,
}

/// Reads the entries of one `enum_display(...)` list, starting from the
/// case style selected so far.
fn read_case_entries(list: &Vec<NestedMeta>, current: Option<CaseKind>) -> (r: Result<
    Option<CaseKind>,
    DeriveError,
>)
    ensures
        match first_unrecognized(list_selectors(list@)) {
            Some(name) => r matches Err(DeriveError::UnrecognizedCase(n)) && n@ == name,
            None => r matches Ok(case) && case == if list_selectors(list@).len() == 0 {
                current
            } else {
                selected_case(list_selectors(list@))
            },
        },
{
    let mut case = current;
    let mut j: usize = 0;
    while j < list.len()
        invariant
            j <= list.len(),
            first_unrecognized(list_selectors(list@.take(j as int))) is None,
            case == if list_selectors(list@.take(j as int)).len() == 0 {
                current
            } else {
                selected_case(list_selectors(list@.take(j as int)))
            },
        decreases list.len() - j,
    {
        proof {
            assert(list@.take(j as int + 1).drop_last() =~= list@.take(j as int));
            assert(list@.take(j as int + 1).last() == list@[j as int]);
            let before = list_selectors(list@.take(j as int));
            if let Some(name) = entry_selector(list@[j as int]) {
                assert(before.push(name).drop_last() =~= before);
            }
        }
        if let NestedMeta::NameValue { name, lit } = &list[j] {
            if str_eq(name.as_str(), CASE_KEY) {
                if let Lit::Str(value) = lit {
                    match EnumAttrs::parse_case_name(value.as_str()) {
                        Ok(kind) => {
                            case = Some(kind);
                        },
                        Err(e) => {
                            proof {
                                assert(list@ =~= list@.take(j as int + 1) + list@.skip(
                                    j as int + 1,
                                ));
                                lemma_list_selectors_concat(
                                    list@.take(j as int + 1),
                                    list@.skip(j as int + 1),
                                );
                                lemma_first_unrecognized_concat(
                                    list_selectors(list@.take(j as int + 1)),
                                    list_selectors(list@.skip(j as int + 1)),
                                );
                            }
                            return Err(e);
                        },
                    }
                }
            }
        }
        j += 1;
    }
    proof {
        assert(list@.take(j as int) =~= list@);
    }
    Ok(case)
}

impl EnumAttrs {
    /// Reads the `enum_display(case = "...")` selectors of an enum.  The
    /// first name that is no case style is an error; otherwise the last
    /// selector decides, and without any the names stay as they are.
    pub fn from_attrs(attrs: &[Attribute]) -> (r: Result<EnumAttrs, DeriveError>)
        ensures
            match first_unrecognized(selectors(attrs@)) {
                Some(name) => r matches Err(DeriveError::UnrecognizedCase(n)) && n@ == name,
                None => r matches Ok(read) && read.case_transform == selected_case(
                    selectors(attrs@),
                ),
            },
    {
        let mut case_transform: Option<CaseKind> = None;
        let mut i: usize = 0;
        while i < attrs.len()
            invariant
                i <= attrs.len(),
                first_unrecognized(selectors(attrs@.take(i as int))) is None,
                case_transform == selected_case(selectors(attrs@.take(i as int))),
            decreases attrs.len() - i,
        {
            let attr = &attrs[i];
            proof {
                assert(attrs@.take(i as int + 1).drop_last() =~= attrs@.take(i as int));
                assert(attrs@.take(i as int + 1).last() == attrs@[i as int]);
                lemma_first_unrecognized_concat(
                    selectors(attrs@.take(i as int)),
                    attr_selectors(attrs@[i as int]),
                );
            }
            if str_eq(attr.path.as_str(), ENUM_ATTRIBUTE) {
                if let Meta::List(list) = &attr.meta {
                    match read_case_entries(list, case_transform) {
                        Ok(case) => {
                            case_transform = case;
                        },
                        Err(e) => {
                            proof {
                                assert(attrs@ =~= attrs@.take(i as int + 1) + attrs@.skip(
                                    i as int + 1,
                                ));
                                lemma_selectors_concat(
                                    attrs@.take(i as int + 1),
                                    attrs@.skip(i as int + 1),
                                );
                                lemma_first_unrecognized_concat(
                                    selectors(attrs@.take(i as int + 1)),
                                    selectors(attrs@.skip(i as int + 1)),
                                );
                            }
                            return Err(e);
                        },
                    }
                }
            }
            proof {
                let done = selectors(attrs@.take(i as int));
                let here = attr_selectors(attrs@[i as int]);
                if here.len() == 0 {
                    assert(done + here =~= done);
                } else {
                    assert((done + here).last() == here.last());
                }
            }
            i += 1;
        }
        proof {
            assert(attrs@.take(i as int) =~= attrs@);
        }
        Ok(EnumAttrs { case_transform })
    }

    /// The case style that a name stands for; any other name is an error
    /// that carries the name.
    pub fn parse_case_name(case_name: &str) -> (r: Result<CaseKind, DeriveError>)
        ensures
            match case_kind_named(case_name@) {
                Some(kind) => r matches Ok(k) && k == kind,
                None => r matches Err(DeriveError::UnrecognizedCase(n)) && n@ == case_name@,
            },
    {
        if str_eq(case_name, "Upper") {
            Ok(CaseKind::Upper)
        } else if str_eq(case_name, "Lower") {
            Ok(CaseKind::Lower)
        } else if str_eq(case_name, "Title") {
            Ok(CaseKind::Title)
        } else if str_eq(case_name, "Toggle") {
            Ok(CaseKind::Toggle)
        } else if str_eq(case_name, "Camel") {
            Ok(CaseKind::Camel)
        } else if str_eq(case_name, "Pascal") {
            Ok(CaseKind::Pascal)
        } else if str_eq(case_name, "UpperCamel") {
            Ok(CaseKind::UpperCamel)
        } else if str_eq(case_name, "Snake") {
            Ok(CaseKind::Snake)
        } else if str_eq(case_name, "UpperSnake") {
            Ok(CaseKind::UpperSnake)
        } else if str_eq(case_name, "ScreamingSnake") {
            Ok(CaseKind::ScreamingSnake)
        } else if str_eq(case_name, "Kebab") {
            Ok(CaseKind::Kebab)
        } else if str_eq(case_name, "Cobol") {
            Ok(CaseKind::Cobol)
        } else if str_eq(case_name, "UpperKebab") {
            Ok(CaseKind::UpperKebab)
        } else if str_eq(case_name, "Train") {
            Ok(CaseKind::Train)
        } else if str_eq(case_name, "Flat") {
            Ok(CaseKind::Flat)
        } else if str_eq(case_name, "UpperFlat") {
            Ok(CaseKind::UpperFlat)
        } else if str_eq(case_name, "Alternating") {
            Ok(CaseKind::Alternating)
        } else {
            Err(DeriveError::UnrecognizedCase(String::from_str(case_name)))
        }
    }

    /// The text that a variant shows by default: its name, converted to the
    /// selected case style if there is one.
    pub fn transform_case(&self, ident: String) -> (out: String)
        ensures
            out@ == display_text(ident@, self.case_transform),
    {
        match self.case_transform {
            Some(kind) => to_case(ident.as_str(), kind),
            None => ident,
        }
    }
}

/// The format that one attribute gives: the string literal that is the first
/// entry of a `display(...)` list, bare or as the value of `format`.
pub open spec fn attr_format(attr: Attribute) -> Option<Seq<char>> {
    match attr.meta {
        Meta::List(list) => if attr.path@ == VARIANT_ATTRIBUTE@ && list@.len() > 0 {
            match list@[0] {
                NestedMeta::Lit(Lit::Str(value)) => Some(value@),
                NestedMeta::NameValue { name, lit: Lit::Str(value) } => if name@ == FORMAT_KEY@ {
                    Some(value@)
                } else {
                    None
                },
                _ => None,
            }
        } else {
            None
        },
        _ => None,
    }
}

/// The format of a variant as it was written: that of the last attribute
/// that gives one.
pub open spec fn raw_format(attrs: Seq<Attribute>) -> Option<Seq<char>>
    decreases attrs.len(),
{
    if attrs.len() == 0 {
        None
    } else {
        match attr_format(attrs.last()) {
            Some(fmt) => Some(fmt),
            None => raw_format(attrs.drop_last()),
        }
    }
}

/// Whether an optional string is present and holds the given text.
pub open spec fn format_is(format: Option<String>, text: Seq<char>) -> bool {
    match format {
        Some(fmt) => fmt@ == text,
        None => false,
    }
}

/// The configuration of one variant.
#[derive(Clone, Debug)]
pub struct VariantAttrs {
    /// The custom format, with numeric placeholders already renamed.
    pub format: Option<String>,
}

impl VariantAttrs {
    /// The format of this variant, as a sequence of characters.
    pub open spec fn format_view(&self) -> Option<Seq<char>> {
        match self.format {
            Some(fmt) => Some(fmt@),
            None => None,
        }
    }

    /// Reads the `display(...)` attributes of a variant.  A payload of any
    /// other shape is passed over.
    pub fn from_attrs(attrs: &[Attribute]) -> (r: Result<VariantAttrs, DeriveError>)
        ensures
            match raw_format(attrs@) {
                None => r matches Ok(read) && read.format is None,
                Some(raw) => match r {
                    Ok(read) => regex_accepts(PLACEHOLDER_PATTERN@) && read.format_view() == Some(
                        placeholders_translated(raw),
                    ),
                    Err(e) => !regex_accepts(PLACEHOLDER_PATTERN@) && e is InvalidPattern,
                },
            },
    {
        let mut format: Option<String> = None;
        let mut i: usize = 0;
        while i < attrs.len()
            invariant
                i <= attrs.len(),
                match raw_format(attrs@.take(i as int)) {
                    None => format is None,
                    Some(raw) => regex_accepts(PLACEHOLDER_PATTERN@) && format_is(
                        format,
                        placeholders_translated(raw),
                    ),
                },
            decreases attrs.len() - i,
        {
            let attr = &attrs[i];
            proof {
                assert(attrs@.take(i as int + 1).drop_last() =~= attrs@.take(i as int));
                assert(attrs@.take(i as int + 1).last() == attrs@[i as int]);
            }
            if str_eq(attr.path.as_str(), VARIANT_ATTRIBUTE) {
                if let Meta::List(list) = &attr.meta {
                    if list.len() > 0 {
                        match &list[0] {
                            NestedMeta::Lit(Lit::Str(value)) => {
                                match Self::translate_numeric_placeholders(value.as_str()) {
                                    Ok(fmt) => {
                                        format = Some(fmt);
                                    },
                                    Err(e) => {
                                        proof {
                                            lemma_raw_format_some(attrs@, i as int);
                                        }
                                        return Err(e);
                                    },
                                }
                            },
                            NestedMeta::NameValue { name, lit: Lit::Str(value) } => {
                                if str_eq(name.as_str(), FORMAT_KEY) {
                                    match Self::translate_numeric_placeholders(value.as_str()) {
                                        Ok(fmt) => {
                                            format = Some(fmt);
                                        },
                                        Err(e) => {
                                            proof {
                                                lemma_raw_format_some(attrs@, i as int);
                                            }
                                            return Err(e);
                                        },
                                    }
                                }
                            },
                            _ => {},
                        }
                    }
                }
            }
            i += 1;
        }
        proof {
            assert(attrs@.take(i as int) =~= attrs@);
        }
        Ok(VariantAttrs { format })
    }

    /// Renames every `{<digits><rest>}` of a format string to
    /// `{_unnamed_<digits><rest>}`, so that `{0}` refers to the name that the
    /// first positional field is bound to.
    pub fn translate_numeric_placeholders(fmt: &str) -> (r: Result<String, DeriveError>)
        ensures
            match r {
                Ok(out) => regex_accepts(PLACEHOLDER_PATTERN@) && out@
                    == placeholders_translated(fmt@),
                Err(e) => !regex_accepts(PLACEHOLDER_PATTERN@) && e is InvalidPattern,
            },
    {
        translated_with(regex_new(PLACEHOLDER_PATTERN), fmt)
    }
}

/// Where one attribute gives a format, the variant has one.
pub proof fn lemma_raw_format_some(attrs: Seq<Attribute>, i: int)
    requires
        0 <= i < attrs.len(),
        attr_format(attrs[i]) is Some,
    ensures
        raw_format(attrs) is Some,
    decreases attrs.len(),
{
    if i < attrs.len() - 1 {
        if attr_format(attrs.last()) is None {
            lemma_raw_format_some(attrs.drop_last(), i);
        }
    }
}

} // verus!
