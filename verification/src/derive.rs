//! From a declaration to the implementation of `Display`.

use crate::arm::{arm_rendered, arm_source, Arm, ArmModel};
use crate::attrs::{first_unrecognized, raw_format, selected_case, selectors, EnumAttrs};
use crate::case::CaseKind;
use crate::error::{DeriveError, DeriveFault};
use crate::format::{
    lemma_position_stable, outcome, position, RenderError, RenderFault,
};
use crate::meta::Attribute;
use crate::placeholder::{regex_accepts, PLACEHOLDER_PATTERN};
use crate::text::texts;
use crate::variant::{arm_of, variant_model, Variant, VariantIR};
use vstd::prelude::*;
use vstd::string::*;

verus! {

/// The generics of a declaration, each part as it is written in an `impl`:
/// behind `impl`, behind the name of the type, and the `where` clause.
#[derive(Clone, Debug)]
pub struct Generics {
    pub impl_generics: String,
    pub ty_generics: String,
    pub where_clause: String,
}

/// `Generics` over mathematical text.
pub struct GenericsModel {
    pub impl_generics: Seq<char>,
    pub ty_generics: Seq<char>,
    pub where_clause: Seq<char>,
}

impl View for Generics {
    type V = GenericsModel;

    open spec fn view(&self) -> GenericsModel {
        GenericsModel {
            impl_generics: self.impl_generics@,
            ty_generics: self.ty_generics@,
            where_clause: self.where_clause@,
        }
    }
}

/// What a declaration holds.
#[derive(Clone, Debug)]
pub enum Data {
    Enum(Vec<Variant>),
    Struct,
    Union,
}

/// A declaration that `Display` is to be derived for.
#[derive(Clone, Debug)]
pub struct DeriveInput {
    pub ident: String,
    pub attrs: Vec<Attribute>,
    pub generics: Generics,
    pub data: Data,
}

/// The derived implementation: a `fmt` method that matches on `self`, one
/// arm per variant in the order of the declaration.
#[derive(Clone, Debug)]
pub struct DisplayImpl {
    pub ident: String,
    pub generics: Generics,
    /// Whether the arms yield `String` rather than `&'static str`.
    pub owned: bool,
    pub arms: Vec<Arm>,
}

/// A `DisplayImpl` over mathematical text.
pub struct DisplayImplModel {
    pub ident: Seq<char>,
    pub generics: GenericsModel,
    pub owned: bool,
    pub arms: Seq<ArmModel>,
}

/// The arms of a vector, each over mathematical text.
pub open spec fn arm_models(arms: Seq<Arm>) -> Seq<ArmModel> {
    Seq::new(arms.len(), |i: int| arms[i]@)
}

impl View for DisplayImpl {
    type V = DisplayImplModel;

    open spec fn view(&self) -> DisplayImplModel {
        DisplayImplModel {
            ident: self.ident@,
            generics: self.generics@,
            owned: self.owned,
            arms: arm_models(self.arms@),
        }
    }
}

/// Whether any of the variants has a format of its own.
pub open spec fn any_format(variants: Seq<Variant>) -> bool {
    exists|i: int| 0 <= i < variants.len() && raw_format(#[trigger] variants[i].attrs@) is Some
}

/// The arms of the variants, in order.
pub open spec fn derived_arms(variants: Seq<Variant>, case: Option<CaseKind>, owned: bool) -> Seq<
    ArmModel,
> {
    Seq::new(variants.len(), |i: int| arm_of(variant_model(variants[i], case), owned))
}

/// What deriving yields for a declaration.
///
/// A case selector that names no case style is reported first; then a
/// declaration that is no enum.  The arms are owned as soon as one variant
/// has a format, and a format can only be stored if the regex engine accepts
/// the placeholder pattern.
pub open spec fn derived(input: DeriveInput) -> Result<DisplayImplModel, DeriveFault> {
    match first_unrecognized(selectors(input.attrs@)) {
        Some(name) => Err(DeriveFault::UnrecognizedCase(name)),
        None => match input.data {
            Data::Enum(variants) => if any_format(variants@) && !regex_accepts(
                PLACEHOLDER_PATTERN@,
            ) {
                Err(DeriveFault::InvalidPattern)
            } else {
                Ok(
                    DisplayImplModel {
                        ident: input.ident@,
                        generics: input.generics@,
                        owned: any_format(variants@),
                        arms: derived_arms(
                            variants@,
                            selected_case(selectors(input.attrs@)),
                            any_format(variants@),
                        ),
                    },
                )
            },
            _ => Err(DeriveFault::NotAnEnum),
        },
    }
}

/// Reads every variant of an enum.
fn read_variants(variants: &Vec<Variant>, enum_attrs: &EnumAttrs) -> (r: Result<
    Vec<VariantIR>,
    DeriveError,
>)
    ensures
        match r {
            Ok(read) => {
                &&& read.len() == variants.len()
                &&& forall|i: int|
                    0 <= i < read.len() ==> (#[trigger] read[i])@ == variant_model(
                        variants[i],
                        enum_attrs.case_transform,
                    )
                &&& any_format(variants@) ==> regex_accepts(PLACEHOLDER_PATTERN@)
            },
            Err(e) => e is InvalidPattern && any_format(variants@) && !regex_accepts(
                PLACEHOLDER_PATTERN@,
            ),
        },
{
    let mut read: Vec<VariantIR> = Vec::new();
    let mut i: usize = 0;
    while i < variants.len()
        invariant
            i <= variants.len(),
            read.len() == i,
            forall|j: int|
                0 <= j < read.len() ==> (#[trigger] read[j])@ == variant_model(
                    variants[j],
                    enum_attrs.case_transform,
                ),
            any_format(variants@.take(i as int)) ==> regex_accepts(PLACEHOLDER_PATTERN@),
        decreases variants.len() - i,
    {
        match VariantIR::from_variant(&variants[i], enum_attrs) {
            Ok(ir) => {
                read.push(ir);
            },
            Err(e) => {
                assert(raw_format(variants@[i as int].attrs@) is Some);
                return Err(e);
            },
        }
        proof {
            if any_format(variants@.take(i as int + 1)) {
                let k = choose|k: int|
                    0 <= k < i + 1 && raw_format(
                        #[trigger] variants@.take(i as int + 1)[k].attrs@,
                    ) is Some;
                if k < i {
                    assert(raw_format(variants@.take(i as int)[k].attrs@) is Some);
                }
            }
        }
        i += 1;
    }
    proof {
        assert(variants@.take(i as int) =~= variants@);
    }
    Ok(read)
}

/// Whether any of the variants read has a format of its own.
fn any_has_format(read: &Vec<VariantIR>) -> (any: bool)
    ensures
        any == exists|i: int| 0 <= i < read.len() && (#[trigger] read[i]).has_format(),
{
    let mut i: usize = 0;
    while i < read.len()
        invariant
            i <= read.len(),
            forall|j: int| 0 <= j < i ==> !(#[trigger] read[j]).has_format(),
        decreases read.len() - i,
    {
        if read[i].has_format() {
            return true;
        }
        i += 1;
    }
    false
}

/// Deriving `Display` for a declaration.
///
/// Every arm yields the display text of its variant, or evaluates the
/// format of the variant where it has one.
pub fn derive(input: &DeriveInput) -> (r: Result<DisplayImpl, DeriveError>)
    ensures
        match derived(*input) {
            Ok(model) => r matches Ok(made) && made@ == model,
            Err(fault) => r matches Err(e) && e@ == fault,
        },
{
    let enum_attrs = match EnumAttrs::from_attrs(input.attrs.as_slice()) {
        Ok(enum_attrs) => enum_attrs,
        Err(e) => {
            return Err(e);
        },
    };
    let variants = match &input.data {
        Data::Enum(variants) => variants,
        _ => {
            return Err(DeriveError::NotAnEnum);
        },
    };
    let intermediate_variants = match read_variants(variants, &enum_attrs) {
        Ok(read) => read,
        Err(e) => {
            return Err(e);
        },
    };
    let any_has_format = any_has_format(&intermediate_variants);
    let ghost case = enum_attrs.case_transform;
    proof {
        if any_has_format {
            let k = choose|k: int|
                0 <= k < intermediate_variants.len() && (
                #[trigger] intermediate_variants[k]).has_format();
            assert(raw_format(variants@[k].attrs@) is Some);
        }
        if any_format(variants@) {
            let k = choose|k: int|
                0 <= k < variants.len() && raw_format(#[trigger] variants@[k].attrs@) is Some;
            assert(intermediate_variants[k].has_format());
        }
        assert(any_has_format == any_format(variants@));
    }
    let ghost read = intermediate_variants@;
    let mut arms: Vec<Arm> = Vec::new();
    for v in it: intermediate_variants.into_iter()
        invariant
            it.seq() == read,
            read.len() == variants.len(),
            forall|i: int|
                0 <= i < read.len() ==> (#[trigger] read[i])@ == variant_model(variants[i], case),
            any_has_format == any_format(variants@),
            forall|i: int|
                0 <= i < read.len() && (#[trigger] read[i]).has_format() ==> any_has_format,
            arms.len() == it.index(),
            forall|i: int|
                0 <= i < arms.len() ==> (#[trigger] arms[i])@ == arm_of(
                    variant_model(variants[i], case),
                    any_has_format,
                ),
    {
        assert(v == read[it.index() as int]);
        arms.push(v.generate(any_has_format));
    }
    let made = DisplayImpl {
        ident: input.ident.clone(),
        generics: Generics {
            impl_generics: input.generics.impl_generics.clone(),
            ty_generics: input.generics.ty_generics.clone(),
            where_clause: input.generics.where_clause.clone(),
        },
        owned: any_has_format,
        arms,
    };
    proof {
        assert(arm_models(made.arms@) =~= derived_arms(variants@, case, any_has_format));
    }
    Ok(made)
}

/// The arms written one below the other, each behind `Self::`.
pub open spec fn arms_source(arms: Seq<ArmModel>) -> Seq<char>
    decreases arms.len(),
{
    if arms.len() == 0 {
        Seq::empty()
    } else {
        arms_source(arms.drop_last()) + "\n            Self::"@ + arm_source(arms.last())
    }
}

/// What is appended to the `match` so that it is a `&str`.
pub open spec fn postfix(owned: bool) -> Seq<char> {
    if owned {
        ".as_str()"@
    } else {
        Seq::empty()
    }
}

/// The source text of the implementation.  The generics of the declaration
/// are written out unchanged.
pub open spec fn impl_source(made: DisplayImplModel) -> Seq<char> {
    "#[automatically_derived]\n#[allow(unused_qualifications)]\nimpl "@
        + made.generics.impl_generics + " ::core::fmt::Display for "@ + made.ident + " "@
        + made.generics.ty_generics + " "@ + made.generics.where_clause
        + " {\n    fn fmt(&self, f: &mut ::core::fmt::Formatter) -> ::core::fmt::Result {\n        ::core::fmt::Formatter::write_str(f, match self {"@
        + arms_source(made.arms) + "\n        }"@ + postfix(made.owned) + ")\n    }\n}\n"@
}

/// The names of the variants that the arms match, in order.
pub open spec fn arm_idents(arms: Seq<ArmModel>) -> Seq<Seq<char>> {
    Seq::new(arms.len(), |i: int| arms[i].ident)
}

/// The text that the implementation writes for a value of the named
/// variant whose fields render as `values`.  The first arm that matches the
/// name decides.
pub open spec fn impl_rendered(made: DisplayImplModel, variant: Seq<char>, values: Seq<Seq<char>>)
    -> Result<Seq<char>, RenderFault> {
    match position(arm_idents(made.arms), variant) {
        Some(i) => arm_rendered(made.arms[i], values),
        None => Err(RenderFault::UnknownVariant),
    }
}

impl DisplayImpl {
    /// Writes the implementation as source text.
    pub fn to_source(&self) -> (out: String)
        ensures
            out@ == impl_source(self@),
    {
        let mut arms = String::new();
        let mut k: usize = 0;
        proof {
            assert(arm_models(self.arms@).take(0) =~= Seq::<ArmModel>::empty());
        }
        while k < self.arms.len()
            invariant
                k <= self.arms.len(),
                arms@ == arms_source(arm_models(self.arms@).take(k as int)),
            decreases self.arms.len() - k,
        {
            proof {
                let all = arm_models(self.arms@);
                assert(all.take(k as int + 1).drop_last() =~= all.take(k as int));
                assert(all.take(k as int + 1).last() == self.arms@[k as int]@);
            }
            arms.append("\n            Self::");
            arms.append(self.arms[k].to_source().as_str());
            k += 1;
        }
        proof {
            assert(arm_models(self.arms@).take(k as int) =~= arm_models(self.arms@));
        }
        let mut out = String::from_str(
            "#[automatically_derived]\n#[allow(unused_qualifications)]\nimpl ",
        );
        out.append(self.generics.impl_generics.as_str());
        out.append(" ::core::fmt::Display for ");
        out.append(self.ident.as_str());
        out.append(" ");
        out.append(self.generics.ty_generics.as_str());
        out.append(" ");
        out.append(self.generics.where_clause.as_str());
        out.append(
            " {\n    fn fmt(&self, f: &mut ::core::fmt::Formatter) -> ::core::fmt::Result {\n        ::core::fmt::Formatter::write_str(f, match self {",
        );
        out.append(arms.as_str());
        out.append("\n        }");
        if self.owned {
            out.append(".as_str()");
        } else {
            assert(out@ + Seq::<char>::empty() =~= out@);
        }
        out.append(")\n    }\n}\n");
        out
    }

    /// The text that the implementation writes for a value of the named
    /// variant whose fields, in the order of their declaration, render as
    /// `values`.
    pub fn render(&self, variant: &str, values: &[String]) -> (r: Result<String, RenderError>)
        ensures
            outcome(r) == impl_rendered(self@, variant@, texts(values@)),
    {
        let key = String::from_str(variant);
        let mut k: usize = 0;
        let ghost idents = arm_idents(self@.arms);
        while k < self.arms.len()
            invariant
                k <= self.arms.len(),
                key@ == variant@,
                idents == arm_idents(self@.arms),
                position(idents.take(k as int), variant@) is None,
            decreases self.arms.len() - k,
        {
            proof {
                assert(idents.take(k as int + 1).drop_last() =~= idents.take(k as int));
                assert(idents.take(k as int + 1).last() == self.arms@[k as int].ident@);
            }
            if self.arms[k].ident == key {
                proof {
                    assert(idents =~= idents.take(k as int + 1) + idents.skip(k as int + 1));
                    lemma_position_stable(
                        idents.take(k as int + 1),
                        idents.skip(k as int + 1),
                        variant@,
                    );
                }
                return self.arms[k].render(values);
            }
            k += 1;
        }
        proof {
            assert(idents.take(k as int) =~= idents);
        }
        Err(RenderError::UnknownVariant)
    }
}

} // verus!
