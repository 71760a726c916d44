//! Variants: how they are declared, what is known of each after its
//! annotations are read, and the match arm that each becomes.

use crate::arm::{Arm, ArmBody, ArmBodyModel, ArmModel, ArmPattern, ArmPatternModel};
use crate::attrs::{raw_format, EnumAttrs, VariantAttrs};
use crate::case::{display_text, CaseKind};
use crate::error::DeriveError;
use crate::meta::Attribute;
use crate::placeholder::{
    placeholders_translated, regex_accepts, PLACEHOLDER_PATTERN, UNNAMED_PREFIX,
};
use crate::text::{decimal, decimal_digits, texts};
use vstd::prelude::*;
use vstd::string::*;

verus! {

/// The fields of a variant as declared.
#[derive(Clone, Debug)]
pub enum Fields {
    /// `Name { a: A, b: B }`: the name of each field, where it has one.
    Named(Vec<Option<String>>),
    /// `Name(A, B)`: the number of fields.
    Unnamed(usize),
    /// `Name`
    Unit,
}

/// A variant as declared.
#[derive(Clone, Debug)]
pub struct Variant {
    pub ident: String,
    pub attrs: Vec<Attribute>,
    pub fields: Fields,
}

/// What every variant carries once its annotations are read.
#[derive(Clone, Debug)]
pub struct VariantInfo {
    pub ident: String,
    /// The name in the case style of the enum: the default display text.
    pub ident_transformed: String,
    pub attrs: VariantAttrs,
}

/// A `VariantInfo` over mathematical text.
pub struct InfoModel {
    pub ident: Seq<char>,
    pub display: Seq<char>,
    pub format: Option<Seq<char>>,
}

impl View for VariantInfo {
    type V = InfoModel;

    open spec fn view(&self) -> InfoModel {
        InfoModel {
            ident: self.ident@,
            display: self.ident_transformed@,
            format: self.attrs.format_view(),
        }
    }
}

/// A variant with named fields.
#[derive(Clone, Debug)]
pub struct NamedVariantIR {
    pub info: VariantInfo,
    pub fields: Vec<String>,
}

/// A variant with positional fields, each under the name it is bound to.
#[derive(Clone, Debug)]
pub struct UnnamedVariantIR {
    pub info: VariantInfo,
    pub fields: Vec<String>,
}

/// A variant without fields.
#[derive(Clone, Debug)]
pub struct UnitVariantIR {
    pub info: VariantInfo,
}

/// A variant in one of its three shapes.
#[derive(Clone, Debug)]
pub enum VariantIR {
    Named(NamedVariantIR),
    Unnamed(UnnamedVariantIR),
    Unit(UnitVariantIR),
}

/// The shape of a variant and the names that its fields are bound to.
pub enum ShapeModel {
    Named(Seq<Seq<char>>),
    Unnamed(Seq<Seq<char>>),
    Unit,
}

/// A `VariantIR` over mathematical text.
pub struct VariantModel {
    pub info: InfoModel,
    pub shape: ShapeModel,
}

impl View for VariantIR {
    type V = VariantModel;

    open spec fn view(&self) -> VariantModel {
        match *self {
            VariantIR::Named(named) => VariantModel {
                info: named.info@,
                shape: ShapeModel::Named(texts(named.fields@)),
            },
            VariantIR::Unnamed(unnamed) => VariantModel {
                info: unnamed.info@,
                shape: ShapeModel::Unnamed(texts(unnamed.fields@)),
            },
            VariantIR::Unit(unit) => VariantModel { info: unit.info@, shape: ShapeModel::Unit },
        }
    }
}

/// The names of the declared fields that have one, in order.
pub open spec fn present_names(declared: Seq<Option<String>>) -> Seq<Seq<char>>
    decreases declared.len(),
{
    if declared.len() == 0 {
        Seq::empty()
    } else {
        match declared.last() {
            Some(name) => present_names(declared.drop_last()).push(name@),
            None => present_names(declared.drop_last()),
        }
    }
}

/// The name that the positional field `index` is bound to.
pub open spec fn synthetic_name(index: nat) -> Seq<char> {
    UNNAMED_PREFIX@ + decimal_digits(index)
}

/// The names that `count` positional fields are bound to.
pub open spec fn synthetic_names(count: nat) -> Seq<Seq<char>> {
    Seq::new(count, |i: int| synthetic_name(i as nat))
}

/// The names that the fields of a variant are bound to.
pub open spec fn shape_of(fields: Fields) -> ShapeModel {
    match fields {
        Fields::Named(declared) => ShapeModel::Named(present_names(declared@)),
        Fields::Unnamed(count) => ShapeModel::Unnamed(synthetic_names(count as nat)),
        Fields::Unit => ShapeModel::Unit,
    }
}

/// The body of the arm of a variant.  Its own format, if it has one;
/// else its display text, owned if any variant of the enum has a format.
pub open spec fn arm_body(info: InfoModel, any_has_format: bool) -> ArmBodyModel {
    match info.format {
        Some(format) => ArmBodyModel::Format { variant: info.display, format },
        None => if any_has_format {
            ArmBodyModel::Owned(info.display)
        } else {
            ArmBodyModel::Borrowed(info.display)
        },
    }
}

/// The pattern of the arm of a variant: the fields are bound only where a
/// format may refer to them.
pub open spec fn arm_pattern(info: InfoModel, shape: ShapeModel) -> ArmPatternModel {
    match shape {
        ShapeModel::Named(fields) => if info.format is Some {
            ArmPatternModel::Named(fields)
        } else {
            ArmPatternModel::NamedRest
        },
        ShapeModel::Unnamed(fields) => if info.format is Some {
            ArmPatternModel::Tuple(fields)
        } else {
            ArmPatternModel::TupleRest
        },
        ShapeModel::Unit => ArmPatternModel::Unit,
    }
}

/// The arm of a variant.
pub open spec fn arm_of(variant: VariantModel, any_has_format: bool) -> ArmModel {
    ArmModel {
        ident: variant.info.ident,
        pattern: arm_pattern(variant.info, variant.shape),
        body: arm_body(variant.info, any_has_format),
    }
}

impl VariantInfo {
    /// The body of the arm of this variant.
    fn body(self, any_has_format: bool) -> (body: ArmBody)
        requires
            any_has_format || self@.format is None,
        ensures
            body@ == arm_body(self@, any_has_format),
    {
        match self.attrs.format {
            Some(format) => ArmBody::Format { variant: self.ident_transformed, format },
            None => if any_has_format {
                ArmBody::Owned(self.ident_transformed)
            } else {
                ArmBody::Borrowed(self.ident_transformed)
            },
        }
    }
}

impl NamedVariantIR {
    /// Keeps the names of the declared fields that have one.
    pub fn from_fields_named(fields_named: &Vec<Option<String>>, info: VariantInfo) -> (ir: Self)
        ensures
            ir.info == info,
            texts(ir.fields@) == present_names(fields_named@),
    {
        let mut fields: Vec<String> = Vec::new();
        let mut i: usize = 0;
        proof {
            assert(texts(fields@) =~= present_names(fields_named@.take(0)));
        }
        while i < fields_named.len()
            invariant
                i <= fields_named.len(),
                texts(fields@) == present_names(fields_named@.take(i as int)),
            decreases fields_named.len() - i,
        {
            let ghost before = texts(fields@);
            proof {
                assert(fields_named@.take(i as int + 1).drop_last() =~= fields_named@.take(
                    i as int,
                ));
                assert(fields_named@.take(i as int + 1).last() == fields_named@[i as int]);
            }
            if let Some(name) = &fields_named[i] {
                fields.push(name.clone());
                assert(texts(fields@) =~= before.push(name@));
            }
            i += 1;
        }
        proof {
            assert(fields_named@.take(i as int) =~= fields_named@);
        }
        NamedVariantIR { info, fields }
    }

    /// The match arm of this variant.  `any_has_format` says whether any
    /// variant of the enum has a format, and so holds if this one has.
    pub fn generate(self, any_has_format: bool) -> (arm: Arm)
        requires
            any_has_format || self.info@.format is None,
        ensures
            arm@ == arm_of(
                VariantModel { info: self.info@, shape: ShapeModel::Named(texts(self.fields@)) },
                any_has_format,
            ),
    {
        let pattern = if self.info.attrs.format.is_some() {
            ArmPattern::Named(self.fields)
        } else {
            ArmPattern::NamedRest
        };
        Arm { ident: self.info.ident.clone(), pattern, body: self.info.body(any_has_format) }
    }
}

impl UnnamedVariantIR {
    /// Names the positional fields `_unnamed_0`, `_unnamed_1`, and so on.
    pub fn from_fields_unnamed(fields_unnamed: usize, info: VariantInfo) -> (ir: Self)
        ensures
            ir.info == info,
            texts(ir.fields@) == synthetic_names(fields_unnamed as nat),
    {
        let mut fields: Vec<String> = Vec::new();
        let mut i: usize = 0;
        while i < fields_unnamed
            invariant
                i <= fields_unnamed,
                texts(fields@) == synthetic_names(i as nat),
            decreases fields_unnamed - i,
        {
            let ghost before = texts(fields@);
            let mut name = String::from_str(UNNAMED_PREFIX);
            name.append(decimal(i).as_str());
            assert(name@ == synthetic_name(i as nat));
            fields.push(name);
            proof {
                assert(texts(fields@) =~= before.push(synthetic_name(i as nat)));
                assert(before.push(synthetic_name(i as nat)) =~= synthetic_names(
                    (i + 1) as nat,
                ));
            }
            i += 1;
        }
        UnnamedVariantIR { info, fields }
    }

    /// The match arm of this variant.  `any_has_format` says whether any
    /// variant of the enum has a format, and so holds if this one has.
    pub fn generate(self, any_has_format: bool) -> (arm: Arm)
        requires
            any_has_format || self.info@.format is None,
        ensures
            arm@ == arm_of(
                VariantModel {
                    info: self.info@,
                    shape: ShapeModel::Unnamed(texts(self.fields@)),
                },
                any_has_format,
            ),
    {
        let pattern = if self.info.attrs.format.is_some() {
            ArmPattern::Tuple(self.fields)
        } else {
            ArmPattern::TupleRest
        };
        Arm { ident: self.info.ident.clone(), pattern, body: self.info.body(any_has_format) }
    }
}

impl UnitVariantIR {
    /// A variant without fields needs nothing but what every variant carries.
    pub fn new(info: VariantInfo) -> (ir: Self)
        ensures
            ir.info == info,
    {
        UnitVariantIR { info }
    }

    /// The match arm of this variant.  `any_has_format` says whether any
    /// variant of the enum has a format, and so holds if this one has.
    pub fn generate(self, any_has_format: bool) -> (arm: Arm)
        requires
            any_has_format || self.info@.format is None,
        ensures
            arm@ == arm_of(
                VariantModel { info: self.info@, shape: ShapeModel::Unit },
                any_has_format,
            ),
    {
        Arm {
            ident: self.info.ident.clone(),
            pattern: ArmPattern::Unit,
            body: self.info.body(any_has_format),
        }
    }
}

/// The format that a variant stores: the one written, with its numeric
/// placeholders renamed.
pub open spec fn stored_format(attrs: Seq<Attribute>) -> Option<Seq<char>> {
    match raw_format(attrs) {
        Some(raw) => Some(placeholders_translated(raw)),
        None => None,
    }
}

/// What a declared variant becomes under the case style of its enum.
pub open spec fn variant_model(variant: Variant, case: Option<CaseKind>) -> VariantModel {
    VariantModel {
        info: InfoModel {
            ident: variant.ident@,
            display: display_text(variant.ident@, case),
            format: stored_format(variant.attrs@),
        },
        shape: shape_of(variant.fields),
    }
}

impl VariantIR {
    /// Reads a declared variant: its display text under the case style of
    /// the enum, its format, and the names its fields are bound to.  Fails
    /// only where a format is given and the placeholder pattern is refused.
    pub fn from_variant(variant: &Variant, enum_attrs: &EnumAttrs) -> (r: Result<
        Self,
        DeriveError,
    >)
        ensures
            match r {
                Ok(ir) => ir@ == variant_model(*variant, enum_attrs.case_transform) && (raw_format(
                    variant.attrs@,
                ) is Some ==> regex_accepts(PLACEHOLDER_PATTERN@)),
                Err(e) => e is InvalidPattern && raw_format(variant.attrs@) is Some
                    && !regex_accepts(PLACEHOLDER_PATTERN@),
            },
    {
        let attrs = match VariantAttrs::from_attrs(variant.attrs.as_slice()) {
            Ok(attrs) => attrs,
            Err(e) => {
                return Err(e);
            },
        };
        let info = VariantInfo {
            ident: variant.ident.clone(),
            ident_transformed: enum_attrs.transform_case(variant.ident.clone()),
            attrs,
        };
        Ok(
            match &variant.fields {
                Fields::Named(fields_named) => VariantIR::Named(
                    NamedVariantIR::from_fields_named(fields_named, info),
                ),
                Fields::Unnamed(fields_unnamed) => VariantIR::Unnamed(
                    UnnamedVariantIR::from_fields_unnamed(*fields_unnamed, info),
                ),
                Fields::Unit => VariantIR::Unit(UnitVariantIR::new(info)),
            },
        )
    }

    /// The match arm of this variant.  `any_has_format` says whether any
    /// variant of the enum has a format, and so holds if this one has.
    pub fn generate(self, any_has_format: bool) -> (arm: Arm)
        requires
            any_has_format || !self.has_format(),
        ensures
            arm@ == arm_of(self@, any_has_format),
    {
        match self {
            VariantIR::Named(named_variant) => named_variant.generate(any_has_format),
            VariantIR::Unnamed(unnamed_variant) => unnamed_variant.generate(any_has_format),
            VariantIR::Unit(unit_variant) => unit_variant.generate(any_has_format),
        }
    }

    /// What `has_format` returns.
    pub open spec fn spec_has_format(&self) -> bool {
        self@.info.format is Some
    }

    /// Whether the variant has a format of its own.
    #[verifier::when_used_as_spec(spec_has_format)]
    pub fn has_format(&self) -> (has: bool)
        ensures
            has == self.spec_has_format(),
    {
        match self {
            VariantIR::Named(named_variant) => named_variant.info.attrs.format.is_some(),
            VariantIR::Unnamed(unnamed_variant) => unnamed_variant.info.attrs.format.is_some(),
            VariantIR::Unit(unit_variant) => unit_variant.info.attrs.format.is_some(),
        }
    }
}

} // verus!
