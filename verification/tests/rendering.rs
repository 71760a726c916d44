use enum_display::arm::{string_literal, Arm, ArmBody, ArmPattern};
use enum_display::derive::{Data, DeriveInput, Generics};
use enum_display::format::{render_format, RenderError};
use enum_display::meta::{Attribute, Lit, Meta, NestedMeta};
use enum_display::text::decimal;
use enum_display::variant::{
    Fields, NamedVariantIR, UnitVariantIR, UnnamedVariantIR, Variant, VariantIR, VariantInfo,
};
use enum_display::attrs::{EnumAttrs, VariantAttrs};

fn strings(texts: &[&str]) -> Vec<String> {
    texts.iter().map(|t| t.to_string()).collect()
}

fn render(fmt: &str, names: &[&str], values: &[&str]) -> Result<String, RenderError> {
    render_format(fmt, "Shown", &strings(names), &strings(values))
}

fn info(ident: &str, display: &str, format: Option<&str>) -> VariantInfo {
    VariantInfo {
        ident: ident.to_string(),
        ident_transformed: display.to_string(),
        attrs: VariantAttrs { format: format.map(|f| f.to_string()) },
    }
}

fn with_format(ident: &str, format: &str, fields: Fields) -> Variant {
    Variant {
        ident: ident.to_string(),
        attrs: vec![Attribute {
            path: "display".to_string(),
            meta: Meta::List(vec![NestedMeta::Lit(Lit::Str(format.to_string()))]),
        }],
        fields,
    }
}

fn enum_of(variants: Vec<Variant>) -> DeriveInput {
    DeriveInput {
        ident: "Subject".to_string(),
        attrs: vec![],
        generics: Generics {
            impl_generics: String::new(),
            ty_generics: String::new(),
            where_clause: String::new(),
        },
        data: Data::Enum(variants),
    }
}

#[test]
fn numbers_are_written_in_base_ten() {
    assert_eq!(decimal(0), "0");
    assert_eq!(decimal(7), "7");
    assert_eq!(decimal(10), "10");
    assert_eq!(decimal(1999), "1999");
    assert_eq!(decimal(usize::MAX), usize::MAX.to_string());
}

#[test]
fn a_format_without_placeholders_is_its_own_text() {
    assert_eq!(render("Overridden Name", &[], &[]).unwrap(), "Overridden Name");
    assert_eq!(render("", &[], &[]).unwrap(), "");
}

#[test]
fn variant_stands_for_the_display_text() {
    assert_eq!(render("Unit: {variant}", &[], &[]).unwrap(), "Unit: Shown");
    assert_eq!(render("{variant}{variant}", &["a"], &["1"]).unwrap(), "ShownShown");
}

#[test]
fn variant_is_the_display_text_even_where_a_field_has_that_name() {
    assert_eq!(render("{variant}", &["variant"], &["field"]).unwrap(), "Shown");
}

#[test]
fn a_name_stands_for_the_value_of_its_field() {
    assert_eq!(
        render("{zip} {street}", &["street", "zip"], &["123 Main St", "12345"]).unwrap(),
        "12345 123 Main St"
    );
}

#[test]
fn doubled_braces_are_single_braces() {
    assert_eq!(render("{{{a}}}", &["a"], &["x"]).unwrap(), "{x}");
    assert_eq!(render("}}{{", &[], &[]).unwrap(), "}{");
}

#[test]
fn values_are_not_evaluated_again() {
    assert_eq!(render("{a}", &["a", "b"], &["{b}", "}"]).unwrap(), "{b}");
}

#[test]
fn a_brace_alone_is_an_error() {
    assert!(matches!(render("a { b", &[], &[]), Err(RenderError::UnmatchedBrace)));
    assert!(matches!(render("a } b", &[], &[]), Err(RenderError::UnmatchedBrace)));
    assert!(matches!(render("{variant", &[], &[]), Err(RenderError::UnmatchedBrace)));
    assert!(matches!(render("{", &[], &[]), Err(RenderError::UnmatchedBrace)));
}

#[test]
fn a_format_spec_is_not_supported() {
    assert!(matches!(render("{a:?}", &["a"], &["1"]), Err(RenderError::UnsupportedPlaceholder)));
    assert!(matches!(render("{a{b}}", &["a"], &["1"]), Err(RenderError::UnsupportedPlaceholder)));
}

#[test]
fn an_unknown_name_is_an_error_that_carries_the_name() {
    match render("{a} {b}", &["a"], &["1"]) {
        Err(RenderError::UnknownName(name)) => assert_eq!(name, "b"),
        other => panic!("{other:?}"),
    }
    match render("{}", &["a"], &["1"]) {
        Err(RenderError::UnknownName(name)) => assert_eq!(name, ""),
        other => panic!("{other:?}"),
    }
}

#[test]
fn names_and_values_must_pair_up() {
    assert!(matches!(render("text", &["a"], &[]), Err(RenderError::FieldCount)));
    assert!(matches!(render("text", &[], &["1"]), Err(RenderError::FieldCount)));
}

#[test]
fn a_variant_that_is_not_declared_is_unknown() {
    let made = enum_display::derive::derive(&enum_of(vec![])).unwrap();
    assert!(matches!(made.render("Red", &[]), Err(RenderError::UnknownVariant)));
}

#[test]
fn a_formatted_variant_needs_a_value_for_each_field() {
    let made = enum_display::derive::derive(&enum_of(vec![with_format(
        "Pair",
        "{0}-{1}",
        Fields::Unnamed(2),
    )]))
    .unwrap();
    assert!(matches!(made.render("Pair", &strings(&["1"])), Err(RenderError::FieldCount)));
    assert_eq!(made.render("Pair", &strings(&["1", "2"])).unwrap(), "1-2");
}

#[test]
fn positions_count_from_zero_in_declaration_order() {
    let made = enum_display::derive::derive(&enum_of(vec![with_format(
        "Many",
        "{11} {0} {10} {1}",
        Fields::Unnamed(12),
    )]))
    .unwrap();
    let values: Vec<String> = (0..12).map(|i| format!("v{i}")).collect();
    assert_eq!(made.render("Many", &values).unwrap(), "v11 v0 v10 v1");
}

#[test]
fn an_unformatted_variant_shows_the_same_text_beside_a_formatted_one() {
    let plain = Variant { ident: "Plain".to_string(), attrs: vec![], fields: Fields::Unnamed(1) };
    let alone = enum_display::derive::derive(&enum_of(vec![plain.clone()])).unwrap();
    let mixed = enum_display::derive::derive(&enum_of(vec![
        plain,
        with_format("Other", "other", Fields::Unit),
    ]))
    .unwrap();
    assert!(!alone.owned);
    assert!(mixed.owned);
    assert!(matches!(alone.arms[0].body, ArmBody::Borrowed(_)));
    assert!(matches!(mixed.arms[0].body, ArmBody::Owned(_)));
    let values = strings(&["7"]);
    assert_eq!(alone.render("Plain", &values).unwrap(), "Plain");
    assert_eq!(mixed.render("Plain", &values).unwrap(), "Plain");
}

#[test]
fn fields_without_a_name_are_skipped() {
    let declared = vec![Some("a".to_string()), None, Some("b".to_string())];
    let ir = NamedVariantIR::from_fields_named(&declared, info("V", "V", None));
    assert_eq!(ir.fields, strings(&["a", "b"]));
}

#[test]
fn positional_fields_are_named_by_their_position() {
    let ir = UnnamedVariantIR::from_fields_unnamed(3, info("V", "V", None));
    assert_eq!(ir.fields, strings(&["_unnamed_0", "_unnamed_1", "_unnamed_2"]));
    assert!(UnnamedVariantIR::from_fields_unnamed(0, info("V", "V", None)).fields.is_empty());
}

#[test]
fn a_variant_is_read_into_its_shape() {
    let snake = EnumAttrs { case_transform: EnumAttrs::parse_case_name("Snake").ok() };
    let read = VariantIR::from_variant(
        &with_format("TwoWords", "{0}", Fields::Unnamed(1)),
        &snake,
    )
    .unwrap();
    assert!(read.has_format());
    match read {
        VariantIR::Unnamed(unnamed) => {
            assert_eq!(unnamed.info.ident, "TwoWords");
            assert_eq!(unnamed.info.ident_transformed, "two_words");
            assert_eq!(unnamed.info.attrs.format.as_deref(), Some("{_unnamed_0}"));
            assert_eq!(unnamed.fields, strings(&["_unnamed_0"]));
        }
        other => panic!("{other:?}"),
    }
    let unit = Variant { ident: "U".to_string(), attrs: vec![], fields: Fields::Unit };
    let read = VariantIR::from_variant(&unit, &snake).unwrap();
    assert!(!read.has_format());
    assert!(matches!(read, VariantIR::Unit(_)));
}

fn source(arm: Arm) -> String {
    arm.to_source()
}

#[test]
fn arms_of_unit_variants() {
    let unit = |format, any| UnitVariantIR::new(info("Red", "red", format)).generate(any);
    assert_eq!(source(unit(None, false)), "Red => \"red\",");
    assert_eq!(source(unit(None, true)), "Red => String::from(\"red\"),");
    assert_eq!(
        source(unit(Some("is {variant}"), true)),
        "Red => { let variant = \"red\"; format!(\"is {variant}\") }"
    );
}

#[test]
fn arms_of_variants_with_named_fields() {
    let named = |format, any| {
        NamedVariantIR { info: info("Data", "data", format), fields: strings(&["a", "b"]) }
            .generate(any)
    };
    assert_eq!(source(named(None, false)), "Data { .. } => \"data\",");
    assert_eq!(source(named(None, true)), "Data { .. } => String::from(\"data\"),");
    assert_eq!(
        source(named(Some("{a}"), true)),
        "Data { a, b } => { let variant = \"data\"; format!(\"{a}\") }"
    );
}

#[test]
fn arms_of_variants_with_positional_fields() {
    let tuple = |format, any| {
        UnnamedVariantIR::from_fields_unnamed(2, info("Pair", "pair", format)).generate(any)
    };
    assert_eq!(source(tuple(None, false)), "Pair(..) => \"pair\",");
    assert_eq!(source(tuple(None, true)), "Pair(..) => String::from(\"pair\"),");
    assert_eq!(
        source(tuple(Some("{_unnamed_1}"), true)),
        "Pair(_unnamed_0, _unnamed_1) => { let variant = \"pair\"; format!(\"{_unnamed_1}\") }"
    );
}

#[test]
fn an_arm_renders_what_its_body_says() {
    let arm = Arm {
        ident: "Data".to_string(),
        pattern: ArmPattern::Named(strings(&["value"])),
        body: ArmBody::Format {
            variant: "data".to_string(),
            format: "{variant}: {value}".to_string(),
        },
    };
    assert_eq!(arm.render(&strings(&["42"])).unwrap(), "data: 42");
    let arm = Arm {
        ident: "Data".to_string(),
        pattern: ArmPattern::NamedRest,
        body: ArmBody::Owned("data".to_string()),
    };
    assert_eq!(arm.render(&strings(&["42"])).unwrap(), "data");
}

#[test]
fn string_literals_are_escaped() {
    assert_eq!(string_literal("plain"), "\"plain\"");
    assert_eq!(string_literal(""), "\"\"");
    assert_eq!(string_literal("say \"hi\""), "\"say \\\"hi\\\"\"");
    assert_eq!(string_literal("a\\b"), "\"a\\\\b\"");
    assert_eq!(string_literal("line\nbreak\r\ttab"), "\"line\\nbreak\\r\\ttab\"");
    assert_eq!(string_literal("snow ☃ {x}"), "\"snow ☃ {x}\"");
}
