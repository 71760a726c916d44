use enum_display::attrs::{EnumAttrs, VariantAttrs};
use enum_display::case::CaseKind;
use enum_display::derive::{Data, DeriveInput, Generics};
use enum_display::error::DeriveError;
use enum_display::meta::{Attribute, Lit, Meta, NestedMeta};
use enum_display::placeholder::{translated_with, PLACEHOLDER_PATTERN};
use enum_display::variant::{Fields, Variant};

fn attr(path: &str, entries: Vec<NestedMeta>) -> Attribute {
    Attribute { path: path.to_string(), meta: Meta::List(entries) }
}

fn pair(name: &str, value: &str) -> NestedMeta {
    NestedMeta::NameValue { name: name.to_string(), lit: Lit::Str(value.to_string()) }
}

fn bare(value: &str) -> NestedMeta {
    NestedMeta::Lit(Lit::Str(value.to_string()))
}

fn input(attrs: Vec<Attribute>, data: Data) -> DeriveInput {
    DeriveInput {
        ident: "Subject".to_string(),
        attrs,
        generics: Generics {
            impl_generics: String::new(),
            ty_generics: String::new(),
            where_clause: String::new(),
        },
        data,
    }
}

#[test]
fn every_case_name_is_recognized() {
    let names = [
        ("Upper", CaseKind::Upper),
        ("Lower", CaseKind::Lower),
        ("Title", CaseKind::Title),
        ("Toggle", CaseKind::Toggle),
        ("Camel", CaseKind::Camel),
        ("Pascal", CaseKind::Pascal),
        ("UpperCamel", CaseKind::UpperCamel),
        ("Snake", CaseKind::Snake),
        ("UpperSnake", CaseKind::UpperSnake),
        ("ScreamingSnake", CaseKind::ScreamingSnake),
        ("Kebab", CaseKind::Kebab),
        ("Cobol", CaseKind::Cobol),
        ("UpperKebab", CaseKind::UpperKebab),
        ("Train", CaseKind::Train),
        ("Flat", CaseKind::Flat),
        ("UpperFlat", CaseKind::UpperFlat),
        ("Alternating", CaseKind::Alternating),
    ];
    for (name, kind) in names {
        assert_eq!(EnumAttrs::parse_case_name(name).unwrap(), kind);
    }
}

#[test]
fn an_unknown_case_name_is_an_error_that_carries_the_name() {
    match EnumAttrs::parse_case_name("kebab") {
        Err(DeriveError::UnrecognizedCase(name)) => assert_eq!(name, "kebab"),
        other => panic!("{other:?}"),
    }
    let e = EnumAttrs::parse_case_name("Sponge").unwrap_err();
    assert_eq!(e.message(), "Unrecognized case name: Sponge");
}

#[test]
fn every_case_style_converts_as_the_crate_of_that_name() {
    let expected = [
        ("Upper", "XML HTTP REQUEST"),
        ("Lower", "xml http request"),
        ("Title", "Xml Http Request"),
        ("Toggle", "xML hTTP rEQUEST"),
        ("Camel", "xmlHttpRequest"),
        ("Pascal", "XmlHttpRequest"),
        ("UpperCamel", "XmlHttpRequest"),
        ("Snake", "xml_http_request"),
        ("UpperSnake", "XML_HTTP_REQUEST"),
        ("ScreamingSnake", "XML_HTTP_REQUEST"),
        ("Kebab", "xml-http-request"),
        ("Cobol", "XML-HTTP-REQUEST"),
        ("UpperKebab", "XML-HTTP-REQUEST"),
        ("Train", "Xml-Http-Request"),
        ("Flat", "xmlhttprequest"),
        ("UpperFlat", "XMLHTTPREQUEST"),
        ("Alternating", "xMl HtTp ReQuEsT"),
    ];
    for (name, text) in expected {
        let read = EnumAttrs { case_transform: Some(EnumAttrs::parse_case_name(name).unwrap()) };
        assert_eq!(read.transform_case("XmlHttpRequest".to_string()), text, "{name}");
    }
}

#[test]
fn without_a_selector_the_name_stays() {
    let read = EnumAttrs::from_attrs(&[]).unwrap();
    assert_eq!(read.case_transform, None);
    assert_eq!(read.transform_case("XmlHttpRequest".to_string()), "XmlHttpRequest");
}

#[test]
fn kebab_case_of_a_variant() {
    let made = enum_display::derive::derive(&input(
        vec![attr("enum_display", vec![pair("case", "Kebab")])],
        Data::Enum(vec![Variant {
            ident: "XmlHttpRequest".to_string(),
            attrs: vec![],
            fields: Fields::Unit,
        }]),
    ))
    .unwrap();
    assert_eq!(made.render("XmlHttpRequest", &[]).unwrap(), "xml-http-request");
}

#[test]
fn the_last_selector_wins() {
    let attrs = vec![
        attr("enum_display", vec![pair("case", "Snake"), pair("case", "Upper")]),
        attr("doc", vec![pair("case", "Lower")]),
        attr("enum_display", vec![pair("other", "Lower"), pair("case", "Kebab")]),
        Attribute { path: "enum_display".to_string(), meta: Meta::Path },
    ];
    assert_eq!(EnumAttrs::from_attrs(&attrs).unwrap().case_transform, Some(CaseKind::Kebab));
}

#[test]
fn the_first_unknown_selector_is_reported() {
    let attrs = vec![
        attr("enum_display", vec![pair("case", "Snake"), pair("case", "First")]),
        attr("enum_display", vec![pair("case", "Second"), pair("case", "Kebab")]),
    ];
    match EnumAttrs::from_attrs(&attrs) {
        Err(DeriveError::UnrecognizedCase(name)) => assert_eq!(name, "First"),
        other => panic!("{other:?}"),
    }
}

#[test]
fn selectors_of_other_shapes_are_passed_over() {
    let attrs = vec![
        attr("enum_display", vec![bare("Snake"), NestedMeta::Other]),
        attr(
            "enum_display",
            vec![NestedMeta::NameValue { name: "case".to_string(), lit: Lit::Other }],
        ),
        Attribute {
            path: "enum_display".to_string(),
            meta: Meta::NameValue(Lit::Str("Snake".to_string())),
        },
    ];
    assert_eq!(EnumAttrs::from_attrs(&attrs).unwrap().case_transform, None);
}

#[test]
fn an_unknown_selector_comes_before_a_declaration_that_is_no_enum() {
    let bad = vec![attr("enum_display", vec![pair("case", "Nope")])];
    match enum_display::derive::derive(&input(bad, Data::Struct)) {
        Err(DeriveError::UnrecognizedCase(name)) => assert_eq!(name, "Nope"),
        other => panic!("{other:?}"),
    }
}

#[test]
fn only_enums_derive() {
    for data in [Data::Struct, Data::Union] {
        match enum_display::derive::derive(&input(vec![], data)) {
            Err(e) => {
                assert!(matches!(e, DeriveError::NotAnEnum));
                assert_eq!(e.message(), "EnumDisplay can only be derived for enums");
            }
            Ok(made) => panic!("{made:?}"),
        }
    }
}

#[test]
fn an_enum_without_variants_derives() {
    let made = enum_display::derive::derive(&input(vec![], Data::Enum(vec![]))).unwrap();
    assert!(!made.owned);
    assert!(made.arms.is_empty());
    assert!(made.to_source().contains("match self {\n        })"));
}

#[test]
fn both_forms_of_a_format_are_read() {
    let bare_form = VariantAttrs::from_attrs(&[attr("display", vec![bare("a {0}")])]).unwrap();
    assert_eq!(bare_form.format.as_deref(), Some("a {_unnamed_0}"));
    let keyed = VariantAttrs::from_attrs(&[attr("display", vec![pair("format", "b {1}")])]);
    assert_eq!(keyed.unwrap().format.as_deref(), Some("b {_unnamed_1}"));
}

#[test]
fn only_the_first_entry_of_a_format_list_counts() {
    let attrs = [attr("display", vec![NestedMeta::Other, bare("late")])];
    assert_eq!(VariantAttrs::from_attrs(&attrs).unwrap().format, None);
    let attrs = [attr("display", vec![bare("early"), bare("late")])];
    assert_eq!(VariantAttrs::from_attrs(&attrs).unwrap().format.as_deref(), Some("early"));
}

#[test]
fn payloads_of_other_shapes_give_no_format() {
    let attrs = [
        attr("display", vec![]),
        attr("display", vec![NestedMeta::Lit(Lit::Other)]),
        attr("display", vec![pair("fmt", "text")]),
        attr(
            "display",
            vec![NestedMeta::NameValue { name: "format".to_string(), lit: Lit::Other }],
        ),
        attr("show", vec![bare("text")]),
        Attribute { path: "display".to_string(), meta: Meta::Path },
        Attribute {
            path: "display".to_string(),
            meta: Meta::NameValue(Lit::Str("text".to_string())),
        },
    ];
    assert_eq!(VariantAttrs::from_attrs(&attrs).unwrap().format, None);
}

#[test]
fn the_last_format_of_a_variant_wins() {
    let attrs = [
        attr("display", vec![bare("first")]),
        attr("display", vec![NestedMeta::Other]),
        attr("display", vec![pair("format", "second")]),
        attr("display", vec![]),
    ];
    assert_eq!(VariantAttrs::from_attrs(&attrs).unwrap().format.as_deref(), Some("second"));
}

#[test]
fn numeric_placeholders_are_renamed() {
    let renamed = |fmt: &str| VariantAttrs::translate_numeric_placeholders(fmt).unwrap();
    assert_eq!(renamed("Tuple: ({0}, {1})"), "Tuple: ({_unnamed_0}, {_unnamed_1})");
    assert_eq!(renamed("{2:?}"), "{_unnamed_2:?}");
    assert_eq!(renamed("{10}{7:>5}"), "{_unnamed_10}{_unnamed_7:>5}");
    assert_eq!(renamed("{ 12 :x}"), "{_unnamed_12:x}");
    assert_eq!(renamed(""), "");
}

#[test]
fn other_placeholders_are_left_alone() {
    let renamed = |fmt: &str| VariantAttrs::translate_numeric_placeholders(fmt).unwrap();
    assert_eq!(renamed("Unit: {variant}"), "Unit: {variant}");
    assert_eq!(
        renamed("Named: {variant} {{{street}, {zip}}}"),
        "Named: {variant} {{{street}, {zip}}}"
    );
    assert_eq!(renamed("{} {a1} {_0} 0 {"), "{} {a1} {_0} 0 {");
}

#[test]
fn a_pattern_that_does_not_compile_is_an_error() {
    let refused = regex::Regex::new("(");
    assert!(refused.is_err());
    match translated_with(refused, "{0}") {
        Err(e) => {
            assert!(matches!(e, DeriveError::InvalidPattern));
            assert_eq!(e.message(), "the placeholder pattern did not compile");
        }
        Ok(text) => panic!("{text}"),
    }
}

#[test]
fn the_placeholder_pattern_compiles() {
    let compiled = regex::Regex::new(PLACEHOLDER_PATTERN);
    assert!(compiled.is_ok());
    assert_eq!(translated_with(compiled, "{0}{x}").unwrap(), "{_unnamed_0}{x}");
}

#[test]
fn matches_of_the_compiled_pattern_are_replaced() {
    let digits = regex::Regex::new(r"(\d)(\d)");
    assert_eq!(translated_with(digits, "a12b").unwrap(), "a{_unnamed_12}b");
}
