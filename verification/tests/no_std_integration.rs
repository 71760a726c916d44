use core::fmt::Write;
use enum_display::derive::{Data, DeriveInput, DisplayImpl, Generics};
use enum_display::meta::{Attribute, Lit, Meta, NestedMeta};
use enum_display::variant::{Fields, Variant};

fn format_attr(format: &str) -> Vec<Attribute> {
    vec![Attribute {
        path: "display".to_string(),
        meta: Meta::List(vec![NestedMeta::Lit(Lit::Str(format.to_string()))]),
    }]
}

fn case_attr(name: &str) -> Vec<Attribute> {
    vec![Attribute {
        path: "enum_display".to_string(),
        meta: Meta::List(vec![NestedMeta::NameValue {
            name: "case".to_string(),
            lit: Lit::Str(name.to_string()),
        }]),
    }]
}

fn variant(ident: &str, attrs: Vec<Attribute>, fields: Fields) -> Variant {
    Variant { ident: ident.to_string(), attrs, fields }
}

fn fields(names: &[&str]) -> Fields {
    Fields::Named(names.iter().map(|f| Some(f.to_string())).collect())
}

fn derived(
    ident: &str,
    attrs: Vec<Attribute>,
    ty_params: &str,
    variants: Vec<Variant>,
) -> DisplayImpl {
    enum_display::derive::derive(&DeriveInput {
        ident: ident.to_string(),
        attrs,
        generics: Generics {
            impl_generics: ty_params.to_string(),
            ty_generics: String::new(),
            where_clause: String::new(),
        },
        data: Data::Enum(variants),
    })
    .unwrap()
}

fn simple_enum() -> DisplayImpl {
    derived(
        "SimpleEnum",
        vec![],
        "",
        vec![
            variant("Red", vec![], Fields::Unit),
            variant("Green", vec![], Fields::Unit),
            variant("Blue", vec![], Fields::Unit),
        ],
    )
}

fn formatted_enum() -> DisplayImpl {
    derived(
        "FormattedEnum",
        vec![],
        "",
        vec![
            variant("Format", format_attr("Custom: {variant}"), Fields::Unit),
            variant("Data", format_attr("Value is {value}"), fields(&["value"])),
            variant("Tuple", format_attr("Tuple: ({0}, {1})"), Fields::Unnamed(2)),
        ],
    )
}

fn case_transform_enum() -> DisplayImpl {
    derived(
        "CaseTransformEnum",
        case_attr("Snake"),
        "",
        vec![
            variant("CamelCase", vec![], Fields::Unit),
            variant("AnotherExample", vec![], Fields::Unit),
            variant("XmlHttpRequest", vec![], Fields::Unit),
        ],
    )
}

fn complex_enum() -> DisplayImpl {
    derived(
        "ComplexEnum",
        vec![],
        "",
        vec![
            variant("Unit", vec![], Fields::Unit),
            variant("Named", vec![], fields(&["_field1", "_field2"])),
            variant(
                "NamedFormat",
                format_attr("Complex: {variant} with {field1}"),
                fields(&["field1", "field2"]),
            ),
            variant(
                "Tuple",
                vec![Attribute {
                    path: "allow".to_string(),
                    meta: Meta::List(vec![NestedMeta::Other]),
                }],
                Fields::Unnamed(2),
            ),
            variant("TupleFormat", format_attr("Tuple: ({0})"), Fields::Unnamed(1)),
        ],
    )
}

fn generic_enum() -> DisplayImpl {
    derived(
        "GenericEnum",
        vec![],
        "<T: core::fmt::Display>",
        vec![
            variant("Value", vec![], Fields::Unnamed(1)),
            variant("FormattedValue", format_attr("Generic: {0}"), Fields::Unnamed(1)),
        ],
    )
}

/// A value of a derived enum: its variant and the rendering of each field.
struct Value<'a> {
    of: &'a DisplayImpl,
    variant: &'a str,
    fields: Vec<String>,
}

impl core::fmt::Display for Value<'_> {
    fn fmt(&self, f: &mut core::fmt::Formatter) -> core::fmt::Result {
        f.write_str(self.of.render(self.variant, &self.fields).unwrap().as_str())
    }
}

fn value<'a>(of: &'a DisplayImpl, variant: &'a str, fields: &[&dyn ToString]) -> Value<'a> {
    Value { of, variant, fields: fields.iter().map(|f| f.to_string()).collect() }
}

#[test]
fn test_simple_enum() {
    let e = simple_enum();
    assert_eq!(value(&e, "Red", &[]).to_string(), "Red");
    assert_eq!(value(&e, "Green", &[]).to_string(), "Green");
    assert_eq!(value(&e, "Blue", &[]).to_string(), "Blue");
}

#[test]
fn test_formatted_enum() {
    let e = formatted_enum();
    assert_eq!(value(&e, "Format", &[]).to_string(), "Custom: Format");
    assert_eq!(value(&e, "Data", &[&42u32]).to_string(), "Value is 42");
    assert_eq!(value(&e, "Tuple", &[&10i32, &20i32]).to_string(), "Tuple: (10, 20)");
}

#[test]
fn test_case_transform() {
    let e = case_transform_enum();
    assert_eq!(value(&e, "CamelCase", &[]).to_string(), "camel_case");
    assert_eq!(value(&e, "AnotherExample", &[]).to_string(), "another_example");
    assert_eq!(value(&e, "XmlHttpRequest", &[]).to_string(), "xml_http_request");
}

#[test]
fn test_complex_enum() {
    let e = complex_enum();
    assert_eq!(value(&e, "Unit", &[]).to_string(), "Unit");

    assert_eq!(value(&e, "Named", &[&123u32, &"test"]).to_string(), "Named");

    assert_eq!(
        value(&e, "NamedFormat", &[&456u32, &"ignored"]).to_string(),
        "Complex: NamedFormat with 456"
    );

    assert_eq!(value(&e, "Tuple", &[&789u32, &"value"]).to_string(), "Tuple");

    assert_eq!(value(&e, "TupleFormat", &[&999u32]).to_string(), "Tuple: (999)");
}

#[test]
fn test_core_fmt_usage() {
    let mut buffer = String::new();

    // Test simple enum
    buffer.write_str(format!("{}", value(&simple_enum(), "Red", &[])).as_str()).unwrap();
    assert_eq!(buffer, "Red");

    buffer.clear();

    // Test formatted enum
    buffer.write_str(format!("{}", value(&formatted_enum(), "Format", &[])).as_str()).unwrap();
    assert_eq!(buffer, "Custom: Format");

    buffer.clear();

    // Test case transform
    buffer.write_str(format!("{}", value(&case_transform_enum(), "CamelCase", &[])).as_str()).unwrap();
    assert_eq!(buffer, "camel_case");
}

// Test that Display trait is properly implemented
#[test]
fn test_display_trait() {
    fn accepts_display<T: core::fmt::Display>(item: T) -> String {
        format!("{item}")
    }

    assert_eq!(accepts_display(value(&simple_enum(), "Red", &[])), "Red");
    assert_eq!(accepts_display(value(&formatted_enum(), "Format", &[])), "Custom: Format");
    assert_eq!(accepts_display(value(&case_transform_enum(), "CamelCase", &[])), "camel_case");
}

#[test]
fn test_generic_enum() {
    let e = generic_enum();
    assert_eq!(value(&e, "Value", &[&42u32]).to_string(), "Value");
    assert_eq!(value(&e, "FormattedValue", &[&42u32]).to_string(), "Generic: 42");
}
