//! What holds of every derived implementation.

use crate::arm::{arm_rendered, escaped, escaped_char, ArmModel};
use crate::attrs::{first_unrecognized, raw_format, selected_case, selectors};
use crate::case::{case_converted, display_text, CaseKind};
use crate::derive::{
    any_format, arm_idents, derived, derived_arms, impl_rendered, Data, DeriveInput,
};
use crate::format::{
    lemma_name_len_bounds, lemma_position_bounds, name_len, position, prefixed, rendered,
    rendered_from, resolved, RenderFault, Scope, VARIANT_NAME,
};
use crate::meta::Attribute;
use crate::placeholder::UNNAMED_PREFIX;
use crate::text::{decimal_digits, lemma_decimal_digits_injective};
use crate::variant::{
    arm_of, shape_of, stored_format, synthetic_name, synthetic_names, variant_model, ShapeModel,
    Variant,
};
use vstd::prelude::*;

verus! {

/// Whether a text holds no brace.
pub open spec fn brace_free(text: Seq<char>) -> bool {
    forall|i: int| 0 <= i < text.len() ==> text[i] != '{' && text[i] != '}'
}

/// Whether a text can stand as the name in a placeholder `{name}`.
pub open spec fn plain_name(name: Seq<char>) -> bool {
    forall|i: int| 0 <= i < name.len() ==> name[i] != '{' && name[i] != '}' && name[i] != ':'
}

/// A scope in which only `variant` is bound.
pub open spec fn variant_scope(variant: Seq<char>) -> Scope {
    Scope { variant, names: Seq::empty(), values: Seq::empty() }
}

/// Whether no two variants share a name.
pub open spec fn distinct_idents(arms: Seq<ArmModel>) -> bool {
    forall|i: int, j: int|
        0 <= i < j < arms.len() ==> (#[trigger] arms[i]).ident != (#[trigger] arms[j]).ident
}

/// A run of characters other than braces is copied.
proof fn lemma_literal_run(fmt: Seq<char>, pos: int, count: nat, scope: Scope)
    requires
        0 <= pos,
        pos + count <= fmt.len(),
        forall|i: int| pos <= i < pos + count ==> fmt[i] != '{' && fmt[i] != '}',
    ensures
        rendered_from(fmt, pos, scope) == prefixed(
            fmt.subrange(pos, pos + count),
            rendered_from(fmt, pos + count, scope),
        ),
    decreases count,
{
    let rest = rendered_from(fmt, pos + count, scope);
    if count == 0 {
        assert(fmt.subrange(pos, pos) =~= Seq::<char>::empty());
        if let Ok(text) = rest {
            assert(Seq::<char>::empty() + text =~= text);
        }
    } else {
        lemma_literal_run(fmt, pos + 1, (count - 1) as nat, scope);
        assert(seq![fmt[pos]] + fmt.subrange(pos + 1, pos + count) =~= fmt.subrange(
            pos,
            pos + count,
        ));
        if let Ok(text) = rest {
            assert(seq![fmt[pos]] + (fmt.subrange(pos + 1, pos + count) + text) =~= (seq![
                fmt[pos],
            ] + fmt.subrange(pos + 1, pos + count)) + text);
        }
    }
}

/// A name of plain characters ends at the closing brace behind it.
proof fn lemma_name_len_exact(fmt: Seq<char>, at: int, len: nat)
    requires
        0 <= at,
        at + len < fmt.len(),
        forall|i: int| at <= i < at + len ==> fmt[i] != '{' && fmt[i] != '}' && fmt[i] != ':',
        fmt[at + len] == '}',
    ensures
        name_len(fmt, at) == Ok::<nat, RenderFault>(len),
    decreases len,
{
    if len > 0 {
        lemma_name_len_exact(fmt, at + 1, (len - 1) as nat);
    }
}

/// A placeholder is replaced by what its name stands for, and the text
/// around it stays as it is.
pub proof fn law_placeholder_is_replaced(
    before: Seq<char>,
    name: Seq<char>,
    after: Seq<char>,
    scope: Scope,
)
    requires
        brace_free(before),
        brace_free(after),
        plain_name(name),
        resolved(scope, name) is Some,
    ensures
        rendered(before + seq!['{'] + name + seq!['}'] + after, scope) == Ok::<
            Seq<char>,
            RenderFault,
        >(before + resolved(scope, name).unwrap() + after),
{
    let fmt = before + seq!['{'] + name + seq!['}'] + after;
    let open = before.len() as int;
    let close = open + 1 + name.len();
    let value = resolved(scope, name).unwrap();
    assert forall|i: int| 0 <= i < open implies fmt[i] != '{' && fmt[i] != '}' by {
        assert(fmt[i] == before[i]);
    }
    lemma_literal_run(fmt, 0, before.len(), scope);
    assert(fmt.subrange(0, open) =~= before);
    assert(fmt[open] == '{');
    assert forall|i: int| open + 1 <= i < close implies fmt[i] != '{' && fmt[i] != '}' && fmt[i]
        != ':' by {
        assert(fmt[i] == name[i - open - 1]);
    }
    assert(fmt[close] == '}');
    lemma_name_len_exact(fmt, open + 1, name.len());
    assert(fmt.subrange(open + 1, close) =~= name);
    assert(fmt[open + 1] != '{') by {
        if name.len() > 0 {
            assert(fmt[open + 1] == name[0]);
        }
    }
    assert forall|i: int| close + 1 <= i < close + 1 + after.len() implies fmt[i] != '{'
        && fmt[i] != '}' by {
        assert(fmt[i] == after[i - close - 1]);
    }
    lemma_literal_run(fmt, close + 1, after.len(), scope);
    assert(fmt.subrange(close + 1, close + 1 + after.len()) =~= after);
    assert(rendered_from(fmt, close + 1 + after.len(), scope) == Ok::<Seq<char>, RenderFault>(
        Seq::empty(),
    ));
    assert(after + Seq::<char>::empty() =~= after);
    assert(rendered_from(fmt, close + 1, scope) == Ok::<Seq<char>, RenderFault>(after));
    assert(rendered_from(fmt, open, scope) == Ok::<Seq<char>, RenderFault>(value + after));
    assert(before + (value + after) =~= before + value + after);
}

/// A format with `{variant}` as its only placeholder yields the text
/// around the placeholder with the display text of the variant in its
/// place, whatever the fields of the variant are and hold.
pub proof fn law_variant_placeholder(before: Seq<char>, after: Seq<char>, scope: Scope)
    requires
        brace_free(before),
        brace_free(after),
    ensures
        rendered(before + seq!['{'] + VARIANT_NAME@ + seq!['}'] + after, scope) == Ok::<
            Seq<char>,
            RenderFault,
        >(before + scope.variant + after),
{
    reveal_strlit("variant");
    law_placeholder_is_replaced(before, VARIANT_NAME@, after, scope);
}

/// From any position on, a format that can be evaluated with `variant`
/// alone yields the same with fields in scope.
proof fn lemma_fields_are_not_consulted(fmt: Seq<char>, pos: int, scope: Scope)
    requires
        0 <= pos,
        rendered_from(fmt, pos, variant_scope(scope.variant)) is Ok,
    ensures
        rendered_from(fmt, pos, scope) == rendered_from(fmt, pos, variant_scope(scope.variant)),
    decreases fmt.len() - pos,
{
    let alone = variant_scope(scope.variant);
    if pos < fmt.len() {
        if fmt[pos] == '{' {
            if pos + 1 < fmt.len() && fmt[pos + 1] == '{' {
                lemma_fields_are_not_consulted(fmt, pos + 2, scope);
            } else {
                lemma_name_len_bounds(fmt, pos + 1);
                let n = name_len(fmt, pos + 1)->Ok_0;
                let name = fmt.subrange(pos + 1, pos + 1 + n);
                assert(resolved(alone, name) is Some);
                assert(name == VARIANT_NAME@);
                lemma_fields_are_not_consulted(fmt, pos + 2 + n, scope);
            }
        } else if fmt[pos] == '}' {
            lemma_fields_are_not_consulted(fmt, pos + 2, scope);
        } else {
            lemma_fields_are_not_consulted(fmt, pos + 1, scope);
        }
    }
}

/// A format that refers to nothing but `variant`, which is to say one that
/// can be evaluated with `variant` alone in scope, yields the same text
/// whatever the fields of the variant are and hold.
pub proof fn law_variant_only_format(fmt: Seq<char>, scope: Scope)
    requires
        rendered(fmt, variant_scope(scope.variant)) is Ok,
    ensures
        rendered(fmt, scope) == rendered(fmt, variant_scope(scope.variant)),
{
    lemma_fields_are_not_consulted(fmt, 0, scope);
}

/// A written number can stand in a placeholder.
proof fn lemma_decimal_digits_plain(n: nat)
    ensures
        plain_name(decimal_digits(n)),
    decreases n,
{
    if n >= 10 {
        lemma_decimal_digits_plain(n / 10);
    }
}

/// The names of positional fields differ from one another and from
/// `variant`, and can stand in a placeholder.
pub proof fn lemma_synthetic_names(a: nat, b: nat)
    ensures
        plain_name(synthetic_name(a)),
        synthetic_name(a) != VARIANT_NAME@,
        synthetic_name(a) == synthetic_name(b) ==> a == b,
{
    reveal_strlit("_unnamed_");
    reveal_strlit("variant");
    lemma_decimal_digits_plain(a);
    let prefix = UNNAMED_PREFIX@;
    assert(synthetic_name(a)[0] == '_');
    assert(VARIANT_NAME@[0] == 'v');
    assert forall|i: int| 0 <= i < synthetic_name(a).len() implies synthetic_name(a)[i] != '{'
        && synthetic_name(a)[i] != '}' && synthetic_name(a)[i] != ':' by {
        if i >= prefix.len() {
            assert(synthetic_name(a)[i] == decimal_digits(a)[i - prefix.len()]);
        }
    }
    if synthetic_name(a) == synthetic_name(b) {
        assert(synthetic_name(a).skip(prefix.len() as int) =~= decimal_digits(a));
        assert(synthetic_name(b).skip(prefix.len() as int) =~= decimal_digits(b));
        lemma_decimal_digits_injective(a, b);
    }
}

/// In a variant with `count` positional fields, the name of field `index`
/// stands for the value of that field: positions count from zero, in the
/// order of the declaration.
pub proof fn law_positional_field(
    count: nat,
    index: nat,
    variant: Seq<char>,
    values: Seq<Seq<char>>,
)
    requires
        index < count,
        values.len() == count,
    ensures
        resolved(
            Scope { variant, names: synthetic_names(count), values },
            synthetic_name(index),
        ) == Some(values[index as int]),
{
    let names = synthetic_names(count);
    let name = synthetic_name(index);
    lemma_synthetic_names(index, index);
    lemma_position_bounds(names, name);
    assert(names[index as int] == name);
    let found = position(names, name).unwrap();
    lemma_synthetic_names(found as nat, index);
}

/// A format that refers to positional field `index` yields the text around
/// the placeholder with the value of that field in its place.
pub proof fn law_positional_placeholder(
    before: Seq<char>,
    after: Seq<char>,
    count: nat,
    index: nat,
    variant: Seq<char>,
    values: Seq<Seq<char>>,
)
    requires
        brace_free(before),
        brace_free(after),
        index < count,
        values.len() == count,
    ensures
        rendered(
            before + seq!['{'] + synthetic_name(index) + seq!['}'] + after,
            Scope { variant, names: synthetic_names(count), values },
        ) == Ok::<Seq<char>, RenderFault>(before + values[index as int] + after),
{
    let scope = Scope { variant, names: synthetic_names(count), values };
    law_positional_field(count, index, variant, values);
    lemma_synthetic_names(index, index);
    law_placeholder_is_replaced(before, synthetic_name(index), after, scope);
}

/// A variant without a format of its own shows its display text, whatever
/// its fields hold, and whether or not another variant of the enum has a
/// format: that only decides whether the text is borrowed or owned.
pub proof fn law_unformatted_variant(
    variant: Variant,
    case: Option<CaseKind>,
    any_has_format: bool,
    values: Seq<Seq<char>>,
)
    requires
        raw_format(variant.attrs@) is None,
    ensures
        arm_rendered(arm_of(variant_model(variant, case), any_has_format), values) == Ok::<
            Seq<char>,
            RenderFault,
        >(display_text(variant.ident@, case)),
{
}

/// A variant with a format of its own shows what the format yields, with
/// `variant` bound to its display text and its fields bound to their names.
pub proof fn law_formatted_variant(
    variant: Variant,
    case: Option<CaseKind>,
    values: Seq<Seq<char>>,
)
    requires
        raw_format(variant.attrs@) is Some,
    ensures
        arm_rendered(arm_of(variant_model(variant, case), true), values) == match shape_of(
            variant.fields,
        ) {
            ShapeModel::Named(names) | ShapeModel::Unnamed(names) => if names.len()
                == values.len() {
                rendered(
                    stored_format(variant.attrs@)->Some_0,
                    Scope { variant: display_text(variant.ident@, case), names, values },
                )
            } else {
                Err(RenderFault::FieldCount)
            },
            ShapeModel::Unit => if values.len() == 0 {
                rendered(
                    stored_format(variant.attrs@)->Some_0,
                    variant_scope(display_text(variant.ident@, case)),
                )
            } else {
                Err(RenderFault::FieldCount)
            },
        },
{
    if values.len() == 0 {
        assert(values =~= Seq::<Seq<char>>::empty());
    }
}

/// Where no two variants share a name, rendering by name is rendering by
/// the arm of that variant.
pub proof fn law_render_by_name(arms: Seq<ArmModel>, index: int)
    requires
        distinct_idents(arms),
        0 <= index < arms.len(),
    ensures
        position(arm_idents(arms), arms[index].ident) == Some(index),
{
    let idents = arm_idents(arms);
    lemma_position_bounds(idents, arms[index].ident);
    assert(idents[index] == arms[index].ident);
    let found = position(idents, arms[index].ident).unwrap();
    assert(idents[found] == arms[found].ident);
}

/// Without attributes there is neither a selector nor a format.
proof fn lemma_no_attributes(attrs: Seq<Attribute>)
    requires
        attrs.len() == 0,
    ensures
        selectors(attrs).len() == 0,
        first_unrecognized(selectors(attrs)) is None,
        selected_case(selectors(attrs)) is None,
        raw_format(attrs) is None,
{
}

/// An enum without any annotation derives, and each of its variants shows
/// exactly its name.
pub proof fn law_plain_enum(input: DeriveInput, index: int, values: Seq<Seq<char>>)
    requires
        input.attrs@.len() == 0,
        input.data matches Data::Enum(variants) && 0 <= index < variants@.len() && forall|i: int|
            0 <= i < variants@.len() ==> (#[trigger] variants@[i]).attrs@.len() == 0,
    ensures
        derived(input) matches Ok(made) && !made.owned && impl_rendered(
            made,
            input.data->Enum_0@[index].ident@,
            values,
        ) == Ok::<Seq<char>, RenderFault>(input.data->Enum_0@[index].ident@),
{
    let variants = input.data->Enum_0@;
    lemma_no_attributes(input.attrs@);
    assert forall|i: int| 0 <= i < variants.len() implies raw_format(
        #[trigger] variants[i].attrs@,
    ) is None by {
        lemma_no_attributes(variants[i].attrs@);
    }
    law_enum_without_formats(input, index, values);
}

/// In an enum whose variants have no format, each variant shows its name
/// in the case style that the enum selects, or as it is where none is
/// selected.
pub proof fn law_enum_without_formats(input: DeriveInput, index: int, values: Seq<Seq<char>>)
    requires
        first_unrecognized(selectors(input.attrs@)) is None,
        input.data matches Data::Enum(variants) && 0 <= index < variants@.len() && forall|i: int|
            0 <= i < variants@.len() ==> raw_format((#[trigger] variants@[i]).attrs@) is None,
    ensures
        derived(input) matches Ok(made) && !made.owned && impl_rendered(
            made,
            input.data->Enum_0@[index].ident@,
            values,
        ) == Ok::<Seq<char>, RenderFault>(
            display_text(
                input.data->Enum_0@[index].ident@,
                selected_case(selectors(input.attrs@)),
            ),
        ),
{
    let variants = input.data->Enum_0@;
    let case = selected_case(selectors(input.attrs@));
    let name = variants[index].ident@;
    assert(!any_format(variants));
    let made = derived(input)->Ok_0;
    assert(made.arms == derived_arms(variants, case, false));
    let idents = arm_idents(made.arms);
    lemma_position_bounds(idents, name);
    assert(idents[index] == name);
    let found = position(idents, name).unwrap();
    assert(idents[found] == variants[found].ident@);
}

/// In an enum that selects a case style and whose variants have no format,
/// each variant shows its name converted to that style.
pub proof fn law_case_selector(
    input: DeriveInput,
    kind: CaseKind,
    index: int,
    values: Seq<Seq<char>>,
)
    requires
        first_unrecognized(selectors(input.attrs@)) is None,
        selected_case(selectors(input.attrs@)) == Some(kind),
        input.data matches Data::Enum(variants) && 0 <= index < variants@.len() && forall|i: int|
            0 <= i < variants@.len() ==> raw_format((#[trigger] variants@[i]).attrs@) is None,
    ensures
        derived(input) matches Ok(made) && impl_rendered(
            made,
            input.data->Enum_0@[index].ident@,
            values,
        ) == Ok::<Seq<char>, RenderFault>(
            case_converted(input.data->Enum_0@[index].ident@, kind),
        ),
{
    law_enum_without_formats(input, index, values);
}

/// In every derived implementation, the arm of a variant without a format
/// yields the display text of that variant, also where other variants have
/// formats.
pub proof fn law_mixed_enum(input: DeriveInput, index: int, values: Seq<Seq<char>>)
    requires
        derived(input) is Ok,
        input.data matches Data::Enum(variants) && 0 <= index < variants@.len() && raw_format(
            variants@[index].attrs@,
        ) is None,
    ensures
        derived(input) matches Ok(made) && arm_rendered(made.arms[index], values) == Ok::<
            Seq<char>,
            RenderFault,
        >(
            display_text(
                input.data->Enum_0@[index].ident@,
                selected_case(selectors(input.attrs@)),
            ),
        ),
{
}

/// The text that the inside of a string literal denotes: a backslash
/// and the character behind it stand for one character, every other
/// character but the quote for itself.
pub open spec fn denoted(inside: Seq<char>) -> Option<Seq<char>>
    decreases inside.len(),
{
    if inside.len() == 0 {
        Some(Seq::empty())
    } else if inside[0] == '\\' {
        if inside.len() < 2 {
            None
        } else {
            let first = if inside[1] == '"' {
                Some('"')
            } else if inside[1] == '\\' {
                Some('\\')
            } else if inside[1] == 'n' {
                Some('\n')
            } else if inside[1] == 'r' {
                Some('\r')
            } else if inside[1] == 't' {
                Some('\t')
            } else {
                None
            };
            match (first, denoted(inside.skip(2))) {
                (Some(c), Some(rest)) => Some(seq![c] + rest),
                _ => None,
            }
        }
    } else if inside[0] == '"' {
        None
    } else {
        match denoted(inside.skip(1)) {
            Some(rest) => Some(seq![inside[0]] + rest),
            None => None,
        }
    }
}

/// Escaping goes character by character.
proof fn lemma_escaped_concat(a: Seq<char>, b: Seq<char>)
    ensures
        escaped(a + b) == escaped(a) + escaped(b),
    decreases b.len(),
{
    if b.len() == 0 {
        assert(a + b =~= a);
        assert(escaped(a) + escaped(b) =~= escaped(a));
    } else {
        assert((a + b).drop_last() =~= a + b.drop_last());
        lemma_escaped_concat(a, b.drop_last());
        assert(escaped(a + b) =~= escaped(a) + escaped(b));
    }
}

/// A string literal reads back as the text it was written for.
pub proof fn law_literal_denotes_its_text(text: Seq<char>)
    ensures
        denoted(escaped(text)) == Some(text),
    decreases text.len(),
{
    if text.len() > 0 {
        let c = text[0];
        let rest = text.skip(1);
        assert(text =~= seq![c] + rest);
        lemma_escaped_concat(seq![c], rest);
        assert(seq![c].drop_last() =~= Seq::<char>::empty());
        assert(escaped(Seq::<char>::empty()) =~= Seq::<char>::empty());
        assert(Seq::<char>::empty() + escaped_char(c) =~= escaped_char(c));
        assert(escaped(seq![c]) =~= escaped_char(c));
        law_literal_denotes_its_text(rest);
        let inside = escaped_char(c) + escaped(rest);
        if c == '"' || c == '\\' || c == '\n' || c == '\r' || c == '\t' {
            assert(inside.skip(2) =~= escaped(rest));
        } else {
            assert(inside.skip(1) =~= escaped(rest));
        }
    }
}

} // verus!
