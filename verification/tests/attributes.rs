use below_attr::{
    names_directive, namespace_of, parse_attribute, read_body, Annotation, Argument, AttrError,
    BelowAttr, Body, Literal, LiteralKind,
};

fn field(source: &str) -> syn::Field {
    let item: syn::ItemStruct = syn::parse_str(&format!("struct S {{ {} }}", source)).unwrap();
    item.fields.into_iter().next().unwrap()
}

fn read(attribute: &syn::Attribute) -> Annotation {
    let namespace = namespace_of(&attribute.path);
    let body = if names_directive(&namespace) {
        read_body(attribute.parse_meta().ok().as_ref())
    } else {
        Body::Bare
    };
    Annotation { namespace, body }
}

fn compile(source: &str) -> Result<BelowAttr, AttrError> {
    let field = field(source);
    let annotations: Vec<Annotation> = field.attrs.iter().map(read).collect();
    parse_attribute(&annotations, &field.ident.as_ref().unwrap().to_string())
}

fn body(source: &str) -> Body {
    let meta: syn::Meta = syn::parse_str(source).unwrap();
    read_body(Some(&meta))
}

fn pair(key: &str, value: Literal) -> Argument {
    Argument::Pair { key: key.to_string(), value }
}

fn structure(name: &str) -> AttrError {
    AttrError::MetaStructureError { field: name.to_string() }
}

fn arity(name: &str) -> AttrError {
    AttrError::UnsupportedNamespaceArity { field: name.to_string() }
}

#[test]
fn a_field_without_attributes_has_neither_record() {
    let attr = compile("usage: u64").unwrap();
    assert!(attr.view.is_none());
    assert!(attr.field.is_none());
}

#[test]
fn a_unit_attribute_gives_the_rendering_record_only() {
    let attr = compile("#[bttr(unit = \"ms\")] usage: u64").unwrap();
    assert!(attr.field.is_none());
    let view = attr.view.unwrap();
    assert_eq!(view.unit, Some("ms".to_string()));
    assert_eq!(view.none_mark, "?");
    assert!(view.depth.is_none() && view.prefix.is_none());
    assert!(view.width.is_none() && view.title_width.is_none() && view.precision.is_none());
    assert!(view.decorator.is_none() && view.highlight_if.is_none());
}

#[test]
fn a_sort_tag_attribute_switches_comparison_on() {
    let attr = compile("#[bttr(sort_tag = \"x\")] usage: u64").unwrap();
    assert!(attr.view.is_none());
    let field = attr.field.unwrap();
    assert!(field.cmp);
    assert_eq!(field.sort_tag, Some("x".to_string()));
}

#[test]
fn two_blink_attributes_keep_their_order() {
    let attr = compile("#[blink(\"first\")] #[blink(\"second\")] usage: u64").unwrap();
    assert!(attr.view.is_none());
    assert_eq!(attr.field.unwrap().link, vec!["first".to_string(), "second".to_string()]);
}

#[test]
fn a_blink_attribute_with_two_targets_is_fatal() {
    assert_eq!(compile("#[blink(\"a\", \"b\")] usage: u64").unwrap_err(), arity("usage"));
}

#[test]
fn a_blink_attribute_with_a_number_is_fatal() {
    assert_eq!(compile("#[blink(7)] usage: u64").unwrap_err(), arity("usage"));
}

#[test]
fn a_blink_attribute_with_a_word_is_fatal() {
    assert_eq!(compile("#[blink(target)] usage: u64").unwrap_err(), arity("usage"));
}

#[test]
fn an_empty_blink_attribute_is_fatal() {
    assert_eq!(compile("#[blink()] usage: u64").unwrap_err(), arity("usage"));
}

#[test]
fn a_blink_attribute_without_parentheses_is_a_structure_error() {
    assert_eq!(compile("#[blink] usage: u64").unwrap_err(), structure("usage"));
    assert_eq!(compile("#[blink = \"a\"] usage: u64").unwrap_err(), structure("usage"));
}

#[test]
fn a_blink_attribute_that_is_no_meta_is_a_structure_error() {
    assert_eq!(compile("#[blink(a + b)] usage: u64").unwrap_err(), structure("usage"));
}

#[test]
fn a_width_written_as_a_string_is_a_mismatch() {
    assert_eq!(
        compile("#[bttr(width = \"5\")] usage: u64").unwrap_err(),
        AttrError::LiteralTypeMismatch {
            field: "usage".to_string(),
            key: "width".to_string(),
            expected: LiteralKind::UnsignedInt,
        }
    );
}

#[test]
fn an_unknown_key_in_an_attribute_is_fatal() {
    assert_eq!(
        compile("#[bttr(foo = \"bar\")] usage: u64").unwrap_err(),
        AttrError::UnknownKey { field: "usage".to_string(), key: "foo".to_string() }
    );
}

#[test]
fn a_title_attribute_makes_both_records_present() {
    let attr = compile("#[bttr(title = \"Usage\")] usage: u64").unwrap();
    let view = attr.view.unwrap();
    assert_eq!(view.none_mark, "?");
    assert!(view.unit.is_none());
    assert_eq!(attr.field.unwrap().title, Some("Usage".to_string()));
}

#[test]
fn the_same_attributes_twice_give_the_same_records() {
    let source =
        "#[blink(\"peer\")] #[bttr(title = \"T\", depth = \"d + 1\", width = 4, cmp = true)] usage: u64";
    let first = compile(source).unwrap();
    let second = compile(source).unwrap();
    assert_eq!(format!("{:?}", first), format!("{:?}", second));
}

#[test]
fn every_key_is_read_from_one_attribute() {
    let attr = compile(
        "#[bttr(title = \"T\", sort_tag = \"st\", tag = \"tg\", class = \"cl\", \
         dfill_struct = \"Df\", unit = \"u\", decorator = \"dec\", depth = \"1\", \
         prefix = \"p\", width = 1, title_width = 2, precision = 3, none_mark = \"n/a\", \
         highlight_if = \"$ > 1\", cmp = false, gen = true, class_detail = true)] usage: u64",
    )
    .unwrap();
    let view = attr.view.unwrap();
    assert_eq!(view.depth.unwrap().to_string(), "1");
    assert_eq!(view.unit, Some("u".to_string()));
    assert_eq!(view.prefix.unwrap().to_string(), "p");
    assert_eq!(view.width, Some(1));
    assert_eq!(view.title_width, Some(2));
    assert_eq!(view.none_mark, "n/a");
    assert_eq!(view.decorator, Some("dec".to_string()));
    assert_eq!(view.precision, Some(3));
    assert_eq!(view.highlight_if, Some("$ > 1".to_string()));
    let field = attr.field.unwrap();
    assert_eq!(field.title, Some("T".to_string()));
    assert!(field.link.is_empty());
    assert_eq!(field.tag, Some("tg".to_string()));
    assert_eq!(field.sort_tag, Some("st".to_string()));
    assert_eq!(field.class, Some("cl".to_string()));
    assert!(!field.no_show);
    assert!(!field.cmp);
    assert!(field.gen);
    assert!(field.class_detail);
    assert_eq!(field.dfill_struct, Some("Df".to_string()));
}

#[test]
fn string_literals_are_unescaped() {
    let attr = compile("#[bttr(title = \"a\\\"b\\n\", unit = r#\"x\"y\"#)] usage: u64").unwrap();
    assert_eq!(attr.field.unwrap().title, Some("a\"b\n".to_string()));
    assert_eq!(attr.view.unwrap().unit, Some("x\"y".to_string()));
}

#[test]
fn integer_literals_are_read_by_value() {
    let attr =
        compile("#[bttr(width = 1_000usize, title_width = 0x10, precision = 007)] usage: u64")
            .unwrap();
    let view = attr.view.unwrap();
    assert_eq!(view.width, Some(1000));
    assert_eq!(view.title_width, Some(16));
    assert_eq!(view.precision, Some(7));
}

#[test]
fn a_negative_width_is_a_mismatch() {
    assert_eq!(
        compile("#[bttr(width = -5)] usage: u64").unwrap_err(),
        AttrError::LiteralTypeMismatch {
            field: "usage".to_string(),
            key: "width".to_string(),
            expected: LiteralKind::UnsignedInt,
        }
    );
}

#[test]
fn a_width_beyond_usize_is_a_mismatch() {
    assert_eq!(
        compile("#[bttr(width = 340282366920938463463374607431768211456)] usage: u64")
            .unwrap_err(),
        AttrError::LiteralTypeMismatch {
            field: "usage".to_string(),
            key: "width".to_string(),
            expected: LiteralKind::UnsignedInt,
        }
    );
}

#[test]
fn a_fractional_precision_is_a_mismatch() {
    assert_eq!(
        compile("#[bttr(precision = 2.5)] usage: u64").unwrap_err(),
        AttrError::LiteralTypeMismatch {
            field: "usage".to_string(),
            key: "precision".to_string(),
            expected: LiteralKind::UnsignedInt,
        }
    );
}

#[test]
fn a_flag_written_as_a_string_is_a_mismatch() {
    assert_eq!(
        compile("#[bttr(gen = \"true\")] usage: u64").unwrap_err(),
        AttrError::LiteralTypeMismatch {
            field: "usage".to_string(),
            key: "gen".to_string(),
            expected: LiteralKind::Bool,
        }
    );
}

#[test]
fn a_character_where_a_string_is_due_is_a_mismatch() {
    assert_eq!(
        compile("#[bttr(none_mark = '-')] usage: u64").unwrap_err(),
        AttrError::LiteralTypeMismatch {
            field: "usage".to_string(),
            key: "none_mark".to_string(),
            expected: LiteralKind::Str,
        }
    );
}

#[test]
fn a_depth_that_does_not_lex_is_fatal_in_an_attribute() {
    assert_eq!(
        compile("#[bttr(depth = \"(1\")] usage: u64").unwrap_err(),
        AttrError::ExpressionParseFailure {
            field: "usage".to_string(),
            key: "depth".to_string(),
            text: "(1".to_string(),
        }
    );
}

#[test]
fn a_prefix_is_lexed_into_tokens() {
    let attr = compile("#[bttr(prefix = \"indent + 2\")] usage: u64").unwrap();
    let expected: proc_macro2::TokenStream = "indent + 2".parse().unwrap();
    assert_eq!(attr.view.unwrap().prefix.unwrap().to_string(), expected.to_string());
}

#[test]
fn a_bare_word_among_the_pairs_is_a_structure_error() {
    assert_eq!(compile("#[bttr(title = \"T\", cmp)] usage: u64").unwrap_err(), structure("usage"));
    assert_eq!(compile("#[bttr(\"T\")] usage: u64").unwrap_err(), structure("usage"));
    assert_eq!(compile("#[bttr(view(unit = \"s\"))] usage: u64").unwrap_err(), structure("usage"));
}

#[test]
fn a_bttr_attribute_without_parentheses_is_a_structure_error() {
    assert_eq!(compile("#[bttr] usage: u64").unwrap_err(), structure("usage"));
    assert_eq!(compile("#[bttr = \"T\"] usage: u64").unwrap_err(), structure("usage"));
}

#[test]
fn a_bttr_attribute_that_is_no_meta_is_a_structure_error() {
    assert_eq!(compile("#[bttr(width = 1 + 2)] usage: u64").unwrap_err(), structure("usage"));
    assert_eq!(compile("#[bttr[width = 1]] usage: u64").unwrap_err(), structure("usage"));
}

#[test]
fn an_empty_bttr_attribute_touches_nothing() {
    let attr = compile("#[bttr()] usage: u64").unwrap();
    assert!(attr.view.is_none());
    assert!(attr.field.is_none());
}

#[test]
fn attributes_of_other_namespaces_are_passed_over() {
    let attr = compile(
        "/// Time spent.\n #[serde(rename = \"u\")] #[other(a + b)] #[cfg(test)] \
         #[allow(dead_code)] usage: u64",
    )
    .unwrap();
    assert!(attr.view.is_none());
    assert!(attr.field.is_none());
}

#[test]
fn other_attributes_between_directives_change_nothing() {
    let attr = compile(
        "/// Time spent.\n #[bttr(unit = \"s\")] #[other(a + b)] #[blink(\"peer\")] usage: u64",
    )
    .unwrap();
    assert_eq!(attr.view.unwrap().unit, Some("s".to_string()));
    assert_eq!(attr.field.unwrap().link, vec!["peer".to_string()]);
}

#[test]
fn the_first_segment_of_a_path_is_the_namespace() {
    let attr = compile("#[bttr::view(unit = \"s\")] usage: u64").unwrap();
    assert_eq!(attr.view.unwrap().unit, Some("s".to_string()));
    let attr = compile("#[other::bttr(unit = \"s\")] usage: u64").unwrap();
    assert!(attr.view.is_none());
}

#[test]
fn the_first_segment_of_a_key_is_looked_up() {
    let attr = compile("#[bttr(unit::short = \"s\")] usage: u64").unwrap();
    assert_eq!(attr.view.unwrap().unit, Some("s".to_string()));
}

#[test]
fn a_blink_error_comes_before_a_bttr_error() {
    assert_eq!(
        compile("#[bttr(foo = \"bar\")] #[blink(1, 2)] usage: u64").unwrap_err(),
        arity("usage")
    );
}

#[test]
fn the_error_names_the_field() {
    assert_eq!(
        compile("#[bttr(nope = 1)] io_total: u64").unwrap_err(),
        AttrError::UnknownKey { field: "io_total".to_string(), key: "nope".to_string() }
    );
    assert_eq!(
        compile("#[bttr(nope = 1)] r#type: u64").unwrap_err(),
        AttrError::UnknownKey { field: "r#type".to_string(), key: "nope".to_string() }
    );
}

#[test]
fn an_attribute_without_a_path_is_passed_over() {
    let attribute = syn::Attribute {
        pound_token: Default::default(),
        style: syn::AttrStyle::Outer,
        bracket_token: Default::default(),
        path: syn::Path { leading_colon: None, segments: syn::punctuated::Punctuated::new() },
        tokens: proc_macro2::TokenStream::new(),
    };
    assert_eq!(namespace_of(&attribute.path), "");
    let attr = parse_attribute(&[read(&attribute)], "usage").unwrap();
    assert!(attr.view.is_none());
    assert!(attr.field.is_none());
}

#[test]
fn the_namespace_is_the_leading_word_of_the_path() {
    let path: syn::Path = syn::parse_str("bttr").unwrap();
    assert_eq!(namespace_of(&path), "bttr");
    let path: syn::Path = syn::parse_str("blink::to").unwrap();
    assert_eq!(namespace_of(&path), "blink");
    let path: syn::Path = syn::parse_str("::std::fmt").unwrap();
    assert_eq!(namespace_of(&path), "std");
    let path: syn::Path = syn::parse_str("r#type").unwrap();
    assert_eq!(namespace_of(&path), "r#type");
}

#[test]
fn a_list_is_read_argument_by_argument() {
    assert_eq!(
        body("bttr(title = \"a\\\"b\", width = 0x1F, cmp = false, 'c', \"s\", 7, gen, view(x), other = 1.5)"),
        Body::List(vec![
            pair("title", Literal::Str("a\"b".to_string())),
            pair("width", Literal::Int(Some(31))),
            pair("cmp", Literal::Bool(false)),
            Argument::Literal(Literal::Other),
            Argument::Literal(Literal::Str("s".to_string())),
            Argument::Literal(Literal::Int(Some(7))),
            Argument::Other,
            Argument::Other,
            pair("other", Literal::Other),
        ])
    );
}

#[test]
fn an_empty_list_is_read_as_an_empty_list() {
    assert_eq!(body("bttr()"), Body::List(vec![]));
}

#[test]
fn a_word_and_a_name_value_are_read_as_bare() {
    assert_eq!(body("bttr"), Body::Bare);
    assert_eq!(body("bttr = \"x\""), Body::Bare);
}

#[test]
fn refused_tokens_are_read_as_malformed() {
    assert_eq!(read_body(None), Body::Malformed);
}

#[test]
fn integers_that_are_no_usize_are_read_without_a_value() {
    assert_eq!(
        body("bttr(width = -1, precision = 340282366920938463463374607431768211456)"),
        Body::List(vec![
            pair("width", Literal::Int(None)),
            pair("precision", Literal::Int(None)),
        ])
    );
}

#[test]
fn string_literals_are_read_with_escapes_resolved() {
    assert_eq!(
        body("blink(\"tab\\there\", r#\"raw \"q\" \\n\"#, \"\\u{e9}\")"),
        Body::List(vec![
            Argument::Literal(Literal::Str("tab\there".to_string())),
            Argument::Literal(Literal::Str("raw \"q\" \\n".to_string())),
            Argument::Literal(Literal::Str("\u{e9}".to_string())),
        ])
    );
}
