use bnf::{
    capitalize, generate, render, validate, Constructor, Declaration, Grammar, Member, Variant,
};
use proc_macro2::TokenStream;
use std::str::FromStr;

fn member(name: &str, ty: &str) -> Member {
    Member { name: name.to_string(), ty: ty.to_string() }
}

fn variant(name: &str, payload: Option<&str>) -> Variant {
    Variant { name: name.to_string(), payload: payload.map(|p| p.to_string()) }
}

fn declarations(text: &str) -> Vec<Declaration> {
    generate(&validate(Grammar::parse_str(text).unwrap()).unwrap())
}

fn same_tokens(left: &str, right: &str) -> bool {
    TokenStream::from_str(left).unwrap().to_string()
        == TokenStream::from_str(right).unwrap().to_string()
}

#[test]
fn capitalize_raises_the_first_character_only() {
    assert_eq!(capitalize("shape"), "Shape");
    assert_eq!(capitalize("x"), "X");
    assert_eq!(capitalize("camelCase"), "CamelCase");
    assert_eq!(capitalize("snake_case"), "Snake_case");
}

#[test]
fn capitalize_keeps_what_has_no_upper_case() {
    assert_eq!(capitalize(""), "");
    assert_eq!(capitalize("Shape"), "Shape");
    assert_eq!(capitalize("_x"), "_x");
    assert_eq!(capitalize("9lives"), "9lives");
}

#[test]
fn capitalize_uses_the_full_uppercase_mapping() {
    assert_eq!(capitalize("éclair"), "Éclair");
    assert_eq!(capitalize("ßtraße"), "SStraße");
    assert_eq!(capitalize("ǆ"), "Ǆ");
}

#[test]
fn replace_first_puts_the_head_in_place_of_one_character() {
    assert_eq!(bnf::replace_first("shape", "S"), "Shape");
    assert_eq!(bnf::replace_first("shape", ""), "hape");
    assert_eq!(bnf::replace_first("shape", "The s"), "The shape");
    assert_eq!(bnf::replace_first("é", "E"), "E");
    assert_eq!(bnf::replace_first("", "S"), "");
}

#[test]
fn record_rule_generates_a_record_with_a_constructor() {
    assert_eq!(
        declarations("a -> x(i32), y(i32);"),
        vec![Declaration::Record {
            name: "A".to_string(),
            fields: vec![member("x", "i32"), member("y", "i32")],
            constructor: Constructor { parameters: vec![member("x", "i32"), member("y", "i32")] },
        }]
    );
}

#[test]
fn union_rule_generates_variants_in_order() {
    assert_eq!(
        declarations("shape -> circle(f64) | square(f64) | point;"),
        vec![Declaration::TaggedUnion {
            name: "Shape".to_string(),
            variants: vec![
                variant("Circle", Some("f64")),
                variant("Square", Some("f64")),
                variant("Point", None),
            ],
        }]
    );
}

#[test]
fn record_field_names_are_not_capitalized() {
    let generated = declarations("point -> xCoord(f64), y_coord(f64);");
    match &generated[0] {
        Declaration::Record { name, fields, constructor } => {
            assert_eq!(name, "Point");
            assert_eq!(fields[0].name, "xCoord");
            assert_eq!(fields[1].name, "y_coord");
            assert_eq!(&constructor.parameters, fields);
        }
        other => panic!("expected a record, found {:?}", other),
    }
}

#[test]
fn declarations_come_in_the_order_of_the_rules() {
    let generated = declarations("zeta -> a | b; alpha -> x(u8); mid -> p(u8) | q; beta -> y(i8)");
    let names: Vec<&str> = generated
        .iter()
        .map(|d| match d {
            Declaration::Record { name, .. } => name.as_str(),
            Declaration::TaggedUnion { name, .. } => name.as_str(),
        })
        .collect();
    assert_eq!(names, vec!["Zeta", "Alpha", "Mid", "Beta"]);
    let kinds: Vec<bool> =
        generated.iter().map(|d| matches!(d, Declaration::Record { .. })).collect();
    assert_eq!(kinds, vec![false, true, false, true]);
}

#[test]
fn equal_rules_generate_equal_declarations() {
    let generated = declarations("a -> x(u8); a -> x(u8);");
    assert_eq!(generated.len(), 2);
    assert_eq!(generated[0], generated[1]);
}

#[test]
fn record_renders_as_a_struct_and_its_constructor() {
    let text = render(&declarations("a -> x(i32), y(i32);"));
    assert_eq!(
        text,
        "pub struct A {\n    pub x: i32,\n    pub y: i32,\n}\n\nimpl A {\n    fn new(x: i32, y: i32) -> Self {\n        Self { x, y }\n    }\n}\n"
    );
    assert!(same_tokens(
        &text,
        "pub struct A { pub x: i32, pub y: i32, } impl A { fn new(x: i32, y: i32) -> Self { Self {x, y} } }"
    ));
}

#[test]
fn union_renders_as_an_enum() {
    let text = render(&declarations("shape -> circle(f64) | square(f64) | point;"));
    assert_eq!(
        text,
        "pub enum Shape {\n    Circle(f64),\n    Square(f64),\n    Point,\n}\n"
    );
    assert!(same_tokens(&text, "pub enum Shape { Circle(f64), Square(f64), Point, }"));
}

#[test]
fn single_field_record_renders_without_a_comma_in_the_constructor() {
    let text = render(&declarations("wrapper -> inner(Vec<u8>);"));
    assert!(same_tokens(
        &text,
        "pub struct Wrapper { pub inner: Vec<u8>, } impl Wrapper { fn new(inner: Vec<u8>) -> Self { Self {inner} } }"
    ));
}

#[test]
fn declarations_render_in_order_with_an_empty_line_between() {
    let generated = declarations("b -> x(u8); a -> p | q;");
    let text = render(&generated);
    assert_eq!(text, format!("{}\n{}", generated[0].render(), generated[1].render()));
    assert!(text.find("pub struct B").unwrap() < text.find("pub enum A").unwrap());
    assert_eq!(render(&vec![]), "");
}

#[test]
fn body_of_a_declaration_has_one_line_per_field() {
    let generated = declarations("a -> x(i32), y(u8); s -> c(f64) | p;");
    assert_eq!(
        bnf::render::format_fields(&generated[0]),
        vec!["    pub x: i32,\n".to_string(), "    pub y: u8,\n".to_string()]
    );
    assert_eq!(
        bnf::render::format_fields(&generated[1]),
        vec!["    C(f64),\n".to_string(), "    P,\n".to_string()]
    );
}

#[test]
fn texts_are_joined_with_the_separator_between_them() {
    let parts = vec!["a".to_string(), "b".to_string(), "c".to_string()];
    assert_eq!(bnf::render::join_texts(&parts, ", "), "a, b, c");
    assert_eq!(bnf::render::join_texts(&parts[..1].to_vec(), ", "), "a");
    assert_eq!(bnf::render::join_texts(&vec![], ", "), "");
    assert_eq!(bnf::render::concat_texts(&parts), "abc");
    assert_eq!(bnf::render::concat_texts(&vec![]), "");
}
