use bnf::{
    canonical_text, canonical_tokens, compile, compile_tokens, generate, tokenize, validate,
    Diagnostic, ErrorKind, Expected, Field, Grammar, Identifier, Rule, Separator, Token,
};

fn field(name: &str, ty: Option<&str>, separator: Separator) -> Field {
    Field {
        name: Identifier { name: name.to_string(), position: 0 },
        payload_type: ty.map(|t| t.to_string()),
        separator,
    }
}

fn rule(name: &str, fields: Vec<Field>) -> Rule {
    Rule { name: Identifier { name: name.to_string(), position: 0 }, fields }
}

fn sample() -> Grammar {
    Grammar {
        rules: vec![
            rule(
                "point",
                vec![
                    field("x", Some("f64"), Separator::Comma),
                    field("y", Some("f64"), Separator::Comma),
                ],
            ),
            rule(
                "shape",
                vec![
                    field("circle", Some("f64"), Separator::Pipe),
                    field("square", Some("f64"), Separator::Pipe),
                    field("point", None, Separator::Pipe),
                ],
            ),
            rule("wrapper", vec![field("inner", Some("Vec < u8 >"), Separator::Comma)]),
        ],
    }
}

fn without_positions(grammar: &Grammar) -> Grammar {
    let mut plain = grammar.clone();
    for rule in plain.rules.iter_mut() {
        rule.name.position = 0;
        for field in rule.fields.iter_mut() {
            field.name.position = 0;
        }
    }
    plain
}

#[test]
fn compile_gives_the_text_of_the_declarations() {
    assert_eq!(
        compile("a -> x(i32), y(i32); shape -> circle(f64) | square(f64) | point;"),
        Ok("pub struct A {\n    pub x: i32,\n    pub y: i32,\n}\n\nimpl A {\n    fn new(x: i32, y: i32) -> Self {\n        Self { x, y }\n    }\n}\n\npub enum Shape {\n    Circle(f64),\n    Square(f64),\n    Point,\n}\n".to_string())
    );
}

#[test]
fn compile_reports_one_diagnostic_and_no_output() {
    assert_eq!(
        compile("good -> x(i32); bad -> ;"),
        Err(Diagnostic {
            kind: ErrorKind::EmptyRule,
            position: 6,
            identifier: Some("bad".to_string())
        })
    );
    assert_eq!(
        compile("bad -> x(i32), y | z(i32);"),
        Err(Diagnostic {
            kind: ErrorKind::MixedSeparator,
            position: 6,
            identifier: Some("y".to_string())
        })
    );
    assert_eq!(
        compile("bad -> x, y(i32);"),
        Err(Diagnostic {
            kind: ErrorKind::MissingType,
            position: 3,
            identifier: Some("x".to_string())
        })
    );
}

#[test]
fn compile_reports_syntax_errors_first() {
    assert_eq!(
        compile("empty -> ; broken -> x y"),
        Err(Diagnostic {
            kind: ErrorKind::Syntax(Expected::Separator),
            position: 8,
            identifier: None
        })
    );
    assert_eq!(
        compile("a -> x(i32"),
        Err(Diagnostic { kind: ErrorKind::Syntax(Expected::Tokens), position: 0, identifier: None })
    );
}

#[test]
fn compile_is_repeatable() {
    let text = "a -> x(i32), y | z;";
    assert_eq!(compile(text), compile(text));
    let text = "a -> x(i32), y(u8);";
    assert_eq!(compile(text), compile(text));
}

#[test]
fn compile_tokens_agrees_with_the_three_stages() {
    let tokens = tokenize("a -> x(i32), y(i32); s -> c(f64) | p;").unwrap();
    let staged = generate(&validate(Grammar::parse(&tokens).unwrap()).unwrap());
    assert_eq!(compile_tokens(&tokens), Ok(staged));
}

#[test]
fn canonical_tokens_spell_every_separator() {
    let grammar = Grammar { rules: vec![sample().rules[1].clone()] };
    let ident = |name: &str| Token::Identifier(name.to_string());
    let punct = |ch: char| Token::Punct { ch, joint: false };
    let group = |ty: &str| Token::Type(ty.to_string());
    assert_eq!(
        canonical_tokens(&grammar),
        vec![
            ident("shape"),
            Token::Punct { ch: '-', joint: true },
            punct('>'),
            ident("circle"),
            group("f64"),
            punct('|'),
            ident("square"),
            group("f64"),
            punct('|'),
            ident("point"),
            punct('|'),
            punct(';'),
        ]
    );
}

#[test]
fn canonical_text_has_one_rule_per_line() {
    assert_eq!(
        canonical_text(&sample()),
        "point -> x(f64), y(f64), ;\nshape -> circle(f64)| square(f64)| point| ;\nwrapper -> inner(Vec < u8 >), ;\n"
    );
    assert_eq!(canonical_text(&Grammar { rules: vec![] }), "");
}

#[test]
fn canonical_text_tokenizes_to_the_canonical_tokens() {
    let grammar = sample();
    assert_eq!(tokenize(&canonical_text(&grammar)), Some(canonical_tokens(&grammar)));
}

#[test]
fn printing_and_parsing_give_the_grammar_back() {
    let grammar = sample();
    let parsed = Grammar::parse(&canonical_tokens(&grammar)).unwrap();
    assert_eq!(without_positions(&parsed), grammar);
    let parsed = Grammar::parse_str(&canonical_text(&grammar)).unwrap();
    assert_eq!(without_positions(&parsed), grammar);
}

#[test]
fn parsing_and_printing_reach_a_fixed_point() {
    let parsed = Grammar::parse_str("a -> x(i32), y(i32); s -> c(f64) | p").unwrap();
    let again = Grammar::parse_str(&canonical_text(&parsed)).unwrap();
    assert_eq!(without_positions(&again), without_positions(&parsed));
    assert_eq!(canonical_text(&again), canonical_text(&parsed));
}

#[test]
fn round_trip_compiles_to_the_declarations_of_the_grammar() {
    let grammar = sample();
    let expected = generate(&validate(grammar.clone()).unwrap());
    assert_eq!(compile_tokens(&canonical_tokens(&grammar)), Ok(expected.clone()));
    assert_eq!(compile(&canonical_text(&grammar)), Ok(bnf::render(&expected)));
}

#[test]
fn round_trip_keeps_invalid_grammars_invalid() {
    let grammar = Grammar {
        rules: vec![rule(
            "bad",
            vec![field("x", Some("i32"), Separator::Comma), field("y", None, Separator::Pipe)],
        )],
    };
    let parsed = Grammar::parse(&canonical_tokens(&grammar)).unwrap();
    assert_eq!(without_positions(&parsed), grammar);
    assert_eq!(
        validate(parsed),
        Err(Diagnostic {
            kind: ErrorKind::MixedSeparator,
            position: 6,
            identifier: Some("y".to_string())
        })
    );
}

#[test]
fn diagnostic_names_the_token_at_its_position() {
    for text in [
        "good -> x(i32); bad -> ;",
        "bad -> x(i32), y | z(i32);",
        "bad -> x, y(i32);",
        "a -> p | q; b -> x(u8), y(u8), z;",
    ] {
        let tokens = tokenize(text).unwrap();
        let diagnostic = compile_tokens(&tokens).unwrap_err();
        let name = diagnostic.identifier.clone().unwrap();
        assert_eq!(tokens[diagnostic.position], Token::Identifier(name));
    }
}

#[test]
fn syntax_error_stands_within_the_input_or_at_its_end() {
    for text in ["", "a", "a ->x y", "a -> x(1 +)", "a -> x(u8); ;", "a -> x(u8) | 3"] {
        let tokens = tokenize(text).unwrap();
        let diagnostic = compile_tokens(&tokens).unwrap_err();
        assert!(matches!(diagnostic.kind, ErrorKind::Syntax(_)));
        assert_eq!(diagnostic.identifier, None);
        assert!(diagnostic.position <= tokens.len());
    }
}

#[test]
fn parsed_grammar_has_a_rule() {
    for text in ["a ->", "a -> x", "a -> ; b -> ;", "a -> x(u8), y(u8); b -> p | q;"] {
        assert!(!Grammar::parse_str(text).unwrap().rules.is_empty());
    }
}
