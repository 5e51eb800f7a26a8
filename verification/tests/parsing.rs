use bnf::{
    Delimiter, Diagnostic, ErrorKind, Expected, Field, Grammar, Identifier, Rule, RuleKind,
    Separator, Token,
};

fn name(text: &str, position: usize) -> Identifier {
    Identifier { name: text.to_string(), position }
}

fn typed(text: &str, position: usize, ty: &str, separator: Separator) -> Field {
    Field { name: name(text, position), payload_type: Some(ty.to_string()), separator }
}

fn unit(text: &str, position: usize, separator: Separator) -> Field {
    Field { name: name(text, position), payload_type: None, separator }
}

fn syntax(position: usize, expected: Expected) -> Diagnostic {
    Diagnostic { kind: ErrorKind::Syntax(expected), position, identifier: None }
}

#[test]
fn record_rule_parses_to_two_typed_fields() {
    let grammar = Grammar::parse_str("a -> x(i32), y(i32);").unwrap();
    assert_eq!(
        grammar,
        Grammar {
            rules: vec![Rule {
                name: name("a", 0),
                fields: vec![
                    typed("x", 3, "i32", Separator::Comma),
                    typed("y", 6, "i32", Separator::Comma),
                ],
            }],
        }
    );
    assert_eq!(grammar.rules[0].kind(), RuleKind::Record);
}

#[test]
fn union_rule_parses_to_three_variants() {
    let grammar = Grammar::parse_str("shape -> circle(f64) | square(f64) | point;").unwrap();
    assert_eq!(
        grammar,
        Grammar {
            rules: vec![Rule {
                name: name("shape", 0),
                fields: vec![
                    typed("circle", 3, "f64", Separator::Pipe),
                    typed("square", 6, "f64", Separator::Pipe),
                    unit("point", 9, Separator::Pipe),
                ],
            }],
        }
    );
    assert_eq!(grammar.rules[0].kind(), RuleKind::TaggedUnion);
}

#[test]
fn last_field_may_carry_its_own_separator() {
    let with = Grammar::parse_str("a -> x(i32), y(i32),;").unwrap();
    let without = Grammar::parse_str("a -> x(i32), y(i32);").unwrap();
    assert_eq!(with, without);
}

#[test]
fn sole_field_without_separator_is_comma_separated() {
    let grammar = Grammar::parse_str("a -> x(i32)").unwrap();
    assert_eq!(grammar.rules[0].fields, vec![typed("x", 3, "i32", Separator::Comma)]);
    let grammar = Grammar::parse_str("a -> x |").unwrap();
    assert_eq!(grammar.rules[0].fields, vec![unit("x", 3, Separator::Pipe)]);
}

#[test]
fn last_field_inherits_the_separator_before_it() {
    let grammar = Grammar::parse_str("bad -> x(i32), y | z(i32);").unwrap();
    assert_eq!(
        grammar.rules[0].fields,
        vec![
            typed("x", 3, "i32", Separator::Comma),
            unit("y", 6, Separator::Pipe),
            typed("z", 8, "i32", Separator::Pipe),
        ]
    );
}

#[test]
fn rule_without_fields_parses() {
    let grammar = Grammar::parse_str("bad -> ;").unwrap();
    assert_eq!(grammar, Grammar { rules: vec![Rule { name: name("bad", 0), fields: vec![] }] });
    let grammar = Grammar::parse_str("bad ->").unwrap();
    assert_eq!(grammar, Grammar { rules: vec![Rule { name: name("bad", 0), fields: vec![] }] });
}

#[test]
fn rules_are_separated_by_semicolons_and_the_last_one_is_optional() {
    let closed = Grammar::parse_str("a -> x(u8); b -> y | z;").unwrap();
    let open = Grammar::parse_str("a -> x(u8); b -> y | z").unwrap();
    assert_eq!(closed, open);
    assert_eq!(closed.rules.len(), 2);
    assert_eq!(closed.rules[0].name, name("a", 0));
    assert_eq!(closed.rules[1].name, name("b", 6));
    assert_eq!(
        closed.rules[1].fields,
        vec![unit("y", 9, Separator::Pipe), unit("z", 11, Separator::Pipe)]
    );
}

#[test]
fn payload_type_is_kept_as_written() {
    let grammar = Grammar::parse_str("a -> x(Vec<Option<&'static str>>), y((u8, [i32; 4]));")
        .unwrap();
    assert_eq!(
        grammar.rules[0].fields[0].payload_type,
        Some("Vec < Option <&'static str >>".to_string())
    );
    assert_eq!(grammar.rules[0].fields[1].payload_type, Some("(u8 , [i32 ; 4])".to_string()));
}

#[test]
fn empty_input_is_a_syntax_error() {
    assert_eq!(Grammar::parse_str(""), Err(syntax(0, Expected::Identifier)));
    assert_eq!(Grammar::parse(&vec![]), Err(syntax(0, Expected::Identifier)));
}

#[test]
fn text_that_is_no_token_sequence_is_a_syntax_error() {
    assert_eq!(Grammar::parse_str("a -> x(i32"), Err(syntax(0, Expected::Tokens)));
}

#[test]
fn rule_must_start_with_an_identifier() {
    assert_eq!(Grammar::parse_str("-> x(i32);"), Err(syntax(0, Expected::Identifier)));
    assert_eq!(Grammar::parse_str("1 -> x(i32);"), Err(syntax(0, Expected::Identifier)));
    assert_eq!(Grammar::parse_str("a -> x(i32);;"), Err(syntax(6, Expected::Identifier)));
    assert_eq!(Grammar::parse_str("; a -> x(i32)"), Err(syntax(0, Expected::Identifier)));
}

#[test]
fn keyword_is_no_identifier() {
    assert_eq!(Grammar::parse_str("struct -> x(i32);"), Err(syntax(0, Expected::Identifier)));
    assert_eq!(Grammar::parse_str("a -> fn(i32);"), Err(syntax(3, Expected::Identifier)));
    assert_eq!(Grammar::parse_str("a -> _;"), Err(syntax(3, Expected::Identifier)));
    assert!(Grammar::parse_str("a -> r#fn(i32);").is_ok());
    assert!(Grammar::parse_str("structure -> x(i32);").is_ok());
}

#[test]
fn rule_name_must_be_followed_by_an_arrow() {
    assert_eq!(Grammar::parse_str("a x(i32);"), Err(syntax(1, Expected::Arrow)));
    assert_eq!(Grammar::parse_str("a"), Err(syntax(1, Expected::Arrow)));
    assert_eq!(Grammar::parse_str("a - > x(i32);"), Err(syntax(1, Expected::Arrow)));
    assert_eq!(Grammar::parse_str("a -= x(i32);"), Err(syntax(1, Expected::Arrow)));
    assert_eq!(Grammar::parse_str("struct a -> x(i32);"), Err(syntax(0, Expected::Identifier)));
    assert_eq!(Grammar::parse_str("record a -> x(i32);"), Err(syntax(1, Expected::Arrow)));
}

#[test]
fn field_must_start_with_an_identifier() {
    assert_eq!(Grammar::parse_str("a -> (i32);"), Err(syntax(3, Expected::Identifier)));
    assert_eq!(Grammar::parse_str("a -> x, , y;"), Err(syntax(5, Expected::Identifier)));
    assert_eq!(Grammar::parse_str("a -> x || y;"), Err(syntax(5, Expected::Identifier)));
    assert_eq!(Grammar::parse_str("a -> 7;"), Err(syntax(3, Expected::Identifier)));
}

#[test]
fn parenthesized_payload_must_be_a_type() {
    assert_eq!(Grammar::parse_str("a -> x(1 +);"), Err(syntax(4, Expected::Type)));
    assert_eq!(Grammar::parse_str("a -> x();"), Err(syntax(4, Expected::Type)));
    assert_eq!(Grammar::parse_str("a -> x(i32 u8);"), Err(syntax(4, Expected::Type)));
    assert_eq!(Grammar::parse_str("a -> x(i32), y(u8,);"), Err(syntax(7, Expected::Type)));
}

#[test]
fn field_must_end_with_a_separator_or_the_rule() {
    assert_eq!(Grammar::parse_str("a -> x(i32) y(i32);"), Err(syntax(5, Expected::Separator)));
    assert_eq!(Grammar::parse_str("a -> x y;"), Err(syntax(4, Expected::Separator)));
    assert_eq!(Grammar::parse_str("a -> x[i32];"), Err(syntax(4, Expected::Separator)));
    assert_eq!(Grammar::parse_str("a -> x: i32;"), Err(syntax(4, Expected::Separator)));
    assert_eq!(Grammar::parse_str("a -> x(i32)(u8);"), Err(syntax(5, Expected::Separator)));
}

#[test]
fn syntax_error_comes_before_any_semantic_check() {
    assert_eq!(Grammar::parse_str("empty -> ; a -> x y;"), Err(syntax(8, Expected::Separator)));
}

#[test]
fn parse_reads_hand_made_tokens() {
    let tokens = vec![
        Token::Identifier("a".to_string()),
        Token::Punct { ch: '-', joint: true },
        Token::Punct { ch: '>', joint: false },
        Token::Identifier("x".to_string()),
        Token::Type("i32".to_string()),
    ];
    assert_eq!(
        Grammar::parse(&tokens),
        Ok(Grammar {
            rules: vec![Rule {
                name: name("a", 0),
                fields: vec![typed("x", 3, "i32", Separator::Comma)],
            }],
        })
    );
}

#[test]
fn parse_takes_the_classification_of_the_tokens_as_given() {
    let arrow = || vec![Token::Punct { ch: '-', joint: true }, Token::Punct { ch: '>', joint: false }];
    let mut tokens = vec![Token::Keyword("a".to_string())];
    tokens.extend(arrow());
    assert_eq!(Grammar::parse(&tokens), Err(syntax(0, Expected::Identifier)));
    let mut tokens = vec![Token::Identifier("struct".to_string())];
    tokens.extend(arrow());
    tokens.push(Token::Identifier("x".to_string()));
    tokens.push(Token::Group { delimiter: Delimiter::Parenthesis, content: "i32".to_string() });
    assert_eq!(Grammar::parse(&tokens), Err(syntax(4, Expected::Type)));
    tokens[4] = Token::Type("not a type".to_string());
    assert_eq!(
        Grammar::parse(&tokens),
        Ok(Grammar {
            rules: vec![Rule {
                name: name("struct", 0),
                fields: vec![typed("x", 3, "not a type", Separator::Comma)],
            }],
        })
    );
}

#[test]
fn field_parse_returns_the_index_after_the_field() {
    let tokens = bnf::tokenize("a -> x(i32), y | z").unwrap();
    assert_eq!(
        Field::parse(&tokens, 3, Separator::Pipe),
        Ok((typed("x", 3, "i32", Separator::Comma), 6))
    );
    assert_eq!(Field::parse(&tokens, 6, Separator::Comma), Ok((unit("y", 6, Separator::Pipe), 8)));
    assert_eq!(Field::parse(&tokens, 8, Separator::Pipe), Ok((unit("z", 8, Separator::Pipe), 9)));
    assert_eq!(Field::parse(&tokens, 8, Separator::Comma), Ok((unit("z", 8, Separator::Comma), 9)));
    assert_eq!(Field::parse(&tokens, 9, Separator::Comma), Err(syntax(9, Expected::Identifier)));
}

#[test]
fn rule_parse_returns_the_index_of_the_end() {
    let tokens = bnf::tokenize("a -> x(i32); b -> y").unwrap();
    let (rule, end) = Rule::parse(&tokens, 0).unwrap();
    assert_eq!(rule.name, name("a", 0));
    assert_eq!(end, 5);
    let (rule, end) = Rule::parse(&tokens, 6).unwrap();
    assert_eq!(rule.name, name("b", 6));
    assert_eq!(end, 10);
    assert_eq!(Rule::parse(&tokens, 10), Err(syntax(10, Expected::Identifier)));
    assert_eq!(Rule::parse(&tokens, 99), Err(syntax(99, Expected::Identifier)));
}

#[test]
fn parse_type_and_parse_separator_read_one_token() {
    let tokens = bnf::tokenize("x(i32) | (1 +) , ; y").unwrap();
    assert_eq!(bnf::parser::parse_type(&tokens, 1), Ok((Some("i32".to_string()), 2)));
    assert_eq!(bnf::parser::parse_type(&tokens, 2), Ok((None, 2)));
    assert_eq!(bnf::parser::parse_type(&tokens, 3), Err(syntax(3, Expected::Type)));
    assert_eq!(bnf::parser::parse_type(&tokens, 50), Ok((None, 50)));
    assert_eq!(
        bnf::parser::parse_separator(&tokens, 2, Separator::Comma),
        Ok((Separator::Pipe, 3))
    );
    assert_eq!(
        bnf::parser::parse_separator(&tokens, 4, Separator::Pipe),
        Ok((Separator::Comma, 5))
    );
    assert_eq!(
        bnf::parser::parse_separator(&tokens, 5, Separator::Pipe),
        Ok((Separator::Pipe, 5))
    );
    assert_eq!(
        bnf::parser::parse_separator(&tokens, 7, Separator::Comma),
        Ok((Separator::Comma, 7))
    );
    assert_eq!(
        bnf::parser::parse_separator(&tokens, 6, Separator::Comma),
        Err(syntax(6, Expected::Separator))
    );
}
