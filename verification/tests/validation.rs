use bnf::{validate, Diagnostic, ErrorKind, Field, Grammar, Identifier, Rule, Separator};

fn located(kind: ErrorKind, position: usize, name: &str) -> Diagnostic {
    Diagnostic { kind, position, identifier: Some(name.to_string()) }
}

fn check(text: &str) -> Result<Grammar, Diagnostic> {
    validate(Grammar::parse_str(text).unwrap())
}

#[test]
fn empty_rule_is_reported_at_its_name() {
    assert_eq!(check("bad -> ;"), Err(located(ErrorKind::EmptyRule, 0, "bad")));
}

#[test]
fn mixed_separators_are_reported_at_the_first_divergent_field() {
    assert_eq!(
        check("bad -> x(i32), y | z(i32);"),
        Err(located(ErrorKind::MixedSeparator, 6, "y"))
    );
    assert_eq!(
        check("bad -> x | y(i32), z, w | v;"),
        Err(located(ErrorKind::MixedSeparator, 5, "y"))
    );
}

#[test]
fn missing_type_is_reported_at_the_first_untyped_field() {
    assert_eq!(check("bad -> x, y(i32);"), Err(located(ErrorKind::MissingType, 3, "x")));
    assert_eq!(check("bad -> x(u8), y, z;"), Err(located(ErrorKind::MissingType, 6, "y")));
    assert_eq!(check("bad -> x;"), Err(located(ErrorKind::MissingType, 3, "x")));
}

#[test]
fn valid_grammar_is_returned_unchanged() {
    let grammar =
        Grammar::parse_str("a -> x(i32), y(i32); shape -> circle(f64) | square(f64) | point;")
            .unwrap();
    assert_eq!(validate(grammar.clone()), Ok(grammar));
}

#[test]
fn grammar_without_rules_is_valid() {
    assert_eq!(validate(Grammar { rules: vec![] }), Ok(Grammar { rules: vec![] }));
}

#[test]
fn validation_is_idempotent() {
    let grammar = Grammar::parse_str("a -> x(i32), y(i32); b -> p | q(u8);").unwrap();
    let once = validate(grammar).unwrap();
    let twice = validate(once.clone()).unwrap();
    assert_eq!(once, twice);
}

#[test]
fn empty_rule_is_reported_before_mixed_separators() {
    assert_eq!(
        check("mixed -> x(i32), y | z; untyped -> x, y; empty -> ;"),
        Err(located(ErrorKind::EmptyRule, 17, "empty"))
    );
}

#[test]
fn mixed_separators_are_reported_before_a_missing_type() {
    assert_eq!(
        check("untyped -> x, y(u8); mixed -> x(i32), y | z;"),
        Err(located(ErrorKind::MixedSeparator, 14, "y"))
    );
}

#[test]
fn first_of_two_empty_rules_is_reported() {
    assert_eq!(
        check("a -> x(u8); b -> ; c -> ;"),
        Err(located(ErrorKind::EmptyRule, 6, "b"))
    );
}

#[test]
fn first_of_two_mixed_rules_is_reported() {
    assert_eq!(
        check("a -> x | y, z; b -> p, q | r;"),
        Err(located(ErrorKind::MixedSeparator, 5, "y"))
    );
}

#[test]
fn untyped_field_of_a_union_is_no_error() {
    assert!(check("u -> a | b | c;").is_ok());
    assert_eq!(
        check("u -> a | b; r -> x(u8), y;"),
        Err(located(ErrorKind::MissingType, 13, "y"))
    );
}

#[test]
fn validate_reads_hand_made_grammars() {
    let field = |name: &str, position: usize, separator: Separator| Field {
        name: Identifier { name: name.to_string(), position },
        payload_type: None,
        separator,
    };
    let grammar = Grammar {
        rules: vec![Rule {
            name: Identifier { name: "r".to_string(), position: 40 },
            fields: vec![
                field("a", 41, Separator::Pipe),
                field("b", 42, Separator::Pipe),
                field("c", 43, Separator::Comma),
            ],
        }],
    };
    assert_eq!(validate(grammar), Err(located(ErrorKind::MixedSeparator, 43, "c")));
}

#[test]
fn each_kind_of_error_has_its_message() {
    let message = |kind: ErrorKind| Diagnostic { kind, position: 0, identifier: None }.message();
    assert_eq!(message(ErrorKind::EmptyRule), "Invalid Rule. Expected at least one symbol");
    assert_eq!(
        message(ErrorKind::MixedSeparator),
        "Expected either '|' or  ',' in a rule, not both"
    );
    assert_eq!(
        message(ErrorKind::MissingType),
        "Comma separated rules must have types in its fields"
    );
    assert_eq!(
        message(ErrorKind::Syntax(bnf::Expected::Separator)),
        "Expected '|' for enums or ',' for structs"
    );
    assert_eq!(message(ErrorKind::Syntax(bnf::Expected::Identifier)), "Expected an identifier");
    assert_eq!(
        message(ErrorKind::Syntax(bnf::Expected::Arrow)),
        "Expected '->' after the name of a rule"
    );
    assert_eq!(
        message(ErrorKind::Syntax(bnf::Expected::Type)),
        "Expected a type between the parentheses"
    );
    assert_eq!(message(ErrorKind::Syntax(bnf::Expected::Tokens)), "Expected a sequence of tokens");
}
