//! The parser: from tokens to a [`Grammar`].
//!
//! ```text
//! Grammar   := Rule (';' Rule)* ';'?
//! Rule      := Identifier '->' Field*
//! Field     := Identifier ('(' Type ')')? Separator
//! Separator := ',' | '|'
//! ```
//!
//! The last field of a rule may end without a separator, at the `;` or at the
//! end of the input. It then takes the separator of the field before it, and
//! a sole field takes the comma. A rule without fields is accepted here and
//! refused by the validator.

use crate::diagnostic::{syntax_error, Diagnostic, DiagnosticModel, Expected};
use crate::grammar::{
    fields_view, rules_view, Field, FieldModel, Grammar, GrammarModel, Identifier,
    IdentifierModel, Rule, RuleModel, Separator,
};
use crate::token::{lexed, tokenize, tokenized, tokens_view, Delimiter, Token, TokenModel};
use vstd::prelude::*;

verus! {

/// The token at `i` is the punctuation character `c`.
pub open spec fn punct_at(tokens: Seq<TokenModel>, i: int, c: char) -> bool {
    &&& 0 <= i < tokens.len()
    &&& tokens[i] matches TokenModel::Punct { ch, .. }
    &&& ch == c
}

/// The tokens at `i` and `i + 1` are `-` and `>` with nothing between them.
pub open spec fn arrow_at(tokens: Seq<TokenModel>, i: int) -> bool {
    &&& 0 <= i < tokens.len()
    &&& tokens[i] == (TokenModel::Punct { ch: '-', joint: true })
    &&& punct_at(tokens, i + 1, '>')
}

/// A rule's fields end at `i`: there stands a `;`, or the input ends.
pub open spec fn rule_ends_at(tokens: Seq<TokenModel>, i: int) -> bool {
    i >= tokens.len() || punct_at(tokens, i, ';')
}

/// The identifier at `i`, if the token there is one.
pub open spec fn identifier_at(tokens: Seq<TokenModel>, i: int) -> Option<IdentifierModel> {
    if 0 <= i < tokens.len() {
        match tokens[i] {
            TokenModel::Identifier(name) => Some(IdentifierModel { name, position: i }),
            _ => None,
        }
    } else {
        None
    }
}

/// The optional payload type at `i` and the index after it. A parenthesized
/// group there must be a type; any other token means that there is none.
pub open spec fn parsed_type(tokens: Seq<TokenModel>, i: int) -> Result<
    (Option<Seq<char>>, int),
    DiagnosticModel,
> {
    if 0 <= i < tokens.len() {
        match tokens[i] {
            TokenModel::Type(ty) => Ok((Some(ty), i + 1)),
            TokenModel::Group { delimiter: Delimiter::Parenthesis, .. } => Err(
                syntax_error(i, Expected::Type),
            ),
            _ => Ok((None, i)),
        }
    } else {
        Ok((None, i))
    }
}

/// The separator at `i` and the index after it. Where the rule ends at `i`
/// the field has none of its own and takes `inherited`.
pub open spec fn parsed_separator(tokens: Seq<TokenModel>, i: int, inherited: Separator) -> Result<
    (Separator, int),
    DiagnosticModel,
> {
    if punct_at(tokens, i, ',') {
        Ok((Separator::Comma, i + 1))
    } else if punct_at(tokens, i, '|') {
        Ok((Separator::Pipe, i + 1))
    } else if rule_ends_at(tokens, i) {
        Ok((inherited, i))
    } else {
        Err(syntax_error(i, Expected::Separator))
    }
}

/// The field that starts at `i` and the index after it.
pub open spec fn parsed_field(tokens: Seq<TokenModel>, i: int, inherited: Separator) -> Result<
    (FieldModel, int),
    DiagnosticModel,
> {
    match identifier_at(tokens, i) {
        None => Err(syntax_error(i, Expected::Identifier)),
        Some(name) => match parsed_type(tokens, i + 1) {
            Err(e) => Err(e),
            Ok((payload_type, j)) => match parsed_separator(tokens, j, inherited) {
                Err(e) => Err(e),
                Ok((separator, k)) => Ok((FieldModel { name, payload_type, separator }, k)),
            },
        },
    }
}

/// `front` put before the fields of a result.
pub open spec fn prepend_fields(
    front: Seq<FieldModel>,
    rest: Result<(Seq<FieldModel>, int), DiagnosticModel>,
) -> Result<(Seq<FieldModel>, int), DiagnosticModel> {
    match rest {
        Ok((fields, end)) => Ok((front + fields, end)),
        Err(e) => Err(e),
    }
}

/// The fields from `i` up to the end of the rule, and the index of that end.
pub open spec fn parsed_fields(tokens: Seq<TokenModel>, i: int, inherited: Separator) -> Result<
    (Seq<FieldModel>, int),
    DiagnosticModel,
>
    decreases tokens.len() - i,
{
    if rule_ends_at(tokens, i) {
        Ok((Seq::empty(), i))
    } else {
        match parsed_field(tokens, i, inherited) {
            Err(e) => Err(e),
            Ok((field, j)) => prepend_fields(
                seq![field],
                parsed_fields(tokens, j, field.separator),
            ),
        }
    }
}

/// The rule that starts at `i` and the index of its end.
pub open spec fn parsed_rule(tokens: Seq<TokenModel>, i: int) -> Result<
    (RuleModel, int),
    DiagnosticModel,
> {
    match identifier_at(tokens, i) {
        None => Err(syntax_error(i, Expected::Identifier)),
        Some(name) => if arrow_at(tokens, i + 1) {
            match parsed_fields(tokens, i + 3, Separator::Comma) {
                Err(e) => Err(e),
                Ok((fields, end)) => Ok((RuleModel { name, fields }, end)),
            }
        } else {
            Err(syntax_error(i + 1, Expected::Arrow))
        },
    }
}

/// `front` put before the rules of a result.
pub open spec fn prepend_rules(
    front: Seq<RuleModel>,
    rest: Result<Seq<RuleModel>, DiagnosticModel>,
) -> Result<Seq<RuleModel>, DiagnosticModel> {
    match rest {
        Ok(rules) => Ok(front + rules),
        Err(e) => Err(e),
    }
}

/// The rules from `i` to the end of the input: one rule, then either the
/// end, or a `;` and the end, or a `;` and more rules.
pub open spec fn parsed_rules(tokens: Seq<TokenModel>, i: int) -> Result<
    Seq<RuleModel>,
    DiagnosticModel,
>
    decreases tokens.len() - i,
    via parsed_rules_decreases
{
    match parsed_rule(tokens, i) {
        Err(e) => Err(e),
        Ok((rule, end)) => if end + 1 >= tokens.len() {
            Ok(seq![rule])
        } else {
            prepend_rules(seq![rule], parsed_rules(tokens, end + 1))
        },
    }
}

#[via_fn]
proof fn parsed_rules_decreases(tokens: Seq<TokenModel>, i: int) {
    lemma_fields_end(tokens, i + 3, Separator::Comma);
}

/// The fields of a rule end at or after the index where they start.
pub proof fn lemma_fields_end(tokens: Seq<TokenModel>, i: int, inherited: Separator)
    ensures
        parsed_fields(tokens, i, inherited) matches Ok((_, end)) ==> i <= end && rule_ends_at(
            tokens,
            end,
        ),
    decreases tokens.len() - i,
{
    if !rule_ends_at(tokens, i) {
        if let Ok((field, j)) = parsed_field(tokens, i, inherited) {
            lemma_fields_end(tokens, j, field.separator);
        }
    }
}

/// The grammar that the tokens spell, or the syntax error at the first token
/// that does not continue it.
pub open spec fn parsed_grammar(tokens: Seq<TokenModel>) -> Result<GrammarModel, DiagnosticModel> {
    match parsed_rules(tokens, 0) {
        Ok(rules) => Ok(GrammarModel { rules }),
        Err(e) => Err(e),
    }
}

/// What parsing makes of a text, given the tokens found in it.
pub open spec fn parsed_source(tokens: Option<Seq<TokenModel>>) -> Result<
    GrammarModel,
    DiagnosticModel,
> {
    match tokens {
        Some(tokens) => parsed_grammar(tokens),
        None => Err(syntax_error(0, Expected::Tokens)),
    }
}

fn is_punct(tokens: &Vec<Token>, i: usize, c: char) -> (found: bool)
    ensures
        found == punct_at(tokens_view(tokens@), i as int, c),
{
    if i < tokens.len() {
        match &tokens[i] {
            Token::Punct { ch, .. } => *ch == c,
            _ => false,
        }
    } else {
        false
    }
}

fn is_arrow(tokens: &Vec<Token>, i: usize) -> (found: bool)
    ensures
        found == arrow_at(tokens_view(tokens@), i as int),
{
    if i < tokens.len() {
        match &tokens[i] {
            Token::Punct { ch, joint } => *ch == '-' && *joint && is_punct(tokens, i + 1, '>'),
            _ => false,
        }
    } else {
        false
    }
}

fn rule_ends(tokens: &Vec<Token>, i: usize) -> (ends: bool)
    ensures
        ends == rule_ends_at(tokens_view(tokens@), i as int),
{
    i >= tokens.len() || is_punct(tokens, i, ';')
}

fn parse_identifier(tokens: &Vec<Token>, i: usize) -> (found: Option<Identifier>)
    ensures
        match found {
            Some(name) => identifier_at(tokens_view(tokens@), i as int) == Some(name@),
            None => identifier_at(tokens_view(tokens@), i as int) is None,
        },
{
    if i < tokens.len() {
        match &tokens[i] {
            Token::Identifier(name) => Some(Identifier { name: name.clone(), position: i }),
            _ => None,
        }
    } else {
        None
    }
}

/// Reads the optional parenthesized type at `i`.
///
/// Returns the type's text and the index after it, or `None` and `i` where
/// no parenthesized group stands at `i`. Fails on a parenthesized group that
/// is no type.
pub fn parse_type(tokens: &Vec<Token>, i: usize) -> (result: Result<
    (Option<String>, usize),
    Diagnostic,
>)
    ensures
        match result {
            Ok((payload_type, next)) => parsed_type(tokens_view(tokens@), i as int) == Ok::<
                _,
                DiagnosticModel,
            >((crate::grammar::text_view(payload_type), next as int)),
            Err(e) => parsed_type(tokens_view(tokens@), i as int) == Err::<
                (Option<Seq<char>>, int),
                _,
            >(e@),
        },
{
    if i < tokens.len() {
        match &tokens[i] {
            Token::Type(ty) => Ok((Some(ty.clone()), i + 1)),
            Token::Group { delimiter: Delimiter::Parenthesis, .. } => Err(
                Diagnostic::syntax(i, Expected::Type),
            ),
            _ => Ok((None, i)),
        }
    } else {
        Ok((None, i))
    }
}

/// Reads the separator at `i`.
///
/// Returns the separator and the index after it. Where the rule ends at `i`
/// it returns `inherited` and `i`. Fails on any other token.
pub fn parse_separator(tokens: &Vec<Token>, i: usize, inherited: Separator) -> (result: Result<
    (Separator, usize),
    Diagnostic,
>)
    ensures
        match result {
            Ok((separator, next)) => parsed_separator(tokens_view(tokens@), i as int, inherited)
                == Ok::<_, DiagnosticModel>((separator, next as int)),
            Err(e) => parsed_separator(tokens_view(tokens@), i as int, inherited) == Err::<
                (Separator, int),
                _,
            >(e@),
        },
{
    assert(tokens_view(tokens@).len() == tokens.len());
    if is_punct(tokens, i, ',') {
        Ok((Separator::Comma, i + 1))
    } else if is_punct(tokens, i, '|') {
        Ok((Separator::Pipe, i + 1))
    } else if rule_ends(tokens, i) {
        Ok((inherited, i))
    } else {
        Err(Diagnostic::syntax(i, Expected::Separator))
    }
}

impl Field {
    /// Parses the field that starts at `i`: a name, an optional
    /// parenthesized type and a separator.
    ///
    /// `inherited` is the separator that the field takes where it ends
    /// without one of its own. Returns the field and the index after it.
    pub fn parse(tokens: &Vec<Token>, i: usize, inherited: Separator) -> (result: Result<
        (Field, usize),
        Diagnostic,
    >)
        ensures
            match result {
                Ok((field, next)) => parsed_field(tokens_view(tokens@), i as int, inherited)
                    == Ok::<_, DiagnosticModel>((field@, next as int)),
                Err(e) => parsed_field(tokens_view(tokens@), i as int, inherited) == Err::<
                    (FieldModel, int),
                    _,
                >(e@),
            },
    {
        let name = match parse_identifier(tokens, i) {
            Some(name) => name,
            None => return Err(Diagnostic::syntax(i, Expected::Identifier)),
        };
        assert(tokens_view(tokens@).len() == tokens.len());
        let (payload_type, after_type) = match parse_type(tokens, i + 1) {
            Ok(found) => found,
            Err(e) => return Err(e),
        };
        let (separator, next) = match parse_separator(tokens, after_type, inherited) {
            Ok(found) => found,
            Err(e) => return Err(e),
        };
        Ok((Field { name, payload_type, separator }, next))
    }
}

/// Parses the fields from `start` up to the end of the rule, which is a `;`
/// or the end of the input, and returns them with the index of that end.
pub fn parse_fields(tokens: &Vec<Token>, start: usize) -> (result: Result<
    (Vec<Field>, usize),
    Diagnostic,
>)
    ensures
        match result {
            Ok((fields, end)) => parsed_fields(
                tokens_view(tokens@),
                start as int,
                Separator::Comma,
            ) == Ok::<_, DiagnosticModel>((fields_view(fields@), end as int)),
            Err(e) => parsed_fields(tokens_view(tokens@), start as int, Separator::Comma) == Err::<
                (Seq<FieldModel>, int),
                _,
            >(e@),
        },
{
    let ghost model = tokens_view(tokens@);
    let mut fields: Vec<Field> = Vec::new();
    let mut i: usize = start;
    let mut inherited = Separator::Comma;
    while !rule_ends(tokens, i)
        invariant
            model == tokens_view(tokens@),
            parsed_fields(model, start as int, Separator::Comma) == prepend_fields(
                fields_view(fields@),
                parsed_fields(model, i as int, inherited),
            ),
        decreases tokens.len() - i,
    {
        match Field::parse(tokens, i, inherited) {
            Err(e) => {
                return Err(e);
            },
            Ok((field, next)) => {
                proof {
                    let rest = parsed_fields(model, next as int, field.separator);
                    assert(fields_view(fields@.push(field)) =~= fields_view(fields@).push(field@));
                    if let Ok((more, end)) = rest {
                        assert(fields_view(fields@) + (seq![field@] + more) =~= fields_view(
                            fields@,
                        ).push(field@) + more);
                    }
                }
                inherited = field.separator;
                fields.push(field);
                i = next;
            },
        }
    }
    proof {
        assert(fields_view(fields@) + Seq::<FieldModel>::empty() =~= fields_view(fields@));
    }
    Ok((fields, i))
}

impl Rule {
    /// Parses the rule that starts at `i`: a name, `->` and the fields up to
    /// the end of the rule. Returns the rule and the index of its end.
    pub fn parse(tokens: &Vec<Token>, i: usize) -> (result: Result<(Rule, usize), Diagnostic>)
        ensures
            match result {
                Ok((rule, end)) => parsed_rule(tokens_view(tokens@), i as int) == Ok::<
                    _,
                    DiagnosticModel,
                >((rule@, end as int)),
                Err(e) => parsed_rule(tokens_view(tokens@), i as int) == Err::<(RuleModel, int), _>(
                    e@,
                ),
            },
    {
        let name = match parse_identifier(tokens, i) {
            Some(name) => name,
            None => return Err(Diagnostic::syntax(i, Expected::Identifier)),
        };
        assert(tokens_view(tokens@).len() == tokens.len());
        if !is_arrow(tokens, i + 1) {
            return Err(Diagnostic::syntax(i + 1, Expected::Arrow));
        }
        match parse_fields(tokens, i + 3) {
            Ok((fields, end)) => Ok((Rule { name, fields }, end)),
            Err(e) => Err(e),
        }
    }
}

impl Grammar {
    /// Parses a whole token sequence into a grammar.
    ///
    /// Fails with the syntax error at the first token that cannot continue
    /// the grammar; its position is the length of the sequence where the
    /// input ends too early.
    pub fn parse(tokens: &Vec<Token>) -> (result: Result<Grammar, Diagnostic>)
        ensures
            match result {
                Ok(grammar) => parsed_grammar(tokens_view(tokens@)) == Ok::<_, DiagnosticModel>(
                    grammar@,
                ),
                Err(e) => parsed_grammar(tokens_view(tokens@)) == Err::<GrammarModel, _>(e@),
            },
    {
        let ghost model = tokens_view(tokens@);
        let mut rules: Vec<Rule> = Vec::new();
        let mut i: usize = 0;
        loop
            invariant
                model == tokens_view(tokens@),
                parsed_rules(model, 0) == prepend_rules(rules_view(rules@), parsed_rules(
                    model,
                    i as int,
                )),
            decreases tokens.len() - i,
        {
            match Rule::parse(tokens, i) {
                Err(e) => {
                    return Err(e);
                },
                Ok((rule, end)) => {
                    proof {
                        lemma_fields_end(model, i + 3, Separator::Comma);
                        assert(rules_view(rules@.push(rule)) =~= rules_view(rules@).push(rule@));
                        assert(rules_view(rules@) + seq![rule@] =~= rules_view(rules@).push(rule@));
                        if end + 1 < tokens.len() {
                            if let Ok(more) = parsed_rules(model, end + 1) {
                                assert(rules_view(rules@) + (seq![rule@] + more) =~= rules_view(
                                    rules@,
                                ).push(rule@) + more);
                            }
                        }
                    }
                    rules.push(rule);
                    if end >= tokens.len() || end + 1 >= tokens.len() {
                        return Ok(Grammar { rules });
                    }
                    i = end + 1;
                },
            }
        }
    }

    /// Tokenizes a text and parses the tokens.
    ///
    /// A text that cannot be tokenized is a syntax error at position 0.
    pub fn parse_str(text: &str) -> (result: Result<Grammar, Diagnostic>)
        ensures
            match result {
                Ok(grammar) => parsed_source(tokenized(lexed(text@))) == Ok::<_, DiagnosticModel>(
                    grammar@,
                ),
                Err(e) => parsed_source(tokenized(lexed(text@))) == Err::<GrammarModel, _>(e@),
            },
    {
        match tokenize(text) {
            Some(tokens) => Grammar::parse(&tokens),
            None => Err(Diagnostic::syntax(0, Expected::Tokens)),
        }
    }
}

} // verus!
