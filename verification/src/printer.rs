//! The canonical printer: from a [`Grammar`] back to tokens and to text.
//!
//! Every rule is printed as its name, `->`, its fields and a closing `;`.
//! Every field is printed with its own separator, the last one too, so that
//! nothing about a field depends on its neighbours.

use crate::grammar::{
    fields_view, rules_view, Field, FieldModel, Grammar, GrammarModel, Rule, RuleModel, Separator,
};
use crate::render::{concat_texts, texts_view};
use crate::token::{tokens_view, Token, TokenModel};
use vstd::prelude::*;
use vstd::string::*;

verus! {

/// The character of a separator.
pub open spec fn separator_char(separator: Separator) -> char {
    match separator {
        Separator::Comma => ',',
        Separator::Pipe => '|',
    }
}

/// The punctuation character `ch`, followed by something else than
/// punctuation.
pub open spec fn punct(ch: char) -> TokenModel {
    TokenModel::Punct { ch, joint: false }
}

/// The tokens of a field: its name, its payload type in parentheses if it
/// has one, and its separator.
pub open spec fn field_tokens(field: FieldModel) -> Seq<TokenModel> {
    match field.payload_type {
        Some(ty) => seq![
            TokenModel::Identifier(field.name.name),
            TokenModel::Type(ty),
            punct(separator_char(field.separator)),
        ],
        None => seq![
            TokenModel::Identifier(field.name.name),
            punct(separator_char(field.separator)),
        ],
    }
}

/// The tokens of a sequence of fields.
pub open spec fn fields_tokens(fields: Seq<FieldModel>) -> Seq<TokenModel> {
    fields.map_values(|f: FieldModel| field_tokens(f)).flatten()
}

/// The tokens that open a rule: its name and `->`.
pub open spec fn head_tokens(rule: RuleModel) -> Seq<TokenModel> {
    seq![
        TokenModel::Identifier(rule.name.name),
        TokenModel::Punct { ch: '-', joint: true },
        punct('>'),
    ]
}

/// The tokens of a rule: its head, its fields and `;`.
pub open spec fn rule_tokens(rule: RuleModel) -> Seq<TokenModel> {
    head_tokens(rule) + fields_tokens(rule.fields) + seq![punct(';')]
}

/// The tokens of a sequence of rules.
pub open spec fn rules_tokens(rules: Seq<RuleModel>) -> Seq<TokenModel> {
    rules.map_values(|r: RuleModel| rule_tokens(r)).flatten()
}

/// The canonical tokens of a grammar.
pub open spec fn grammar_tokens(grammar: GrammarModel) -> Seq<TokenModel> {
    rules_tokens(grammar.rules)
}

fn push_punct(out: &mut Vec<Token>, ch: char, joint: bool)
    ensures
        tokens_view(final(out)@) == tokens_view(old(out)@).push(TokenModel::Punct { ch, joint }),
{
    out.push(Token::Punct { ch, joint });
    assert(tokens_view(out@) =~= tokens_view(old(out)@).push(TokenModel::Punct { ch, joint }));
}

fn push_ident(out: &mut Vec<Token>, name: &String)
    ensures
        tokens_view(final(out)@) == tokens_view(old(out)@).push(TokenModel::Identifier(name@)),
{
    out.push(Token::Identifier(name.clone()));
    assert(tokens_view(out@) =~= tokens_view(old(out)@).push(TokenModel::Identifier(name@)));
}

fn push_field(out: &mut Vec<Token>, field: &Field)
    ensures
        tokens_view(final(out)@) == tokens_view(old(out)@) + field_tokens(field@),
{
    push_ident(out, &field.name.name);
    match &field.payload_type {
        Some(ty) => {
            let ghost before = tokens_view(out@);
            out.push(Token::Type(ty.clone()));
            assert(tokens_view(out@) =~= before.push(TokenModel::Type(ty@)));
        },
        None => {},
    }
    match field.separator {
        Separator::Comma => push_punct(out, ',', false),
        Separator::Pipe => push_punct(out, '|', false),
    }
    assert(tokens_view(out@) =~= tokens_view(old(out)@) + field_tokens(field@));
}

fn push_rule(out: &mut Vec<Token>, rule: &Rule)
    ensures
        tokens_view(final(out)@) == tokens_view(old(out)@) + rule_tokens(rule@),
{
    push_ident(out, &rule.name.name);
    push_punct(out, '-', true);
    push_punct(out, '>', false);
    let ghost head = tokens_view(out@);
    assert(head =~= tokens_view(old(out)@) + head_tokens(rule@));
    let ghost model = fields_view(rule.fields@);
    let ghost parts = model.map_values(|f: FieldModel| field_tokens(f));
    let mut j: usize = 0;
    while j < rule.fields.len()
        invariant
            j <= rule.fields.len(),
            model == fields_view(rule.fields@),
            parts == model.map_values(|f: FieldModel| field_tokens(f)),
            tokens_view(out@) == head + parts.take(j as int).flatten(),
        decreases rule.fields.len() - j,
    {
        proof {
            assert(model[j as int] == rule.fields[j as int]@);
            assert(parts.take(j + 1) =~= parts.take(j as int).push(parts[j as int]));
            parts.take(j as int).lemma_flatten_push(parts[j as int]);
        }
        push_field(out, &rule.fields[j]);
        j += 1;
    }
    proof {
        assert(parts.take(rule.fields.len() as int) =~= parts);
    }
    push_punct(out, ';', false);
    assert(tokens_view(out@) =~= tokens_view(old(out)@) + rule_tokens(rule@));
}

/// Prints a grammar as its canonical tokens.
pub fn canonical_tokens(grammar: &Grammar) -> (tokens: Vec<Token>)
    ensures
        tokens_view(tokens@) == grammar_tokens(grammar@),
{
    let ghost model = rules_view(grammar.rules@);
    let ghost parts = model.map_values(|r: RuleModel| rule_tokens(r));
    let mut tokens: Vec<Token> = Vec::new();
    let mut i: usize = 0;
    assert(tokens_view(tokens@) =~= parts.take(0).flatten());
    while i < grammar.rules.len()
        invariant
            i <= grammar.rules.len(),
            model == rules_view(grammar.rules@),
            parts == model.map_values(|r: RuleModel| rule_tokens(r)),
            tokens_view(tokens@) == parts.take(i as int).flatten(),
        decreases grammar.rules.len() - i,
    {
        proof {
            assert(model[i as int] == grammar.rules[i as int]@);
            assert(parts.take(i + 1) =~= parts.take(i as int).push(parts[i as int]));
            parts.take(i as int).lemma_flatten_push(parts[i as int]);
        }
        push_rule(&mut tokens, &grammar.rules[i]);
        i += 1;
    }
    proof {
        assert(parts.take(grammar.rules.len() as int) =~= parts);
    }
    tokens
}

/// The text of a separator.
pub open spec fn separator_text(separator: Separator) -> Seq<char> {
    match separator {
        Separator::Comma => ","@,
        Separator::Pipe => "|"@,
    }
}

/// The text of a field: a space, its name, its payload type in parentheses
/// if it has one, and its separator.
pub open spec fn field_text(field: FieldModel) -> Seq<char> {
    match field.payload_type {
        Some(ty) => " "@ + field.name.name + "("@ + ty + ")"@ + separator_text(field.separator),
        None => " "@ + field.name.name + separator_text(field.separator),
    }
}

/// The text of a rule, on a line of its own: its name, ` ->`, its fields
/// and ` ;`.
pub open spec fn rule_text(rule: RuleModel) -> Seq<char> {
    rule.name.name + " ->"@ + rule.fields.map_values(|f: FieldModel| field_text(f)).flatten()
        + " ;\n"@
}

/// The canonical text of a grammar: the text of each rule, in order.
pub open spec fn grammar_text(grammar: GrammarModel) -> Seq<char> {
    grammar.rules.map_values(|r: RuleModel| rule_text(r)).flatten()
}

fn print_field(field: &Field) -> (text: String)
    ensures
        text@ == field_text(field@),
{
    let mut text = " ".to_owned();
    text.append(field.name.name.as_str());
    match &field.payload_type {
        Some(ty) => {
            text.append("(");
            text.append(ty.as_str());
            text.append(")");
        },
        None => {},
    }
    match field.separator {
        Separator::Comma => text.append(","),
        Separator::Pipe => text.append("|"),
    }
    text
}

fn print_rule(rule: &Rule) -> (text: String)
    ensures
        text@ == rule_text(rule@),
{
    let ghost model = fields_view(rule.fields@);
    let mut parts: Vec<String> = Vec::new();
    let mut j: usize = 0;
    while j < rule.fields.len()
        invariant
            j <= rule.fields.len(),
            model == fields_view(rule.fields@),
            parts.len() == j,
            forall|k: int| 0 <= k < j ==> (#[trigger] parts[k])@ == field_text(model[k]),
        decreases rule.fields.len() - j,
    {
        assert(model[j as int] == rule.fields[j as int]@);
        parts.push(print_field(&rule.fields[j]));
        j += 1;
    }
    assert(texts_view(parts@) =~= model.map_values(|f: FieldModel| field_text(f)));
    let mut text = rule.name.name.clone();
    text.append(" ->");
    text.append(concat_texts(&parts).as_str());
    text.append(" ;\n");
    text
}

/// Prints a grammar as its canonical text, one rule per line.
///
/// The text is laid out so that the tokenizer can read the canonical tokens
/// back from it where the names are identifiers and the payload types are
/// type expressions as the tokenizer prints them. Nothing is proved of
/// that: what is proved is the text itself.
pub fn canonical_text(grammar: &Grammar) -> (text: String)
    ensures
        text@ == grammar_text(grammar@),
{
    let ghost model = rules_view(grammar.rules@);
    let mut parts: Vec<String> = Vec::new();
    let mut i: usize = 0;
    while i < grammar.rules.len()
        invariant
            i <= grammar.rules.len(),
            model == rules_view(grammar.rules@),
            parts.len() == i,
            forall|k: int| 0 <= k < i ==> (#[trigger] parts[k])@ == rule_text(model[k]),
        decreases grammar.rules.len() - i,
    {
        assert(model[i as int] == grammar.rules[i as int]@);
        parts.push(print_rule(&grammar.rules[i]));
        i += 1;
    }
    assert(texts_view(parts@) =~= model.map_values(|r: RuleModel| rule_text(r)));
    concat_texts(&parts)
}

} // verus!
