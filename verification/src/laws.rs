//! Laws that relate the printer, the parser, the validator and the
//! generator.

use crate::compiler::compiled;
use crate::diagnostic::{DiagnosticModel, ErrorKind, Expected};
use crate::generator::{
    declaration_of, declarations_of, members_of, variants_of, DeclarationModel,
};
use crate::grammar::{FieldModel, GrammarModel, IdentifierModel, RuleModel, Separator};
use crate::parser::{
    arrow_at, lemma_fields_end, parsed_field, parsed_fields, parsed_grammar, parsed_rule,
    parsed_rules, rule_ends_at,
};
use crate::printer::{
    field_tokens, fields_tokens, grammar_tokens, head_tokens, punct, rule_tokens, rules_tokens,
};
use crate::render::{join, rendered, rendered_all};
use crate::token::{
    classified, classified_all, declassified, declassified_all, is_identifier, is_type, tokenized,
    TokenModel,
};
use crate::validator::{
    first_empty_rule, first_mixed_rule, first_untyped_rule, lemma_first_empty_rule,
    lemma_first_mixed_rule, lemma_first_untyped_rule, lemma_no_violation_iff_valid, validated,
};
use vstd::prelude::*;

verus! {

impl FieldModel {
    /// The two fields differ at most in the position of their names.
    pub open spec fn equivalent(self, other: FieldModel) -> bool {
        &&& self.name.name == other.name.name
        &&& self.payload_type == other.payload_type
        &&& self.separator == other.separator
    }
}

/// The two sequences of fields are equivalent field by field.
pub open spec fn equivalent_fields(a: Seq<FieldModel>, b: Seq<FieldModel>) -> bool {
    &&& a.len() == b.len()
    &&& forall|j: int| 0 <= j < a.len() ==> (#[trigger] a[j]).equivalent(b[j])
}

impl RuleModel {
    /// The two rules differ at most in the positions of their names.
    pub open spec fn equivalent(self, other: RuleModel) -> bool {
        &&& self.name.name == other.name.name
        &&& equivalent_fields(self.fields, other.fields)
    }
}

/// The two sequences of rules are equivalent rule by rule.
pub open spec fn equivalent_rules(a: Seq<RuleModel>, b: Seq<RuleModel>) -> bool {
    &&& a.len() == b.len()
    &&& forall|i: int| 0 <= i < a.len() ==> (#[trigger] a[i]).equivalent(b[i])
}

impl GrammarModel {
    /// The two grammars have the same structure: they differ at most in the
    /// positions of their names.
    pub open spec fn equivalent(self, other: GrammarModel) -> bool {
        equivalent_rules(self.rules, other.rules)
    }
}

/// The tokens from index `i` on start with `part`.
pub open spec fn has_at(tokens: Seq<TokenModel>, i: int, part: Seq<TokenModel>) -> bool {
    &&& 0 <= i
    &&& i + part.len() <= tokens.len()
    &&& forall|k: int| 0 <= k < part.len() ==> tokens[i + k] == #[trigger] part[k]
}

proof fn lemma_has_at_split(
    tokens: Seq<TokenModel>,
    i: int,
    front: Seq<TokenModel>,
    back: Seq<TokenModel>,
)
    requires
        has_at(tokens, i, front + back),
    ensures
        has_at(tokens, i, front),
        has_at(tokens, i + front.len(), back),
{
    let whole = front + back;
    assert forall|k: int| 0 <= k < front.len() implies tokens[i + k] == #[trigger] front[k] by {
        assert(whole[k] == front[k]);
    }
    assert forall|k: int| 0 <= k < back.len() implies tokens[i + front.len() + k]
        == #[trigger] back[k] by {
        assert(whole[front.len() + k] == back[k]);
    }
}

proof fn lemma_fields_tokens_unfold(fields: Seq<FieldModel>)
    requires
        fields.len() > 0,
    ensures
        fields_tokens(fields) == field_tokens(fields[0]) + fields_tokens(fields.drop_first()),
{
    let parts = fields.map_values(|f: FieldModel| field_tokens(f));
    assert(parts.drop_first() =~= fields.drop_first().map_values(|f: FieldModel| field_tokens(f)));
}

proof fn lemma_rules_tokens_unfold(rules: Seq<RuleModel>)
    requires
        rules.len() > 0,
    ensures
        rules_tokens(rules) == rule_tokens(rules[0]) + rules_tokens(rules.drop_first()),
{
    let parts = rules.map_values(|r: RuleModel| rule_tokens(r));
    assert(parts.drop_first() =~= rules.drop_first().map_values(|r: RuleModel| rule_tokens(r)));
}

/// Parsing the canonical tokens of a field gives the field back.
proof fn lemma_field_round_trip(
    tokens: Seq<TokenModel>,
    i: int,
    field: FieldModel,
    inherited: Separator,
)
    requires
        has_at(tokens, i, field_tokens(field)),
    ensures
        parsed_field(tokens, i, inherited) matches Ok((parsed, next)) && next == i + field_tokens(
            field,
        ).len() && parsed.equivalent(field) && i < next,
        !rule_ends_at(tokens, i),
{
    let part = field_tokens(field);
    assert(tokens[i + 0] == part[0]);
    assert(tokens[i + 1] == part[1]);
    match field.payload_type {
        Some(ty) => {
            assert(tokens[i + 2] == part[2]);
        },
        None => {},
    }
}

/// Parsing the canonical tokens of fields gives the fields back.
proof fn lemma_fields_round_trip(
    tokens: Seq<TokenModel>,
    i: int,
    fields: Seq<FieldModel>,
    inherited: Separator,
)
    requires
        has_at(tokens, i, fields_tokens(fields)),
        rule_ends_at(tokens, i + fields_tokens(fields).len()),
    ensures
        parsed_fields(tokens, i, inherited) matches Ok((parsed, end)) && end == i + fields_tokens(
            fields,
        ).len() && equivalent_fields(parsed, fields),
    decreases fields.len(),
{
    if fields.len() == 0 {
        assert(fields_tokens(fields) =~= Seq::<TokenModel>::empty());
    } else {
        let first = fields[0];
        let rest = fields.drop_first();
        lemma_fields_tokens_unfold(fields);
        lemma_has_at_split(tokens, i, field_tokens(first), fields_tokens(rest));
        lemma_field_round_trip(tokens, i, first, inherited);
        let next = i + field_tokens(first).len();
        lemma_fields_round_trip(tokens, next, rest, first.separator);
        let (parsed_first, _) = parsed_field(tokens, i, inherited)->Ok_0;
        let (parsed_rest, end) = parsed_fields(tokens, next, first.separator)->Ok_0;
        let parsed = seq![parsed_first] + parsed_rest;
        assert(parsed_fields(tokens, i, inherited) == Ok::<_, DiagnosticModel>((parsed, end)));
        assert forall|j: int| 0 <= j < parsed.len() implies (#[trigger] parsed[j]).equivalent(
            fields[j],
        ) by {
            if j > 0 {
                assert(parsed[j] == parsed_rest[j - 1]);
                assert(fields[j] == rest[j - 1]);
            }
        }
    }
}

/// Parsing the canonical tokens of a rule gives the rule back, and ends at
/// the rule's closing `;`.
proof fn lemma_rule_round_trip(tokens: Seq<TokenModel>, i: int, rule: RuleModel)
    requires
        has_at(tokens, i, rule_tokens(rule)),
    ensures
        parsed_rule(tokens, i) matches Ok((parsed, end)) && end == i + rule_tokens(rule).len() - 1
            && parsed.equivalent(rule),
{
    let head = head_tokens(rule);
    let body = fields_tokens(rule.fields);
    let close = seq![punct(';')];
    lemma_has_at_split(tokens, i, head + body, close);
    lemma_has_at_split(tokens, i, head, body);
    assert(tokens[i + 0] == head[0]);
    assert(tokens[i + 1] == head[1]);
    assert(tokens[i + 2] == head[2]);
    assert(tokens[i + 3 + body.len() + 0] == close[0]);
    assert(arrow_at(tokens, i + 1));
    lemma_fields_round_trip(tokens, i + 3, rule.fields, Separator::Comma);
}

/// Parsing the canonical tokens of rules, up to the end of the input, gives
/// the rules back.
proof fn lemma_rules_round_trip(tokens: Seq<TokenModel>, i: int, rules: Seq<RuleModel>)
    requires
        rules.len() > 0,
        has_at(tokens, i, rules_tokens(rules)),
        i + rules_tokens(rules).len() == tokens.len(),
    ensures
        parsed_rules(tokens, i) matches Ok(parsed) && equivalent_rules(parsed, rules),
    decreases rules.len(),
{
    let first = rules[0];
    let rest = rules.drop_first();
    lemma_rules_tokens_unfold(rules);
    lemma_has_at_split(tokens, i, rule_tokens(first), rules_tokens(rest));
    lemma_rule_round_trip(tokens, i, first);
    let (parsed_first, end) = parsed_rule(tokens, i)->Ok_0;
    if rest.len() == 0 {
        assert(rules_tokens(rest) =~= Seq::<TokenModel>::empty());
        let parsed = seq![parsed_first];
        assert(parsed_rules(tokens, i) == Ok::<_, DiagnosticModel>(parsed));
    } else {
        lemma_rules_tokens_unfold(rest);
        lemma_rules_round_trip(tokens, end + 1, rest);
        let parsed_rest = parsed_rules(tokens, end + 1)->Ok_0;
        let parsed = seq![parsed_first] + parsed_rest;
        assert(parsed_rules(tokens, i) == Ok::<_, DiagnosticModel>(parsed));
        assert forall|k: int| 0 <= k < parsed.len() implies (#[trigger] parsed[k]).equivalent(
            rules[k],
        ) by {
            if k > 0 {
                assert(parsed[k] == parsed_rest[k - 1]);
                assert(rules[k] == rest[k - 1]);
            }
        }
    }
}

/// Printing and parsing give the grammar back: the canonical tokens of a
/// grammar with at least one rule parse, and the parsed grammar has the
/// structure of the one that was printed.
pub proof fn law_parse_inverts_print(grammar: GrammarModel)
    requires
        grammar.rules.len() > 0,
    ensures
        parsed_grammar(grammar_tokens(grammar)) matches Ok(parsed) && parsed.equivalent(grammar),
{
    let tokens = grammar_tokens(grammar);
    lemma_rules_round_trip(tokens, 0, grammar.rules);
}

/// Validation looks at the structure of a grammar only: of two equivalent
/// grammars, both are valid or neither is.
pub proof fn lemma_equivalent_validity(a: GrammarModel, b: GrammarModel)
    requires
        a.equivalent(b),
    ensures
        a.valid() == b.valid(),
{
    if a.valid() {
        assert forall|i: int| 0 <= i < b.rules.len() implies (#[trigger] b.rules[i]).valid() by {
            lemma_equivalent_rule_validity(a.rules[i], b.rules[i]);
        }
    }
    if b.valid() {
        assert forall|i: int| 0 <= i < a.rules.len() implies (#[trigger] a.rules[i]).valid() by {
            assert(a.rules[i].equivalent(b.rules[i]));
            lemma_equivalent_rule_validity(a.rules[i], b.rules[i]);
        }
    }
}

proof fn lemma_equivalent_rule_validity(a: RuleModel, b: RuleModel)
    requires
        a.equivalent(b),
    ensures
        a.valid() == b.valid(),
{
    if a.fields.len() > 0 {
        assert(a.fields[0].equivalent(b.fields[0]));
        if a.valid() {
            assert forall|j: int| 0 <= j < b.fields.len() implies (#[trigger] b.fields[j]).separator
                == b.fields[0].separator && (b.kind() == crate::grammar::RuleKind::Record
                ==> b.fields[j].payload_type is Some) by {
                assert(a.fields[j].equivalent(b.fields[j]));
            }
        }
        if b.valid() {
            assert forall|j: int| 0 <= j < a.fields.len() implies (#[trigger] a.fields[j]).separator
                == a.fields[0].separator && (a.kind() == crate::grammar::RuleKind::Record
                ==> a.fields[j].payload_type is Some) by {
                assert(a.fields[j].equivalent(b.fields[j]));
            }
        }
    }
}

/// Generation looks at the structure of a grammar only: equivalent valid
/// grammars have the same declarations.
pub proof fn lemma_equivalent_declarations(a: GrammarModel, b: GrammarModel)
    requires
        a.equivalent(b),
        a.valid(),
    ensures
        declarations_of(a) == declarations_of(b),
{
    assert forall|i: int| 0 <= i < a.rules.len() implies declaration_of(a.rules[i])
        == declaration_of(b.rules[i]) by {
        let x = a.rules[i];
        let y = b.rules[i];
        assert(x.valid());
        assert(x.equivalent(y));
        assert(x.fields[0].equivalent(y.fields[0]));
        assert forall|j: int| 0 <= j < x.fields.len() implies crate::generator::member_of(
            x.fields[j],
        ) == crate::generator::member_of(y.fields[j]) && crate::generator::variant_of(x.fields[j])
            == crate::generator::variant_of(y.fields[j]) by {
            assert(x.fields[j].equivalent(y.fields[j]));
        }
        assert(members_of(x.fields) =~= members_of(y.fields));
        assert(variants_of(x.fields) =~= variants_of(y.fields));
    }
    assert(declarations_of(a) =~= declarations_of(b));
}

/// The round trip: the canonical tokens of a valid grammar with at least
/// one rule parse to a grammar of the same structure, which passes
/// validation, and compile to the declarations of the grammar that was
/// printed.
pub proof fn law_round_trip(grammar: GrammarModel)
    requires
        grammar.rules.len() > 0,
        grammar.valid(),
    ensures
        parsed_grammar(grammar_tokens(grammar)) matches Ok(parsed) && parsed.equivalent(grammar)
            && validated(parsed) == Ok::<_, DiagnosticModel>(parsed),
        compiled(grammar_tokens(grammar)) == Ok::<_, DiagnosticModel>(
            declarations_of(grammar),
        ),
{
    law_parse_inverts_print(grammar);
    let parsed = parsed_grammar(grammar_tokens(grammar))->Ok_0;
    lemma_equivalent_validity(parsed, grammar);
    lemma_no_violation_iff_valid(parsed);
    lemma_equivalent_declarations(grammar, parsed);
}

/// Validation is idempotent: a grammar that validation returns is returned
/// again, without a diagnostic, when it is validated once more.
pub proof fn law_validation_idempotent(grammar: GrammarModel)
    ensures
        validated(grammar) matches Ok(valid) ==> validated(valid) == Ok::<_, DiagnosticModel>(
            valid,
        ),
{
}

/// Generation keeps the order of declaration: a grammar has one declaration
/// per rule, the declaration at each index is that of the rule at the same
/// index, and the declarations of two lists of rules, one after the other,
/// are the declarations of the first followed by those of the second.
pub proof fn law_generation_keeps_order(first: Seq<RuleModel>, second: Seq<RuleModel>)
    ensures
        declarations_of(GrammarModel { rules: first }).len() == first.len(),
        forall|i: int|
            0 <= i < first.len() ==> #[trigger] declarations_of(GrammarModel { rules: first })[i]
                == declaration_of(first[i]),
        declarations_of(GrammarModel { rules: first + second }) == declarations_of(
            GrammarModel { rules: first },
        ) + declarations_of(GrammarModel { rules: second }),
{
    assert(declarations_of(GrammarModel { rules: first + second }) =~= declarations_of(
        GrammarModel { rules: first },
    ) + declarations_of(GrammarModel { rules: second }));
}

impl FieldModel {
    /// The field can be written down: its name is an identifier and its
    /// payload type, if it has one, is a type.
    pub open spec fn well_formed(self) -> bool {
        &&& is_identifier(self.name.name)
        &&& self.payload_type matches Some(ty) ==> is_type(ty)
    }
}

impl RuleModel {
    /// The rule can be written down: its name is an identifier and its
    /// fields are well formed.
    pub open spec fn well_formed(self) -> bool {
        &&& is_identifier(self.name.name)
        &&& forall|j: int| 0 <= j < self.fields.len() ==> (#[trigger] self.fields[j]).well_formed()
    }
}

impl GrammarModel {
    /// The grammar can be written down: its rules are well formed.
    pub open spec fn well_formed(self) -> bool {
        forall|i: int| 0 <= i < self.rules.len() ==> (#[trigger] self.rules[i]).well_formed()
    }
}

/// The token is what classifying its own lexeme gives.
pub open spec fn stable(token: TokenModel) -> bool {
    classified(declassified(token)) == token
}

/// Every token of the sequence is stable.
pub open spec fn all_stable(tokens: Seq<TokenModel>) -> bool {
    forall|k: int| 0 <= k < tokens.len() ==> stable(#[trigger] tokens[k])
}

proof fn lemma_flatten_all_stable(parts: Seq<Seq<TokenModel>>)
    requires
        forall|i: int| 0 <= i < parts.len() ==> all_stable(#[trigger] parts[i]),
    ensures
        all_stable(parts.flatten()),
    decreases parts.len(),
{
    if parts.len() > 0 {
        let first = parts.first();
        let rest = parts.drop_first();
        assert(all_stable(first));
        assert forall|i: int| 0 <= i < rest.len() implies all_stable(#[trigger] rest[i]) by {
            assert(rest[i] == parts[i + 1]);
        }
        lemma_flatten_all_stable(rest);
        let whole = first + rest.flatten();
        assert forall|k: int| 0 <= k < whole.len() implies stable(#[trigger] whole[k]) by {
            if k < first.len() {
                assert(whole[k] == first[k]);
            } else {
                assert(whole[k] == rest.flatten()[k - first.len()]);
            }
        }
    }
}

proof fn lemma_rule_tokens_stable(rule: RuleModel)
    requires
        rule.well_formed(),
    ensures
        all_stable(rule_tokens(rule)),
{
    let parts = rule.fields.map_values(|f: FieldModel| field_tokens(f));
    assert forall|j: int| 0 <= j < parts.len() implies all_stable(#[trigger] parts[j]) by {
        assert(rule.fields[j].well_formed());
    }
    lemma_flatten_all_stable(parts);
    let head = head_tokens(rule);
    let body = fields_tokens(rule.fields);
    let close = seq![punct(';')];
    let whole = rule_tokens(rule);
    assert forall|k: int| 0 <= k < whole.len() implies stable(#[trigger] whole[k]) by {
        if k < head.len() {
            assert(whole[k] == head[k]);
        } else if k < head.len() + body.len() {
            assert(whole[k] == body[k - head.len()]);
        } else {
            assert(whole[k] == close[k - head.len() - body.len()]);
        }
    }
}

/// The canonical tokens of a grammar that can be written down are the
/// tokens that the tokenizer makes of their own lexemes: where a text has
/// those lexemes, it has the canonical tokens.
pub proof fn law_canonical_tokens_are_tokenized(grammar: GrammarModel)
    requires
        grammar.well_formed(),
    ensures
        tokenized(Some(declassified_all(grammar_tokens(grammar)))) == Some(grammar_tokens(grammar)),
{
    let parts = grammar.rules.map_values(|r: RuleModel| rule_tokens(r));
    assert forall|i: int| 0 <= i < parts.len() implies all_stable(#[trigger] parts[i]) by {
        lemma_rule_tokens_stable(grammar.rules[i]);
    }
    lemma_flatten_all_stable(parts);
    let tokens = grammar_tokens(grammar);
    assert(classified_all(declassified_all(tokens)) =~= tokens);
}

/// The name stands at its position: the token there is the identifier of
/// that name.
pub open spec fn located_at(tokens: Seq<TokenModel>, name: IdentifierModel) -> bool {
    &&& 0 <= name.position < tokens.len()
    &&& tokens[name.position] == TokenModel::Identifier(name.name)
}

/// The rule's name and the names of its fields stand at their positions.
pub open spec fn rule_located_at(tokens: Seq<TokenModel>, rule: RuleModel) -> bool {
    &&& located_at(tokens, rule.name)
    &&& forall|j: int| 0 <= j < rule.fields.len() ==> located_at(tokens, #[trigger] rule.fields[j].name)
}

/// The error is a syntax error of the parser at a token of the input or at
/// its end.
pub open spec fn syntax_error_within(tokens: Seq<TokenModel>, e: DiagnosticModel) -> bool {
    &&& e.kind is Syntax
    &&& e.kind != ErrorKind::Syntax(Expected::Tokens)
    &&& e.identifier is None
    &&& 0 <= e.position <= tokens.len()
}

proof fn lemma_fields_located(tokens: Seq<TokenModel>, i: int, inherited: Separator)
    requires
        0 <= i,
    ensures
        match parsed_fields(tokens, i, inherited) {
            Ok((fields, _)) => forall|j: int|
                0 <= j < fields.len() ==> located_at(tokens, #[trigger] fields[j].name),
            Err(e) => syntax_error_within(tokens, e),
        },
    decreases tokens.len() - i,
{
    if !rule_ends_at(tokens, i) {
        if let Ok((field, next)) = parsed_field(tokens, i, inherited) {
            lemma_fields_located(tokens, next, field.separator);
            if let Ok((rest, _)) = parsed_fields(tokens, next, field.separator) {
                let fields = seq![field] + rest;
                assert forall|j: int| 0 <= j < fields.len() implies located_at(
                    tokens,
                    #[trigger] fields[j].name,
                ) by {
                    if j > 0 {
                        assert(fields[j] == rest[j - 1]);
                    }
                }
            }
        }
    }
}

proof fn lemma_rules_located(tokens: Seq<TokenModel>, i: int)
    requires
        0 <= i <= tokens.len(),
    ensures
        match parsed_rules(tokens, i) {
            Ok(rules) => forall|k: int|
                0 <= k < rules.len() ==> rule_located_at(tokens, #[trigger] rules[k]),
            Err(e) => syntax_error_within(tokens, e),
        },
    decreases tokens.len() - i,
{
    lemma_fields_located(tokens, i + 3, Separator::Comma);
    lemma_fields_end(tokens, i + 3, Separator::Comma);
    if let Ok((rule, end)) = parsed_rule(tokens, i) {
        assert(rule_located_at(tokens, rule));
        if end + 1 < tokens.len() {
            lemma_rules_located(tokens, end + 1);
            if let Ok(rest) = parsed_rules(tokens, end + 1) {
                let rules = seq![rule] + rest;
                assert forall|k: int| 0 <= k < rules.len() implies rule_located_at(
                    tokens,
                    #[trigger] rules[k],
                ) by {
                    if k > 0 {
                        assert(rules[k] == rest[k - 1]);
                    }
                }
            }
        }
    }
}

/// The parser records where the names stood: in a parsed grammar the
/// position of every name is the index of the identifier token of that
/// name. Where the parser fails, it fails with a syntax error at a token of
/// the input or at its end.
pub proof fn law_parser_locates(tokens: Seq<TokenModel>)
    ensures
        match parsed_grammar(tokens) {
            Ok(grammar) => forall|i: int|
                0 <= i < grammar.rules.len() ==> rule_located_at(tokens, #[trigger] grammar.rules[i]),
            Err(e) => syntax_error_within(tokens, e),
        },
{
    lemma_rules_located(tokens, 0);
}

/// Every diagnostic of the pipeline is located in the input: its position
/// is the index of a token or the length of the input, and where it names
/// an identifier, that identifier is the token at its position.
pub proof fn law_diagnostics_are_located(tokens: Seq<TokenModel>)
    ensures
        compiled(tokens) matches Err(e) ==> {
            &&& 0 <= e.position <= tokens.len()
            &&& e.kind is Syntax <==> e.identifier is None
            &&& e.identifier matches Some(name) ==> located_at(
                tokens,
                IdentifierModel { name, position: e.position },
            )
        },
{
    law_parser_locates(tokens);
    if let Ok(grammar) = parsed_grammar(tokens) {
        let rules = grammar.rules;
        lemma_first_empty_rule(rules, 0);
        lemma_first_mixed_rule(rules, 0);
        lemma_first_untyped_rule(rules, 0);
        match first_empty_rule(rules, 0) {
            Some(i) => {
                assert(rule_located_at(tokens, rules[i]));
            },
            None => match first_mixed_rule(rules, 0) {
                Some((i, j)) => {
                    assert(rule_located_at(tokens, rules[i]));
                    assert(located_at(tokens, rules[i].fields[j].name));
                },
                None => match first_untyped_rule(rules, 0) {
                    Some((i, j)) => {
                        assert(rule_located_at(tokens, rules[i]));
                        assert(located_at(tokens, rules[i].fields[j].name));
                    },
                    None => {},
                },
            },
        }
    }
}

/// A parsed grammar has at least one rule.
pub proof fn law_parsed_grammar_has_a_rule(tokens: Seq<TokenModel>)
    ensures
        parsed_grammar(tokens) matches Ok(grammar) ==> grammar.rules.len() > 0,
{
    if let Ok((rule, end)) = parsed_rule(tokens, 0) {
        if end + 1 < tokens.len() {
            if let Ok(rest) = parsed_rules(tokens, end + 1) {
                assert((seq![rule] + rest).len() > 0);
            }
        }
    }
}

/// Printing is a normal form: the canonical tokens of a parsed grammar
/// parse again, to a grammar of the same structure.
pub proof fn law_print_normalizes(tokens: Seq<TokenModel>)
    ensures
        parsed_grammar(tokens) matches Ok(grammar) ==> (parsed_grammar(
            grammar_tokens(grammar),
        ) matches Ok(again) && again.equivalent(grammar)),
{
    law_parsed_grammar_has_a_rule(tokens);
    if let Ok(grammar) = parsed_grammar(tokens) {
        law_parse_inverts_print(grammar);
    }
}

proof fn lemma_join_concat(front: Seq<Seq<char>>, back: Seq<Seq<char>>, separator: Seq<char>)
    requires
        front.len() > 0,
        back.len() > 0,
    ensures
        join(front + back, separator) == join(front, separator) + separator + join(
            back,
            separator,
        ),
    decreases back.len(),
{
    let whole = front + back;
    assert(whole.drop_last() =~= front + back.drop_last());
    assert(whole.last() == back.last());
    if back.len() == 1 {
        assert(front + back.drop_last() =~= front);
        assert(back.last() == back[0]);
    } else {
        lemma_join_concat(front, back.drop_last(), separator);
        assert(join(front, separator) + separator + (join(back.drop_last(), separator) + separator
            + back.last()) =~= join(front, separator) + separator + join(
            back.drop_last(),
            separator,
        ) + separator + back.last());
    }
}

/// Rendering keeps the order of the declarations: the text of two lists of
/// declarations, one after the other, is the text of the first, an empty
/// line, and the text of the second.
pub proof fn law_rendering_keeps_order(first: Seq<DeclarationModel>, second: Seq<DeclarationModel>)
    requires
        first.len() > 0,
        second.len() > 0,
    ensures
        rendered_all(first + second) == rendered_all(first) + "\n"@ + rendered_all(second),
{
    let texts = |d: DeclarationModel| rendered(d);
    assert((first + second).map_values(texts) =~= first.map_values(texts) + second.map_values(
        texts,
    ));
    lemma_join_concat(first.map_values(texts), second.map_values(texts), "\n"@);
}

} // verus!
