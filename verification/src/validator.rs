//! The validator: the semantic rules that a parsed grammar must meet.
//!
//! The checks run in a fixed order over the whole grammar, and the first
//! failure is the only one reported:
//!
//! 1. no rule is empty;
//! 2. the fields of each rule share the separator of the rule's first field;
//! 3. every field of a comma-separated rule has a payload type.

use crate::diagnostic::{Diagnostic, DiagnosticModel, ErrorKind};
use crate::grammar::{
    Field, FieldModel, Grammar, GrammarModel, Identifier, IdentifierModel, Rule, RuleKind,
    RuleModel, Separator,
};
use vstd::prelude::*;

verus! {

/// The error of the given kind at an identifier.
pub open spec fn located(kind: ErrorKind, at: IdentifierModel) -> DiagnosticModel {
    DiagnosticModel { kind, position: at.position, identifier: Some(at.name) }
}

/// The index of the first rule from `from` on that has no field.
pub open spec fn first_empty_rule(rules: Seq<RuleModel>, from: int) -> Option<int>
    decreases rules.len() - from,
{
    if from >= rules.len() {
        None
    } else if rules[from].fields.len() == 0 {
        Some(from)
    } else {
        first_empty_rule(rules, from + 1)
    }
}

/// The index of the first field from `from` on whose separator is not that
/// of the first field.
pub open spec fn first_divergent_field(fields: Seq<FieldModel>, from: int) -> Option<int>
    decreases fields.len() - from,
{
    if from >= fields.len() {
        None
    } else if fields[from].separator != fields[0].separator {
        Some(from)
    } else {
        first_divergent_field(fields, from + 1)
    }
}

/// The first rule from `from` on that mixes separators, with the index of
/// its first divergent field.
pub open spec fn first_mixed_rule(rules: Seq<RuleModel>, from: int) -> Option<(int, int)>
    decreases rules.len() - from,
{
    if from >= rules.len() {
        None
    } else {
        match first_divergent_field(rules[from].fields, 0) {
            Some(j) => Some((from, j)),
            None => first_mixed_rule(rules, from + 1),
        }
    }
}

/// The index of the first field from `from` on that has no payload type.
pub open spec fn first_untyped_field(fields: Seq<FieldModel>, from: int) -> Option<int>
    decreases fields.len() - from,
{
    if from >= fields.len() {
        None
    } else if fields[from].payload_type is None {
        Some(from)
    } else {
        first_untyped_field(fields, from + 1)
    }
}

/// The first record rule from `from` on with a field that has no payload
/// type, with the index of its first such field.
pub open spec fn first_untyped_rule(rules: Seq<RuleModel>, from: int) -> Option<(int, int)>
    decreases rules.len() - from,
{
    if from >= rules.len() {
        None
    } else {
        match first_untyped_field(rules[from].fields, 0) {
            Some(j) if rules[from].kind() == RuleKind::Record => Some((from, j)),
            _ => first_untyped_rule(rules, from + 1),
        }
    }
}

/// The diagnostic that validation reports for a grammar, if any: the first
/// empty rule; else the first divergent field of the first rule that mixes
/// separators; else the first untyped field of the first record rule that
/// has one.
pub open spec fn violation(grammar: GrammarModel) -> Option<DiagnosticModel> {
    let rules = grammar.rules;
    match first_empty_rule(rules, 0) {
        Some(i) => Some(located(ErrorKind::EmptyRule, rules[i].name)),
        None => match first_mixed_rule(rules, 0) {
            Some((i, j)) => Some(located(ErrorKind::MixedSeparator, rules[i].fields[j].name)),
            None => match first_untyped_rule(rules, 0) {
                Some((i, j)) => Some(located(ErrorKind::MissingType, rules[i].fields[j].name)),
                None => None,
            },
        },
    }
}

/// What validation returns for a grammar: the grammar itself, or the
/// diagnostic.
pub open spec fn validated(grammar: GrammarModel) -> Result<GrammarModel, DiagnosticModel> {
    match violation(grammar) {
        None => Ok(grammar),
        Some(d) => Err(d),
    }
}

/// `first_empty_rule` finds the least index of an empty rule, and finds none
/// only where there is none.
pub proof fn lemma_first_empty_rule(rules: Seq<RuleModel>, from: int)
    requires
        0 <= from,
    ensures
        match first_empty_rule(rules, from) {
            Some(i) => {
                &&& from <= i < rules.len()
                &&& rules[i].fields.len() == 0
                &&& forall|k: int| from <= k < i ==> (#[trigger] rules[k]).fields.len() > 0
            },
            None => forall|k: int| from <= k < rules.len() ==> (#[trigger] rules[k]).fields.len() > 0,
        },
    decreases rules.len() - from,
{
    if from < rules.len() && rules[from].fields.len() != 0 {
        lemma_first_empty_rule(rules, from + 1);
    }
}

/// `first_divergent_field` finds the least index of a field whose separator
/// differs from the first field's, and finds none only where there is none.
pub proof fn lemma_first_divergent_field(fields: Seq<FieldModel>, from: int)
    requires
        0 <= from,
    ensures
        match first_divergent_field(fields, from) {
            Some(j) => {
                &&& from <= j < fields.len()
                &&& fields[j].separator != fields[0].separator
                &&& forall|k: int|
                    from <= k < j ==> (#[trigger] fields[k]).separator == fields[0].separator
            },
            None => forall|k: int|
                from <= k < fields.len() ==> (#[trigger] fields[k]).separator
                    == fields[0].separator,
        },
    decreases fields.len() - from,
{
    if from < fields.len() && fields[from].separator == fields[0].separator {
        lemma_first_divergent_field(fields, from + 1);
    }
}

/// `first_mixed_rule` finds the first rule that is not uniform, and finds
/// none only where every rule is uniform.
pub proof fn lemma_first_mixed_rule(rules: Seq<RuleModel>, from: int)
    requires
        0 <= from,
    ensures
        match first_mixed_rule(rules, from) {
            Some((i, j)) => {
                &&& from <= i < rules.len()
                &&& first_divergent_field(rules[i].fields, 0) == Some(j)
                &&& 0 <= j < rules[i].fields.len()
                &&& !rules[i].uniform()
                &&& forall|k: int| from <= k < i ==> (#[trigger] rules[k]).uniform()
            },
            None => forall|k: int| from <= k < rules.len() ==> (#[trigger] rules[k]).uniform(),
        },
    decreases rules.len() - from,
{
    if from < rules.len() {
        lemma_first_divergent_field(rules[from].fields, 0);
        if first_divergent_field(rules[from].fields, 0) is None {
            lemma_first_mixed_rule(rules, from + 1);
        }
    }
}

/// `first_untyped_field` finds the least index of a field without a payload
/// type, and finds none only where there is none.
pub proof fn lemma_first_untyped_field(fields: Seq<FieldModel>, from: int)
    requires
        0 <= from,
    ensures
        match first_untyped_field(fields, from) {
            Some(j) => {
                &&& from <= j < fields.len()
                &&& fields[j].payload_type is None
                &&& forall|k: int| from <= k < j ==> (#[trigger] fields[k]).payload_type is Some
            },
            None => forall|k: int|
                from <= k < fields.len() ==> (#[trigger] fields[k]).payload_type is Some,
        },
    decreases fields.len() - from,
{
    if from < fields.len() && fields[from].payload_type is Some {
        lemma_first_untyped_field(fields, from + 1);
    }
}

/// `first_untyped_rule` finds the first record rule that is not fully typed,
/// and finds none only where every record rule is fully typed.
pub proof fn lemma_first_untyped_rule(rules: Seq<RuleModel>, from: int)
    requires
        0 <= from,
    ensures
        match first_untyped_rule(rules, from) {
            Some((i, j)) => {
                &&& from <= i < rules.len()
                &&& rules[i].kind() == RuleKind::Record
                &&& first_untyped_field(rules[i].fields, 0) == Some(j)
                &&& 0 <= j < rules[i].fields.len()
                &&& !rules[i].fully_typed()
                &&& forall|k: int|
                    from <= k < i && (#[trigger] rules[k]).kind() == RuleKind::Record
                        ==> rules[k].fully_typed()
            },
            None => forall|k: int|
                from <= k < rules.len() && (#[trigger] rules[k]).kind() == RuleKind::Record
                    ==> rules[k].fully_typed(),
        },
    decreases rules.len() - from,
{
    if from < rules.len() {
        lemma_first_untyped_field(rules[from].fields, 0);
        match first_untyped_field(rules[from].fields, 0) {
            Some(j) if rules[from].kind() == RuleKind::Record => {},
            _ => {
                lemma_first_untyped_rule(rules, from + 1);
            },
        }
    }
}

/// Validation reports nothing exactly for the grammars in which every rule
/// has a field, one separator throughout and, if that is the comma, a
/// payload type on every field.
pub proof fn lemma_no_violation_iff_valid(grammar: GrammarModel)
    ensures
        violation(grammar) is None <==> grammar.valid(),
{
    let rules = grammar.rules;
    lemma_first_empty_rule(rules, 0);
    lemma_first_mixed_rule(rules, 0);
    lemma_first_untyped_rule(rules, 0);
    if violation(grammar) is None {
        assert forall|i: int| 0 <= i < rules.len() implies (#[trigger] rules[i]).valid() by {}
    } else {
        match first_empty_rule(rules, 0) {
            Some(i) => {
                assert(!rules[i].valid());
            },
            None => match first_mixed_rule(rules, 0) {
                Some((i, j)) => {
                    assert(!rules[i].valid());
                },
                None => match first_untyped_rule(rules, 0) {
                    Some((i, j)) => {
                        assert(!rules[i].valid());
                    },
                    None => {},
                },
            },
        }
    }
}

/// The error of the given kind at an identifier.
fn locate(kind: ErrorKind, at: &Identifier) -> (d: Diagnostic)
    ensures
        d@ == located(kind, at@),
{
    Diagnostic { kind, position: at.position, identifier: Some(at.name.clone()) }
}

fn find_empty_rule(rules: &Vec<Rule>) -> (found: Option<usize>)
    ensures
        match found {
            Some(i) => first_empty_rule(crate::grammar::rules_view(rules@), 0) == Some(i as int),
            None => first_empty_rule(crate::grammar::rules_view(rules@), 0) is None,
        },
{
    let ghost model = crate::grammar::rules_view(rules@);
    let mut i: usize = 0;
    while i < rules.len()
        invariant
            i <= rules.len(),
            model == crate::grammar::rules_view(rules@),
            first_empty_rule(model, 0) == first_empty_rule(model, i as int),
        decreases rules.len() - i,
    {
        if rules[i].fields.len() == 0 {
            return Some(i);
        }
        i += 1;
    }
    None
}

fn find_divergent_field(fields: &Vec<Field>) -> (found: Option<usize>)
    ensures
        match found {
            Some(j) => first_divergent_field(crate::grammar::fields_view(fields@), 0) == Some(
                j as int,
            ),
            None => first_divergent_field(crate::grammar::fields_view(fields@), 0) is None,
        },
{
    let ghost model = crate::grammar::fields_view(fields@);
    let mut j: usize = 0;
    while j < fields.len()
        invariant
            j <= fields.len(),
            model == crate::grammar::fields_view(fields@),
            first_divergent_field(model, 0) == first_divergent_field(model, j as int),
        decreases fields.len() - j,
    {
        if fields[j].separator != fields[0].separator {
            return Some(j);
        }
        j += 1;
    }
    None
}

fn find_mixed_rule(rules: &Vec<Rule>) -> (found: Option<(usize, usize)>)
    ensures
        match found {
            Some((i, j)) => first_mixed_rule(crate::grammar::rules_view(rules@), 0) == Some(
                (i as int, j as int),
            ),
            None => first_mixed_rule(crate::grammar::rules_view(rules@), 0) is None,
        },
{
    let ghost model = crate::grammar::rules_view(rules@);
    let mut i: usize = 0;
    while i < rules.len()
        invariant
            i <= rules.len(),
            model == crate::grammar::rules_view(rules@),
            first_mixed_rule(model, 0) == first_mixed_rule(model, i as int),
        decreases rules.len() - i,
    {
        if let Some(j) = find_divergent_field(&rules[i].fields) {
            return Some((i, j));
        }
        i += 1;
    }
    None
}

fn find_untyped_field(fields: &Vec<Field>) -> (found: Option<usize>)
    ensures
        match found {
            Some(j) => first_untyped_field(crate::grammar::fields_view(fields@), 0) == Some(
                j as int,
            ),
            None => first_untyped_field(crate::grammar::fields_view(fields@), 0) is None,
        },
{
    let ghost model = crate::grammar::fields_view(fields@);
    let mut j: usize = 0;
    while j < fields.len()
        invariant
            j <= fields.len(),
            model == crate::grammar::fields_view(fields@),
            first_untyped_field(model, 0) == first_untyped_field(model, j as int),
        decreases fields.len() - j,
    {
        if fields[j].payload_type.is_none() {
            return Some(j);
        }
        j += 1;
    }
    None
}

fn find_untyped_rule(rules: &Vec<Rule>) -> (found: Option<(usize, usize)>)
    requires
        first_empty_rule(crate::grammar::rules_view(rules@), 0) is None,
    ensures
        match found {
            Some((i, j)) => first_untyped_rule(crate::grammar::rules_view(rules@), 0) == Some(
                (i as int, j as int),
            ),
            None => first_untyped_rule(crate::grammar::rules_view(rules@), 0) is None,
        },
{
    let ghost model = crate::grammar::rules_view(rules@);
    proof {
        lemma_first_empty_rule(model, 0);
    }
    let mut i: usize = 0;
    while i < rules.len()
        invariant
            i <= rules.len(),
            model == crate::grammar::rules_view(rules@),
            forall|k: int| 0 <= k < model.len() ==> (#[trigger] model[k]).fields.len() > 0,
            first_untyped_rule(model, 0) == first_untyped_rule(model, i as int),
        decreases rules.len() - i,
    {
        assert(model[i as int] == rules[i as int]@);
        if let RuleKind::Record = rules[i].kind() {
            if let Some(j) = find_untyped_field(&rules[i].fields) {
                return Some((i, j));
            }
        }
        i += 1;
    }
    None
}

/// Checks a parsed grammar against the semantic rules.
///
/// Returns the grammar unchanged where every rule is valid, and otherwise
/// the first diagnostic in the order of the checks, located at the name of
/// the empty rule or of the offending field.
pub fn validate(grammar: Grammar) -> (result: Result<Grammar, Diagnostic>)
    ensures
        result is Ok <==> grammar@.valid(),
        match result {
            Ok(same) => same == grammar && validated(grammar@) == Ok::<_, DiagnosticModel>(same@),
            Err(d) => validated(grammar@) == Err::<GrammarModel, _>(d@),
        },
{
    let ghost model = crate::grammar::rules_view(grammar.rules@);
    proof {
        lemma_no_violation_iff_valid(grammar@);
        lemma_first_empty_rule(model, 0);
        lemma_first_mixed_rule(model, 0);
        lemma_first_untyped_rule(model, 0);
    }
    if let Some(i) = find_empty_rule(&grammar.rules) {
        assert(model[i as int] == grammar.rules[i as int]@);
        return Err(locate(ErrorKind::EmptyRule, &grammar.rules[i].name));
    }
    if let Some((i, j)) = find_mixed_rule(&grammar.rules) {
        assert(model[i as int] == grammar.rules[i as int]@);
        assert(model[i as int].fields[j as int] == grammar.rules[i as int].fields[j as int]@);
        return Err(locate(ErrorKind::MixedSeparator, &grammar.rules[i].fields[j].name));
    }
    if let Some((i, j)) = find_untyped_rule(&grammar.rules) {
        assert(model[i as int] == grammar.rules[i as int]@);
        assert(model[i as int].fields[j as int] == grammar.rules[i as int].fields[j as int]@);
        return Err(locate(ErrorKind::MissingType, &grammar.rules[i].fields[j].name));
    }
    Ok(grammar)
}

} // verus!
