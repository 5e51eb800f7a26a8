//! The whole pipeline: tokens or text in, declarations or one diagnostic
//! out.

use crate::diagnostic::{syntax_error, Diagnostic, DiagnosticModel, Expected};
use crate::generator::{declarations_of, declarations_view, generate, Declaration, DeclarationModel};
use crate::grammar::Grammar;
use crate::parser::parsed_grammar;
use crate::render::{render, rendered_all};
use crate::token::{lexed, tokenize, tokenized, tokens_view, Token, TokenModel};
use crate::validator::{validate, validated};
use vstd::prelude::*;

verus! {

/// What the pipeline makes of a token sequence: the syntax error of the
/// parser, else the diagnostic of the validator, else the declarations of
/// the grammar.
pub open spec fn compiled(tokens: Seq<TokenModel>) -> Result<
    Seq<DeclarationModel>,
    DiagnosticModel,
> {
    match parsed_grammar(tokens) {
        Err(e) => Err(e),
        Ok(grammar) => match validated(grammar) {
            Err(e) => Err(e),
            Ok(valid) => Ok(declarations_of(valid)),
        },
    }
}

/// What the pipeline makes of a text, given the tokens found in it: a
/// syntax error where there are none, else the text of what the tokens
/// compile to.
pub open spec fn compiled_source(tokens: Option<Seq<TokenModel>>) -> Result<
    Seq<char>,
    DiagnosticModel,
> {
    match tokens {
        None => Err(syntax_error(0, Expected::Tokens)),
        Some(tokens) => match compiled(tokens) {
            Err(e) => Err(e),
            Ok(declarations) => Ok(rendered_all(declarations)),
        },
    }
}

/// Parses, validates and generates.
///
/// Returns the declarations of the grammar that the tokens spell, one per
/// rule in the order of the rules, or the one diagnostic of the first stage
/// that fails. A syntax error comes before any semantic check.
pub fn compile_tokens(tokens: &Vec<Token>) -> (result: Result<Vec<Declaration>, Diagnostic>)
    ensures
        match result {
            Ok(declarations) => compiled(tokens_view(tokens@)) == Ok::<_, DiagnosticModel>(
                declarations_view(declarations@),
            ),
            Err(e) => compiled(tokens_view(tokens@)) == Err::<Seq<DeclarationModel>, _>(e@),
        },
{
    let grammar = match Grammar::parse(tokens) {
        Ok(grammar) => grammar,
        Err(e) => return Err(e),
    };
    let grammar = match validate(grammar) {
        Ok(grammar) => grammar,
        Err(e) => return Err(e),
    };
    Ok(generate(&grammar))
}

/// Compiles the text of a grammar to the text of its declarations.
///
/// Returns the rendered declarations, or the one diagnostic of the first
/// stage that fails; a text that cannot be tokenized is a syntax error at
/// position 0. No partial output is returned.
pub fn compile(text: &str) -> (result: Result<String, Diagnostic>)
    ensures
        match result {
            Ok(output) => compiled_source(tokenized(lexed(text@))) == Ok::<_, DiagnosticModel>(
                output@,
            ),
            Err(e) => compiled_source(tokenized(lexed(text@))) == Err::<Seq<char>, _>(e@),
        },
{
    let tokens = match tokenize(text) {
        Some(tokens) => tokens,
        None => return Err(Diagnostic::syntax(0, Expected::Tokens)),
    };
    match compile_tokens(&tokens) {
        Ok(declarations) => Ok(render(&declarations)),
        Err(e) => Err(e),
    }
}

} // verus!
