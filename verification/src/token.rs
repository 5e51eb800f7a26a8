//! Tokens of the grammar language, and the tokenizer that produces them.
//!
//! Tokenizing has two steps. The first splits the text into lexemes: words,
//! punctuation characters, literals and bracketed groups. The second
//! classifies each lexeme as a token of the parser's alphabet: a word is an
//! identifier or a keyword, and a parenthesized group whose content is a
//! type expression is a type. Lexeme and token have the same index.

use proc_macro2::{Spacing, TokenStream, TokenTree};
use std::str::FromStr;
use vstd::prelude::*;

verus! {

/// The bracket pair around a group of tokens.
#[derive(Clone, Copy, Debug, PartialEq, Eq, Structural)]
pub enum Delimiter {
    /// `( ... )`
    Parenthesis,
    /// `{ ... }`
    Brace,
    /// `[ ... ]`
    Bracket,
    /// A group without visible brackets.
    Invisible,
}

/// One piece of the input text, not yet classified.
///
/// A bracketed group is a single lexeme; what stands between its brackets is
/// kept as text.
#[derive(Clone, Debug, PartialEq, Eq)]
pub enum Lexeme {
    /// A word: an identifier or a keyword.
    Word(String),
    /// One punctuation character. `joint` says that another punctuation
    /// character follows it immediately, as `-` is followed by `>` in `->`.
    Punct { ch: char, joint: bool },
    /// A bracketed group with the text between its brackets.
    Group { delimiter: Delimiter, content: String },
    /// A literal, such as `1` or `"text"`.
    Literal(String),
}

/// One token of the parser's alphabet.
#[derive(Clone, Debug, PartialEq, Eq)]
pub enum Token {
    /// A word that can name a rule or a field.
    Identifier(String),
    /// A word that cannot be a name: a keyword of the host language, or `_`.
    Keyword(String),
    /// One punctuation character, as in [`Lexeme::Punct`].
    Punct { ch: char, joint: bool },
    /// A parenthesized type expression: the text between the parentheses.
    Type(String),
    /// Any other bracketed group.
    Group { delimiter: Delimiter, content: String },
    /// A literal.
    Literal(String),
}

/// The mathematical value of a [`Lexeme`].
pub enum LexemeModel {
    Word(Seq<char>),
    Punct { ch: char, joint: bool },
    Group { delimiter: Delimiter, content: Seq<char> },
    Literal(Seq<char>),
}

/// The mathematical value of a [`Token`].
pub enum TokenModel {
    Identifier(Seq<char>),
    Keyword(Seq<char>),
    Punct { ch: char, joint: bool },
    Type(Seq<char>),
    Group { delimiter: Delimiter, content: Seq<char> },
    Literal(Seq<char>),
}

impl View for Lexeme {
    type V = LexemeModel;

    open spec fn view(&self) -> LexemeModel {
        match *self {
            Lexeme::Word(text) => LexemeModel::Word(text@),
            Lexeme::Punct { ch, joint } => LexemeModel::Punct { ch, joint },
            Lexeme::Group { delimiter, content } => LexemeModel::Group {
                delimiter,
                content: content@,
            },
            Lexeme::Literal(text) => LexemeModel::Literal(text@),
        }
    }
}

impl View for Token {
    type V = TokenModel;

    open spec fn view(&self) -> TokenModel {
        match *self {
            Token::Identifier(name) => TokenModel::Identifier(name@),
            Token::Keyword(word) => TokenModel::Keyword(word@),
            Token::Punct { ch, joint } => TokenModel::Punct { ch, joint },
            Token::Type(ty) => TokenModel::Type(ty@),
            Token::Group { delimiter, content } => TokenModel::Group { delimiter, content: content@ },
            Token::Literal(text) => TokenModel::Literal(text@),
        }
    }
}

/// The mathematical value of a sequence of lexemes.
pub open spec fn lexemes_view(lexemes: Seq<Lexeme>) -> Seq<LexemeModel> {
    lexemes.map_values(|l: Lexeme| l@)
}

/// The mathematical value of a sequence of tokens.
pub open spec fn tokens_view(tokens: Seq<Token>) -> Seq<TokenModel> {
    tokens.map_values(|t: Token| t@)
}

/// The lexemes that `proc_macro2` finds in a text, or `None` where the text
/// cannot be split into lexemes. The library builds `proc_macro2` without
/// its `proc-macro` feature, so that the crate's own lexer does the
/// splitting in every process.
pub uninterp spec fn lexed(text: Seq<char>) -> Option<Seq<LexemeModel>>;

/// Whether `syn` reads the text as one identifier that is no keyword.
pub uninterp spec fn is_identifier(text: Seq<char>) -> bool;

/// Whether `syn` reads the text, all of it, as one type.
pub uninterp spec fn is_type(text: Seq<char>) -> bool;

/// Calls `proc_macro2::TokenStream::from_str` and hands out the token trees
/// of the stream one for one: an identifier and a literal as they print, a
/// punctuation character with its spacing, a group with its delimiter and
/// with its inner stream as it prints. Nothing is proved of the splitting:
/// the result is, by name, what `proc_macro2` makes of the text.
#[verifier::external_body]
fn lex(text: &str) -> (lexemes: Option<Vec<Lexeme>>)
    ensures
        match lexemes {
            Some(v) => lexed(text@) == Some(lexemes_view(v@)),
            None => lexed(text@) is None,
        },
{
    let stream = TokenStream::from_str(text).ok()?;
    Some(stream.into_iter().map(|tree| match tree {
        TokenTree::Ident(i) => Lexeme::Word(i.to_string()),
        TokenTree::Punct(p) => Lexeme::Punct { ch: p.as_char(), joint: matches!(p.spacing(), Spacing::Joint) },
        TokenTree::Literal(l) => Lexeme::Literal(l.to_string()),
        TokenTree::Group(g) => Lexeme::Group { content: g.stream().to_string(), delimiter: match g.delimiter() {
            proc_macro2::Delimiter::Parenthesis => Delimiter::Parenthesis,
            proc_macro2::Delimiter::Brace => Delimiter::Brace,
            proc_macro2::Delimiter::Bracket => Delimiter::Bracket,
            proc_macro2::Delimiter::None => Delimiter::Invisible,
        } },
    }).collect())
}

/// Calls `syn::parse_str::<syn::Ident>`, which splits the text as the
/// tokenizer does and succeeds where the pieces are exactly one identifier
/// other than a keyword or `_`. Which texts those are is not stated: the
/// result is that of `syn`, by name.
#[verifier::external_body]
fn accepts_identifier(text: &str) -> (ok: bool)
    ensures
        ok == is_identifier(text@),
{
    syn::parse_str::<syn::Ident>(text).is_ok()
}

/// Calls `syn::parse_str::<syn::Type>`, which splits the text as the
/// tokenizer does and succeeds where the pieces, with none left over, are
/// one type of the host language. Which texts those are is not stated: the
/// result is that of `syn`, by name.
#[verifier::external_body]
fn accepts_type(text: &str) -> (ok: bool)
    ensures
        ok == is_type(text@),
{
    syn::parse_str::<syn::Type>(text).is_ok()
}

/// The token that a word is, given whether it is an identifier.
pub open spec fn word_token(text: Seq<char>, identifier: bool) -> TokenModel {
    if identifier {
        TokenModel::Identifier(text)
    } else {
        TokenModel::Keyword(text)
    }
}

/// The token that a group is, given whether its content is a type: a
/// parenthesized type is a type, any other group stays a group.
pub open spec fn group_token(delimiter: Delimiter, content: Seq<char>, ty: bool) -> TokenModel {
    if delimiter == Delimiter::Parenthesis && ty {
        TokenModel::Type(content)
    } else {
        TokenModel::Group { delimiter, content }
    }
}

/// The token that a lexeme is classified as.
pub open spec fn classified(lexeme: LexemeModel) -> TokenModel {
    match lexeme {
        LexemeModel::Word(text) => word_token(text, is_identifier(text)),
        LexemeModel::Punct { ch, joint } => TokenModel::Punct { ch, joint },
        LexemeModel::Group { delimiter, content } => group_token(
            delimiter,
            content,
            is_type(content),
        ),
        LexemeModel::Literal(text) => TokenModel::Literal(text),
    }
}

/// The lexeme that a token was classified from: a word for an identifier
/// and for a keyword, a parenthesized group for a type.
pub open spec fn declassified(token: TokenModel) -> LexemeModel {
    match token {
        TokenModel::Identifier(name) => LexemeModel::Word(name),
        TokenModel::Keyword(word) => LexemeModel::Word(word),
        TokenModel::Punct { ch, joint } => LexemeModel::Punct { ch, joint },
        TokenModel::Type(ty) => LexemeModel::Group { delimiter: Delimiter::Parenthesis, content: ty },
        TokenModel::Group { delimiter, content } => LexemeModel::Group { delimiter, content },
        TokenModel::Literal(text) => LexemeModel::Literal(text),
    }
}

/// The lexemes that tokens were classified from, one for one.
pub open spec fn declassified_all(tokens: Seq<TokenModel>) -> Seq<LexemeModel> {
    tokens.map_values(|t: TokenModel| declassified(t))
}

/// The tokens that lexemes are classified as, one for one.
pub open spec fn classified_all(lexemes: Seq<LexemeModel>) -> Seq<TokenModel> {
    lexemes.map_values(|l: LexemeModel| classified(l))
}

/// The tokens of a text, given the lexemes found in it.
pub open spec fn tokenized(lexemes: Option<Seq<LexemeModel>>) -> Option<Seq<TokenModel>> {
    match lexemes {
        Some(lexemes) => Some(classified_all(lexemes)),
        None => None,
    }
}

impl Token {
    /// Makes the token of a word, given whether the word is an identifier.
    pub fn word(text: String, identifier: bool) -> (token: Token)
        ensures
            token@ == word_token(text@, identifier),
    {
        if identifier {
            Token::Identifier(text)
        } else {
            Token::Keyword(text)
        }
    }

    /// Makes the token of a group, given whether its content is a type.
    pub fn group(delimiter: Delimiter, content: String, ty: bool) -> (token: Token)
        ensures
            token@ == group_token(delimiter, content@, ty),
    {
        match delimiter {
            Delimiter::Parenthesis => if ty {
                Token::Type(content)
            } else {
                Token::Group { delimiter, content }
            },
            _ => Token::Group { delimiter, content },
        }
    }

    /// Classifies one lexeme. A word is an identifier unless the host
    /// language reserves it; a parenthesized group is a type where its
    /// content is a type expression.
    pub fn classify(lexeme: &Lexeme) -> (token: Token)
        ensures
            token@ == classified(lexeme@),
    {
        match lexeme {
            Lexeme::Word(text) => Token::word(text.clone(), accepts_identifier(text.as_str())),
            Lexeme::Punct { ch, joint } => Token::Punct { ch: *ch, joint: *joint },
            Lexeme::Group { delimiter, content } => {
                let ty = match delimiter {
                    Delimiter::Parenthesis => accepts_type(content.as_str()),
                    _ => false,
                };
                Token::group(*delimiter, content.clone(), ty)
            },
            Lexeme::Literal(text) => Token::Literal(text.clone()),
        }
    }
}

/// Classifies lexemes, one token per lexeme, in order.
pub fn classify_all(lexemes: &Vec<Lexeme>) -> (tokens: Vec<Token>)
    ensures
        tokens_view(tokens@) == classified_all(lexemes_view(lexemes@)),
{
    let ghost model = lexemes_view(lexemes@);
    let mut tokens: Vec<Token> = Vec::new();
    let mut i: usize = 0;
    while i < lexemes.len()
        invariant
            i <= lexemes.len(),
            model == lexemes_view(lexemes@),
            tokens.len() == i,
            forall|k: int| 0 <= k < i ==> (#[trigger] tokens[k])@ == classified(model[k]),
        decreases lexemes.len() - i,
    {
        assert(model[i as int] == lexemes[i as int]@);
        tokens.push(Token::classify(&lexemes[i]));
        i += 1;
    }
    assert(tokens_view(tokens@) =~= classified_all(model));
    tokens
}

/// Splits a text into tokens.
///
/// Returns `None` exactly where the text cannot be split into lexemes (an
/// unbalanced bracket, a character that belongs to no token).
pub fn tokenize(text: &str) -> (tokens: Option<Vec<Token>>)
    ensures
        match tokens {
            Some(v) => tokenized(lexed(text@)) == Some(tokens_view(v@)),
            None => tokenized(lexed(text@)) is None,
        },
{
    match lex(text) {
        Some(lexemes) => Some(classify_all(&lexemes)),
        None => None,
    }
}

} // verus!
