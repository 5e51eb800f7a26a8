//! The abstract syntax tree of a grammar, and its mathematical model.

use vstd::prelude::*;

verus! {

/// The punctuation that ends a field: `,` in a record, `|` in a tagged union.
#[derive(Clone, Copy, Debug, PartialEq, Eq, Structural)]
pub enum Separator {
    Comma,
    Pipe,
}

/// What a rule declares. The kind is not written in the source: it follows
/// from the separator that the rule's fields share.
#[derive(Clone, Copy, Debug, PartialEq, Eq, Structural)]
pub enum RuleKind {
    /// A product type with named, typed fields.
    Record,
    /// A sum type of named alternatives, each with at most one payload.
    TaggedUnion,
}

/// A name with the place where it stood in the source.
#[derive(Clone, Debug, PartialEq, Eq)]
pub struct Identifier {
    pub name: String,
    /// The index of the name's token in the token sequence that was parsed.
    pub position: usize,
}

/// One field of a rule.
#[derive(Clone, Debug, PartialEq, Eq)]
pub struct Field {
    pub name: Identifier,
    /// The type expression between the parentheses after the name, kept as
    /// written and never interpreted.
    pub payload_type: Option<String>,
    pub separator: Separator,
}

/// One named entry of a grammar.
#[derive(Clone, Debug, PartialEq, Eq)]
pub struct Rule {
    pub name: Identifier,
    pub fields: Vec<Field>,
}

/// The rules of a grammar, in the order of their declaration.
#[derive(Clone, Debug, PartialEq, Eq)]
pub struct Grammar {
    pub rules: Vec<Rule>,
}

/// The mathematical value of an [`Identifier`].
pub struct IdentifierModel {
    pub name: Seq<char>,
    pub position: int,
}

/// The mathematical value of a [`Field`].
pub struct FieldModel {
    pub name: IdentifierModel,
    pub payload_type: Option<Seq<char>>,
    pub separator: Separator,
}

/// The mathematical value of a [`Rule`].
pub struct RuleModel {
    pub name: IdentifierModel,
    pub fields: Seq<FieldModel>,
}

/// The mathematical value of a [`Grammar`].
pub struct GrammarModel {
    pub rules: Seq<RuleModel>,
}

impl View for Identifier {
    type V = IdentifierModel;

    open spec fn view(&self) -> IdentifierModel {
        IdentifierModel { name: self.name@, position: self.position as int }
    }
}

/// The mathematical value of an optional text.
pub open spec fn text_view(text: Option<String>) -> Option<Seq<char>> {
    match text {
        Some(t) => Some(t@),
        None => None,
    }
}

impl View for Field {
    type V = FieldModel;

    open spec fn view(&self) -> FieldModel {
        FieldModel {
            name: self.name@,
            payload_type: text_view(self.payload_type),
            separator: self.separator,
        }
    }
}

/// The mathematical value of a sequence of fields.
pub open spec fn fields_view(fields: Seq<Field>) -> Seq<FieldModel> {
    fields.map_values(|f: Field| f@)
}

impl View for Rule {
    type V = RuleModel;

    open spec fn view(&self) -> RuleModel {
        RuleModel { name: self.name@, fields: fields_view(self.fields@) }
    }
}

/// The mathematical value of a sequence of rules.
pub open spec fn rules_view(rules: Seq<Rule>) -> Seq<RuleModel> {
    rules.map_values(|r: Rule| r@)
}

impl View for Grammar {
    type V = GrammarModel;

    open spec fn view(&self) -> GrammarModel {
        GrammarModel { rules: rules_view(self.rules@) }
    }
}

impl RuleModel {
    /// The kind that the first field's separator gives the rule.
    pub open spec fn kind(self) -> RuleKind
        recommends
            self.fields.len() > 0,
    {
        match self.fields[0].separator {
            Separator::Comma => RuleKind::Record,
            Separator::Pipe => RuleKind::TaggedUnion,
        }
    }

    /// All fields end in the separator of the first.
    pub open spec fn uniform(self) -> bool {
        forall|j: int|
            0 <= j < self.fields.len() ==> (#[trigger] self.fields[j]).separator
                == self.fields[0].separator
    }

    /// Every field carries a payload type.
    pub open spec fn fully_typed(self) -> bool {
        forall|j: int| 0 <= j < self.fields.len() ==> (#[trigger] self.fields[j]).payload_type is Some
    }

    /// The rule has a field, its fields share one separator, and if that is
    /// the comma, each of them has a payload type.
    pub open spec fn valid(self) -> bool {
        &&& self.fields.len() > 0
        &&& self.uniform()
        &&& self.kind() == RuleKind::Record ==> self.fully_typed()
    }
}

impl GrammarModel {
    /// Every rule of the grammar is valid.
    pub open spec fn valid(self) -> bool {
        forall|i: int| 0 <= i < self.rules.len() ==> (#[trigger] self.rules[i]).valid()
    }
}

impl Rule {
    /// Whether the rule declares a record or a tagged union.
    pub fn kind(&self) -> (kind: RuleKind)
        requires
            self.fields.len() > 0,
        ensures
            kind == self@.kind(),
    {
        match self.fields[0].separator {
            Separator::Comma => RuleKind::Record,
            Separator::Pipe => RuleKind::TaggedUnion,
        }
    }
}

} // verus!
