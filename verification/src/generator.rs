//! The declarations that a validated grammar stands for.

use crate::grammar::{
    fields_view, rules_view, text_view, Field, FieldModel, Grammar, GrammarModel, Rule, RuleKind,
    RuleModel,
};
use vstd::pervasive::unreached;
use vstd::prelude::*;
use vstd::string::*;

verus! {

/// The uppercase mapping of a character, as the standard library gives it:
/// one or more characters.
pub uninterp spec fn uppercase(c: char) -> Seq<char>;

/// Calls `char::to_uppercase` and collects the characters that it yields.
/// They are, by name, the uppercase mapping of `c`; which characters those
/// are is not stated.
#[verifier::external_body]
fn to_uppercase(c: char) -> (upper: String)
    ensures
        upper@ == uppercase(c),
{
    c.to_uppercase().collect()
}

/// The text `s` with its first character replaced by `head`; the empty
/// text stays empty.
pub open spec fn with_first_replaced(s: Seq<char>, head: Seq<char>) -> Seq<char> {
    if s.len() == 0 {
        s
    } else {
        head + s.subrange(1, s.len() as int)
    }
}

/// A text with its first character replaced by that character's uppercase
/// mapping; the empty text stays empty.
pub open spec fn capitalized(s: Seq<char>) -> Seq<char> {
    if s.len() == 0 {
        s
    } else {
        with_first_replaced(s, uppercase(s[0]))
    }
}

/// Replaces the first character of `s` by `head` and leaves the rest as it
/// is. An empty `s` gives the empty text.
pub fn replace_first(s: &str, head: &str) -> (result: String)
    ensures
        result@ == with_first_replaced(s@, head@),
{
    let len: usize = s.unicode_len();
    if len == 0 {
        String::new()
    } else {
        let mut result = head.to_owned();
        result.append(s.substring_char(1, len));
        result
    }
}

/// Turns the first character of `s` into upper case and leaves the rest as
/// it is.
pub fn capitalize(s: &str) -> (result: String)
    ensures
        result@ == capitalized(s@),
{
    if s.unicode_len() == 0 {
        String::new()
    } else {
        replace_first(s, to_uppercase(s.get_char(0)).as_str())
    }
}

/// A named, typed member: a field of a record or a parameter of its
/// constructor.
#[derive(Clone, Debug, PartialEq, Eq)]
pub struct Member {
    pub name: String,
    pub ty: String,
}

/// The constructor of a record: one parameter per field, with the field's
/// name and type, in the order of the fields.
#[derive(Clone, Debug, PartialEq, Eq)]
pub struct Constructor {
    pub parameters: Vec<Member>,
}

/// One alternative of a tagged union, with at most one payload.
#[derive(Clone, Debug, PartialEq, Eq)]
pub struct Variant {
    pub name: String,
    pub payload: Option<String>,
}

/// The declaration that one rule stands for.
#[derive(Clone, Debug, PartialEq, Eq)]
pub enum Declaration {
    /// A product type and its constructor.
    Record { name: String, fields: Vec<Member>, constructor: Constructor },
    /// A sum type.
    TaggedUnion { name: String, variants: Vec<Variant> },
}

/// The mathematical value of a [`Member`].
pub struct MemberModel {
    pub name: Seq<char>,
    pub ty: Seq<char>,
}

/// The mathematical value of a [`Constructor`].
pub struct ConstructorModel {
    pub parameters: Seq<MemberModel>,
}

/// The mathematical value of a [`Variant`].
pub struct VariantModel {
    pub name: Seq<char>,
    pub payload: Option<Seq<char>>,
}

/// The mathematical value of a [`Declaration`].
pub enum DeclarationModel {
    Record { name: Seq<char>, fields: Seq<MemberModel>, constructor: ConstructorModel },
    TaggedUnion { name: Seq<char>, variants: Seq<VariantModel> },
}

impl View for Member {
    type V = MemberModel;

    open spec fn view(&self) -> MemberModel {
        MemberModel { name: self.name@, ty: self.ty@ }
    }
}

/// The mathematical value of a sequence of members.
pub open spec fn members_view(members: Seq<Member>) -> Seq<MemberModel> {
    members.map_values(|m: Member| m@)
}

impl View for Constructor {
    type V = ConstructorModel;

    open spec fn view(&self) -> ConstructorModel {
        ConstructorModel { parameters: members_view(self.parameters@) }
    }
}

impl View for Variant {
    type V = VariantModel;

    open spec fn view(&self) -> VariantModel {
        VariantModel { name: self.name@, payload: text_view(self.payload) }
    }
}

/// The mathematical value of a sequence of variants.
pub open spec fn variants_view(variants: Seq<Variant>) -> Seq<VariantModel> {
    variants.map_values(|v: Variant| v@)
}

impl View for Declaration {
    type V = DeclarationModel;

    open spec fn view(&self) -> DeclarationModel {
        match *self {
            Declaration::Record { name, fields, constructor } => DeclarationModel::Record {
                name: name@,
                fields: members_view(fields@),
                constructor: constructor@,
            },
            Declaration::TaggedUnion { name, variants } => DeclarationModel::TaggedUnion {
                name: name@,
                variants: variants_view(variants@),
            },
        }
    }
}

/// The mathematical value of a sequence of declarations.
pub open spec fn declarations_view(declarations: Seq<Declaration>) -> Seq<DeclarationModel> {
    declarations.map_values(|d: Declaration| d@)
}

/// The member that a typed field becomes: the field's name, unchanged, with
/// its payload type.
pub open spec fn member_of(field: FieldModel) -> MemberModel
    recommends
        field.payload_type is Some,
{
    MemberModel { name: field.name.name, ty: field.payload_type->0 }
}

/// The variant that a field becomes: the field's name, capitalized, with its
/// payload type if it has one.
pub open spec fn variant_of(field: FieldModel) -> VariantModel {
    VariantModel { name: capitalized(field.name.name), payload: field.payload_type }
}

/// The members of a record with the given fields, in the fields' order.
pub open spec fn members_of(fields: Seq<FieldModel>) -> Seq<MemberModel> {
    fields.map_values(|f: FieldModel| member_of(f))
}

/// The variants of a tagged union with the given fields, in the fields'
/// order.
pub open spec fn variants_of(fields: Seq<FieldModel>) -> Seq<VariantModel> {
    fields.map_values(|f: FieldModel| variant_of(f))
}

/// The declaration of a valid rule. Its name is the rule's name,
/// capitalized. A record has one member per field and a constructor with
/// the same members as parameters; a tagged union has one variant per field.
pub open spec fn declaration_of(rule: RuleModel) -> DeclarationModel
    recommends
        rule.valid(),
{
    match rule.kind() {
        RuleKind::Record => DeclarationModel::Record {
            name: capitalized(rule.name.name),
            fields: members_of(rule.fields),
            constructor: ConstructorModel { parameters: members_of(rule.fields) },
        },
        RuleKind::TaggedUnion => DeclarationModel::TaggedUnion {
            name: capitalized(rule.name.name),
            variants: variants_of(rule.fields),
        },
    }
}

/// The declarations of a valid grammar: that of each rule, in the order of
/// the rules.
pub open spec fn declarations_of(grammar: GrammarModel) -> Seq<DeclarationModel>
    recommends
        grammar.valid(),
{
    grammar.rules.map_values(|r: RuleModel| declaration_of(r))
}

/// Builds the members of a record from the fields of a fully typed rule.
pub fn record_members(fields: &Vec<Field>) -> (members: Vec<Member>)
    requires
        forall|j: int|
            0 <= j < fields.len() ==> (#[trigger] fields_view(fields@)[j]).payload_type is Some,
    ensures
        members_view(members@) == members_of(fields_view(fields@)),
{
    let ghost model = fields_view(fields@);
    let mut members: Vec<Member> = Vec::new();
    let mut j: usize = 0;
    while j < fields.len()
        invariant
            j <= fields.len(),
            model == fields_view(fields@),
            forall|k: int| 0 <= k < model.len() ==> (#[trigger] model[k]).payload_type is Some,
            members.len() == j,
            forall|k: int| 0 <= k < j ==> (#[trigger] members[k])@ == member_of(model[k]),
        decreases fields.len() - j,
    {
        assert(model[j as int] == fields[j as int]@);
        let ty = match &fields[j].payload_type {
            Some(ty) => ty.clone(),
            None => unreached(),
        };
        members.push(Member { name: fields[j].name.name.clone(), ty });
        j += 1;
    }
    assert(members_view(members@) =~= members_of(model));
    members
}

/// Builds the variants of a tagged union from the fields of a rule.
pub fn union_variants(fields: &Vec<Field>) -> (variants: Vec<Variant>)
    ensures
        variants_view(variants@) == variants_of(fields_view(fields@)),
{
    let ghost model = fields_view(fields@);
    let mut variants: Vec<Variant> = Vec::new();
    let mut j: usize = 0;
    while j < fields.len()
        invariant
            j <= fields.len(),
            model == fields_view(fields@),
            variants.len() == j,
            forall|k: int| 0 <= k < j ==> (#[trigger] variants[k])@ == variant_of(model[k]),
        decreases fields.len() - j,
    {
        assert(model[j as int] == fields[j as int]@);
        let payload = match &fields[j].payload_type {
            Some(ty) => Some(ty.clone()),
            None => None,
        };
        variants.push(Variant { name: capitalize(fields[j].name.name.as_str()), payload });
        j += 1;
    }
    assert(variants_view(variants@) =~= variants_of(model));
    variants
}

impl Rule {
    /// Generates the declaration of a valid rule.
    pub fn declare(&self) -> (declaration: Declaration)
        requires
            self@.valid(),
        ensures
            declaration@ == declaration_of(self@),
    {
        let name = capitalize(self.name.name.as_str());
        match self.kind() {
            RuleKind::Record => {
                let fields = record_members(&self.fields);
                let parameters = record_members(&self.fields);
                Declaration::Record { name, fields, constructor: Constructor { parameters } }
            },
            RuleKind::TaggedUnion => {
                let variants = union_variants(&self.fields);
                Declaration::TaggedUnion { name, variants }
            },
        }
    }
}

/// Generates the declarations of a validated grammar: one per rule, in the
/// order in which the rules were declared.
pub fn generate(grammar: &Grammar) -> (declarations: Vec<Declaration>)
    requires
        grammar@.valid(),
    ensures
        declarations_view(declarations@) == declarations_of(grammar@),
        declarations.len() == grammar.rules.len(),
{
    let ghost model = rules_view(grammar.rules@);
    let mut declarations: Vec<Declaration> = Vec::new();
    let mut i: usize = 0;
    while i < grammar.rules.len()
        invariant
            i <= grammar.rules.len(),
            model == rules_view(grammar.rules@),
            grammar@.valid(),
            declarations.len() == i,
            forall|k: int| 0 <= k < i ==> (#[trigger] declarations[k])@ == declaration_of(model[k]),
        decreases grammar.rules.len() - i,
    {
        assert(model[i as int] == grammar.rules[i as int]@);
        assert(grammar@.rules[i as int].valid());
        declarations.push(grammar.rules[i].declare());
        i += 1;
    }
    assert(declarations_view(declarations@) =~= declarations_of(grammar@));
    declarations
}

} // verus!
