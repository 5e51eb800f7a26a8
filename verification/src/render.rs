//! The text of the generated declarations.

use crate::generator::{
    declarations_view, members_view, variants_view, Declaration, DeclarationModel, Member,
    MemberModel, Variant, VariantModel,
};
use vstd::prelude::*;
use vstd::string::*;

verus! {

/// The mathematical value of a sequence of texts.
pub open spec fn texts_view(texts: Seq<String>) -> Seq<Seq<char>> {
    texts.map_values(|t: String| t@)
}

/// The texts one after another, with `separator` between each two.
pub open spec fn join(parts: Seq<Seq<char>>, separator: Seq<char>) -> Seq<char>
    decreases parts.len(),
{
    if parts.len() == 0 {
        Seq::empty()
    } else if parts.len() == 1 {
        parts[0]
    } else {
        join(parts.drop_last(), separator) + separator + parts.last()
    }
}

/// The line that declares a field of a record.
pub open spec fn field_line(member: MemberModel) -> Seq<char> {
    "    pub "@ + member.name + ": "@ + member.ty + ",\n"@
}

/// The line that declares a variant of a tagged union.
pub open spec fn variant_line(variant: VariantModel) -> Seq<char> {
    match variant.payload {
        Some(ty) => "    "@ + variant.name + "("@ + ty + "),\n"@,
        None => "    "@ + variant.name + ",\n"@,
    }
}

/// A parameter of a constructor: its name and type.
pub open spec fn parameter_text(member: MemberModel) -> Seq<char> {
    member.name + ": "@ + member.ty
}

/// The lines in the body of a declaration: one per field of a record, one
/// per variant of a tagged union.
pub open spec fn body_lines(declaration: DeclarationModel) -> Seq<Seq<char>> {
    match declaration {
        DeclarationModel::Record { fields, .. } => fields.map_values(
            |m: MemberModel| field_line(m),
        ),
        DeclarationModel::TaggedUnion { variants, .. } => variants.map_values(
            |v: VariantModel| variant_line(v),
        ),
    }
}

/// The parameters of a constructor as they are written in its signature.
pub open spec fn parameter_texts(parameters: Seq<MemberModel>) -> Seq<Seq<char>> {
    parameters.map_values(|m: MemberModel| parameter_text(m))
}

/// The names of the parameters of a constructor.
pub open spec fn parameter_names(parameters: Seq<MemberModel>) -> Seq<Seq<char>> {
    parameters.map_values(|m: MemberModel| m.name)
}

/// The text of a declaration. A record is a public struct with public
/// fields, followed by an `impl` with the constructor `new`; a tagged union
/// is a public enum.
pub open spec fn rendered(declaration: DeclarationModel) -> Seq<char> {
    match declaration {
        DeclarationModel::Record { name, fields, constructor } => "pub struct "@ + name + " {\n"@
            + body_lines(declaration).flatten() + "}\n\nimpl "@ + name + " {\n    fn new("@ + join(
            parameter_texts(constructor.parameters),
            ", "@,
        ) + ") -> Self {\n        Self { "@ + join(
            parameter_names(constructor.parameters),
            ", "@,
        ) + " }\n    }\n}\n"@,
        DeclarationModel::TaggedUnion { name, variants } => "pub enum "@ + name + " {\n"@ 
            + body_lines(declaration).flatten() + "}\n"@,
    }
}

/// The text of a sequence of declarations: each declaration's text, with an
/// empty line between each two.
pub open spec fn rendered_all(declarations: Seq<DeclarationModel>) -> Seq<char> {
    join(declarations.map_values(|d: DeclarationModel| rendered(d)), "\n"@)
}

/// Puts texts one after another.
pub fn concat_texts(parts: &Vec<String>) -> (text: String)
    ensures
        text@ == texts_view(parts@).flatten(),
{
    let ghost model = texts_view(parts@);
    let mut text = String::new();
    let mut i: usize = 0;
    while i < parts.len()
        invariant
            i <= parts.len(),
            model == texts_view(parts@),
            text@ == model.take(i as int).flatten(),
        decreases parts.len() - i,
    {
        proof {
            assert(model.take(i + 1) =~= model.take(i as int).push(parts[i as int]@));
            model.take(i as int).lemma_flatten_push(parts[i as int]@);
        }
        text.append(parts[i].as_str());
        i += 1;
    }
    assert(model.take(parts.len() as int) =~= model);
    text
}

/// Puts texts one after another, with `separator` between each two.
pub fn join_texts(parts: &Vec<String>, separator: &str) -> (text: String)
    ensures
        text@ == join(texts_view(parts@), separator@),
{
    let ghost model = texts_view(parts@);
    let mut text = String::new();
    let mut i: usize = 0;
    while i < parts.len()
        invariant
            i <= parts.len(),
            model == texts_view(parts@),
            text@ == join(model.take(i as int), separator@),
        decreases parts.len() - i,
    {
        proof {
            assert(model.take(i + 1).drop_last() =~= model.take(i as int));
            assert(model.take(i + 1).last() == parts[i as int]@);
            assert(Seq::<char>::empty() + parts[i as int]@ =~= parts[i as int]@);
        }
        if i > 0 {
            text.append(separator);
        }
        text.append(parts[i].as_str());
        i += 1;
    }
    assert(model.take(parts.len() as int) =~= model);
    text
}

fn render_field(member: &Member) -> (line: String)
    ensures
        line@ == field_line(member@),
{
    let mut line = "    pub ".to_owned();
    line.append(member.name.as_str());
    line.append(": ");
    line.append(member.ty.as_str());
    line.append(",\n");
    line
}

fn render_variant(variant: &Variant) -> (line: String)
    ensures
        line@ == variant_line(variant@),
{
    let mut line = "    ".to_owned();
    line.append(variant.name.as_str());
    match &variant.payload {
        Some(ty) => {
            line.append("(");
            line.append(ty.as_str());
            line.append("),\n");
        },
        None => {
            line.append(",\n");
        },
    }
    line
}

fn render_parameter(member: &Member) -> (text: String)
    ensures
        text@ == parameter_text(member@),
{
    let mut text = member.name.clone();
    text.append(": ");
    text.append(member.ty.as_str());
    text
}

/// Renders the body of a declaration line by line: `pub name: Type,` for
/// each field of a record, `Name(Type),` or `Name,` for each variant of a
/// tagged union.
pub fn format_fields(declaration: &Declaration) -> (lines: Vec<String>)
    ensures
        texts_view(lines@) == body_lines(declaration@),
{
    let mut lines: Vec<String> = Vec::new();
    match declaration {
        Declaration::Record { fields, .. } => {
            let ghost model = members_view(fields@);
            let mut j: usize = 0;
            while j < fields.len()
                invariant
                    j <= fields.len(),
                    model == members_view(fields@),
                    lines.len() == j,
                    forall|k: int| 0 <= k < j ==> (#[trigger] lines[k])@ == field_line(model[k]),
                decreases fields.len() - j,
            {
                assert(model[j as int] == fields[j as int]@);
                lines.push(render_field(&fields[j]));
                j += 1;
            }
            assert(texts_view(lines@) =~= body_lines(declaration@));
        },
        Declaration::TaggedUnion { variants, .. } => {
            let ghost model = variants_view(variants@);
            let mut j: usize = 0;
            while j < variants.len()
                invariant
                    j <= variants.len(),
                    model == variants_view(variants@),
                    lines.len() == j,
                    forall|k: int| 0 <= k < j ==> (#[trigger] lines[k])@ == variant_line(model[k]),
                decreases variants.len() - j,
            {
                assert(model[j as int] == variants[j as int]@);
                lines.push(render_variant(&variants[j]));
                j += 1;
            }
            assert(texts_view(lines@) =~= body_lines(declaration@));
        },
    }
    lines
}

fn format_parameters(parameters: &Vec<Member>) -> (texts: Vec<String>)
    ensures
        texts_view(texts@) == parameter_texts(members_view(parameters@)),
{
    let ghost model = members_view(parameters@);
    let mut texts: Vec<String> = Vec::new();
    let mut j: usize = 0;
    while j < parameters.len()
        invariant
            j <= parameters.len(),
            model == members_view(parameters@),
            texts.len() == j,
            forall|k: int| 0 <= k < j ==> (#[trigger] texts[k])@ == parameter_text(model[k]),
        decreases parameters.len() - j,
    {
        assert(model[j as int] == parameters[j as int]@);
        texts.push(render_parameter(&parameters[j]));
        j += 1;
    }
    assert(texts_view(texts@) =~= parameter_texts(model));
    texts
}

fn format_names(parameters: &Vec<Member>) -> (names: Vec<String>)
    ensures
        texts_view(names@) == parameter_names(members_view(parameters@)),
{
    let ghost model = members_view(parameters@);
    let mut names: Vec<String> = Vec::new();
    let mut j: usize = 0;
    while j < parameters.len()
        invariant
            j <= parameters.len(),
            model == members_view(parameters@),
            names.len() == j,
            forall|k: int| 0 <= k < j ==> (#[trigger] names[k])@ == model[k].name,
        decreases parameters.len() - j,
    {
        assert(model[j as int] == parameters[j as int]@);
        names.push(parameters[j].name.clone());
        j += 1;
    }
    assert(texts_view(names@) =~= parameter_names(model));
    names
}

impl Declaration {
    /// Renders the declaration as source text.
    pub fn render(&self) -> (text: String)
        ensures
            text@ == rendered(self@),
    {
        let body = concat_texts(&format_fields(self));
        match self {
            Declaration::Record { name, constructor, .. } => {
                let signature = join_texts(&format_parameters(&constructor.parameters), ", ");
                let names = join_texts(&format_names(&constructor.parameters), ", ");
                let mut text = "pub struct ".to_owned();
                text.append(name.as_str());
                text.append(" {\n");
                text.append(body.as_str());
                text.append("}\n\nimpl ");
                text.append(name.as_str());
                text.append(" {\n    fn new(");
                text.append(signature.as_str());
                text.append(") -> Self {\n        Self { ");
                text.append(names.as_str());
                text.append(" }\n    }\n}\n");
                text
            },
            Declaration::TaggedUnion { name, .. } => {
                let mut text = "pub enum ".to_owned();
                text.append(name.as_str());
                text.append(" {\n");
                text.append(body.as_str());
                text.append("}\n");
                text
            },
        }
    }
}

/// Renders declarations as source text, in their order, with an empty line
/// between each two.
pub fn render(declarations: &Vec<Declaration>) -> (text: String)
    ensures
        text@ == rendered_all(declarations_view(declarations@)),
{
    let ghost model = declarations_view(declarations@);
    let mut texts: Vec<String> = Vec::new();
    let mut i: usize = 0;
    while i < declarations.len()
        invariant
            i <= declarations.len(),
            model == declarations_view(declarations@),
            texts.len() == i,
            forall|k: int| 0 <= k < i ==> (#[trigger] texts[k])@ == rendered(model[k]),
        decreases declarations.len() - i,
    {
        assert(model[i as int] == declarations[i as int]@);
        texts.push(declarations[i].render());
        i += 1;
    }
    assert(texts_view(texts@) =~= model.map_values(|d: DeclarationModel| rendered(d)));
    join_texts(&texts, "\n")
}

} // verus!
