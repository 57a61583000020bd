//! Class metadata: the exposed name and the documentation of a type, and the
//! accessors of a record type that is exposed as a sequence.

use vstd::prelude::*;
use vstd::string::*;
use crate::diagnostic::{Diagnostic, DiagnosticView, ErrorKind, ErrorKindView};
use crate::item::{FieldView, Item, ItemStruct, ItemStructView, ItemView};
use crate::lift::{lemma_views_push, option_view, result_view, views};
use crate::meta::{
    Attribute, AttributeView, Ident, IdentView, Lit, LitView, Meta, MetaView, NestedMeta,
    NestedMetaView,
};
use crate::options::{Effect, EffectView, first_failure, last_name, name_effect, name_effect_of};
use crate::text::{join, joined, trim, trimmed};

verus! {

/// The metadata of an exposed type.
#[derive(Debug, PartialEq, Eq)]
pub struct ClassDef {
    /// The type that the metadata belongs to.
    pub ident: Ident,
    /// The name under which the type is exposed.
    pub name: String,
    /// The documentation of the type, if it has any.
    pub doc: Option<String>,
}

pub struct ClassDefView {
    pub ident: IdentView,
    pub name: Seq<char>,
    pub doc: Option<Seq<char>>,
}

impl View for ClassDef {
    type V = ClassDefView;

    open spec fn view(&self) -> ClassDefView {
        ClassDefView { ident: self.ident@, name: self.name@, doc: option_view(self.doc) }
    }
}

/// What one argument of a class annotation does: `name = value` gives the
/// name or fails, with an error that is reported at the value; anything else
/// passes.
pub open spec fn class_effect(attr_name: Seq<char>, arg: NestedMetaView) -> EffectView {
    match arg {
        NestedMetaView::Meta(MetaView::NameValue(pair)) => name_effect(
            attr_name,
            pair.lit.span(),
            pair,
        ),
        _ => EffectView::Pass,
    }
}

/// The effects of the arguments of a class annotation, in order.
pub open spec fn class_effects(attr_name: Seq<char>, attr: Seq<NestedMetaView>) -> Seq<
    EffectView,
> {
    Seq::new(attr.len(), |i: int| class_effect(attr_name, attr[i]))
}

/// The name under which the type `ident` is exposed: the last explicit name,
/// or the type's own; the first name that is no string is an error.
pub open spec fn class_name(
    ident: Seq<char>,
    attr_name: Seq<char>,
    attr: Seq<NestedMetaView>,
) -> Result<Seq<char>, DiagnosticView> {
    let all = class_effects(attr_name, attr);
    match first_failure(all) {
        Some(diagnostic) => Err(diagnostic),
        None => Ok(
            match last_name(all) {
                Some(name) => name,
                None => ident,
            },
        ),
    }
}

/// The line that an annotation adds to the documentation: the trimmed text
/// of `doc = "text"`.
pub open spec fn doc_line(attr: AttributeView) -> Option<Seq<char>> {
    if attr.path.is_ident("doc"@) {
        match attr.meta {
            Some(MetaView::NameValue(pair)) => match pair.lit {
                LitView::Str(text, _) => Some(trimmed(text)),
                LitView::Other(_) => None,
            },
            _ => None,
        }
    } else {
        None
    }
}

/// The lines of the documentation, in source order.
pub open spec fn doc_lines(attrs: Seq<AttributeView>) -> Seq<Seq<char>> {
    attrs.filter_map(|attr: AttributeView| doc_line(attr))
}

/// The documentation: the lines joined by line feeds, if there is a line.
pub open spec fn doc_text(attrs: Seq<AttributeView>) -> Option<Seq<char>> {
    let lines = doc_lines(attrs);
    if lines.len() == 0 {
        None
    } else {
        Some(joined(lines, "\n"@))
    }
}

/// The metadata of the type `ident` with the annotation arguments `attr` and
/// the annotations `attrs`.
pub open spec fn class_def(
    ident: IdentView,
    attr_name: Seq<char>,
    attr: Seq<NestedMetaView>,
    attrs: Seq<AttributeView>,
) -> Result<ClassDefView, DiagnosticView> {
    match class_name(ident.name, attr_name, attr) {
        Ok(name) => Ok(ClassDefView { ident, name, doc: doc_text(attrs) }),
        Err(diagnostic) => Err(diagnostic),
    }
}

fn class_effect_of(attr_name: &str, arg: &NestedMeta) -> (found: Effect)
    ensures
        found@ == class_effect(attr_name@, arg@),
{
    match arg {
        NestedMeta::Meta(Meta::NameValue(pair)) => name_effect_of(
            attr_name,
            pair.lit.span(),
            pair,
        ),
        _ => Effect::Pass,
    }
}

/// The lines of the documentation, in source order.
pub fn collect_doc(attrs: &Vec<Attribute>) -> (lines: Vec<String>)
    ensures
        views(lines@) == doc_lines(views(attrs@)),
{
    let ghost all = views(attrs@);
    let mut lines: Vec<String> = Vec::new();
    let mut i: usize = 0;
    assert(views(lines@) =~= doc_lines(all.take(0)));
    while i < attrs.len()
        invariant
            i <= attrs@.len(),
            all == views(attrs@),
            views(lines@) == doc_lines(all.take(i as int)),
        decreases attrs@.len() - i,
    {
        let ghost before = lines@;
        proof {
            assert(all.take(i + 1).drop_last() =~= all.take(i as int));
            assert(all.take(i + 1).last() == attrs@[i as int]@);
        }
        let attr = &attrs[i];
        if attr.path.is_ident("doc") {
            match &attr.meta {
                Some(Meta::NameValue(pair)) => match &pair.lit {
                    Lit::Str(text) => {
                        let line = trim(text.value.as_str());
                        proof {
                            lemma_views_push(before, line);
                        }
                        lines.push(line);
                    },
                    Lit::Other(_) => {},
                },
                _ => {},
            }
        }
        assert(views(lines@) =~= doc_lines(all.take(i + 1)));
        i += 1;
    }
    assert(all.take(i as int) =~= all);
    lines
}

/// The metadata of a type: its exposed name and its documentation.
pub fn generate_class_def(
    ident: &Ident,
    attr_name: &'static str,
    attr: Vec<NestedMeta>,
    attrs: &Vec<Attribute>,
) -> (metadata: Result<ClassDef, Diagnostic>)
    ensures
        result_view(metadata) == class_def(ident@, attr_name@, views(attr@), views(attrs@)),
{
    let ghost all = class_effects(attr_name@, views(attr@));
    let mut class_name: Option<String> = None;
    let mut i: usize = 0;
    assert(all.skip(0) =~= all);
    while i < attr.len()
        invariant
            i <= attr@.len(),
            all == class_effects(attr_name@, views(attr@)),
            first_failure(all) == first_failure(all.skip(i as int)),
            option_view(class_name) == last_name(all.take(i as int)),
        decreases attr@.len() - i,
    {
        let found = class_effect_of(attr_name, &attr[i]);
        proof {
            assert(all[i as int] == found@);
            assert(all.skip(i as int).first() == all[i as int]);
            assert(all.skip(i as int).drop_first() =~= all.skip(i + 1));
            assert(all.take(i + 1).drop_last() =~= all.take(i as int));
            assert(all.take(i + 1).last() == all[i as int]);
        }
        match found {
            Effect::Name(given) => {
                class_name = Some(given);
            },
            Effect::Fail(diagnostic) => {
                return Err(diagnostic);
            },
            _ => {},
        }
        i += 1;
    }
    assert(all.take(i as int) =~= all);
    let name = match class_name {
        Some(name) => name,
        None => ident.name.clone(),
    };
    let lines = collect_doc(attrs);
    let doc = if lines.len() == 0 {
        None
    } else {
        Some(join(&lines, "\n"))
    };
    Ok(ClassDef { ident: ident.clone(), name, doc })
}

/// What a class annotation expands to: the type, and its metadata.
#[derive(Debug, PartialEq, Eq)]
pub struct PyClass {
    pub item: Item,
    pub class_def: ClassDef,
}

pub struct PyClassView {
    pub item: ItemView,
    pub class_def: ClassDefView,
}

impl View for PyClass {
    type V = PyClassView;

    open spec fn view(&self) -> PyClassView {
        PyClassView { item: self.item@, class_def: self.class_def@ }
    }
}

/// What the class annotation with the arguments `attr` expands to on `item`:
/// a record type or a type with variants gets its metadata; anything else is
/// an error, reported at the item.
pub open spec fn pyclass(attr: Seq<NestedMetaView>, item: ItemView) -> Result<
    PyClassView,
    DiagnosticView,
> {
    match item {
        ItemView::Struct(record) => match class_def(
            record.ident,
            "pyclass"@,
            attr,
            record.attrs,
        ) {
            Ok(metadata) => Ok(PyClassView { item, class_def: metadata }),
            Err(diagnostic) => Err(diagnostic),
        },
        ItemView::Enum(variants) => match class_def(
            variants.ident,
            "pyclass"@,
            attr,
            variants.attrs,
        ) {
            Ok(metadata) => Ok(PyClassView { item, class_def: metadata }),
            Err(diagnostic) => Err(diagnostic),
        },
        _ => Err(DiagnosticView { kind: ErrorKindView::NotStructOrEnum, span: item.span() }),
    }
}

/// Expands a class annotation.
pub fn impl_pyclass(attr: Vec<NestedMeta>, item: Item) -> (expansion: Result<PyClass, Diagnostic>)
    ensures
        result_view(expansion) == pyclass(views(attr@), item@),
{
    let metadata = match &item {
        Item::Struct(record) => generate_class_def(&record.ident, "pyclass", attr, &record.attrs),
        Item::Enum(variants) => generate_class_def(
            &variants.ident,
            "pyclass",
            attr,
            &variants.attrs,
        ),
        other => {
            return Err(Diagnostic { kind: ErrorKind::NotStructOrEnum, span: other.span() });
        },
    };
    match metadata {
        Ok(class_def) => Ok(PyClass { item, class_def }),
        Err(diagnostic) => Err(diagnostic),
    }
}

/// A getter of a sequence type: the property `name` reads the element at
/// `index`.
#[derive(Debug, PartialEq, Eq)]
pub struct FieldProperty {
    pub name: String,
    pub index: usize,
}

pub struct FieldPropertyView {
    pub name: Seq<char>,
    pub index: int,
}

impl View for FieldProperty {
    type V = FieldPropertyView;

    open spec fn view(&self) -> FieldPropertyView {
        FieldPropertyView { name: self.name@, index: self.index as int }
    }
}

/// How a field of a record is reached: by its name, or by its position.
#[derive(Debug, PartialEq, Eq)]
pub enum Member {
    Named(Ident),
    Unnamed(usize),
}

pub enum MemberView {
    Named(IdentView),
    Unnamed(int),
}

impl View for Member {
    type V = MemberView;

    open spec fn view(&self) -> MemberView {
        match self {
            Member::Named(ident) => MemberView::Named(ident@),
            Member::Unnamed(index) => MemberView::Unnamed(*index as int),
        }
    }
}

/// What the annotation of a sequence type expands to.
#[derive(Debug, PartialEq, Eq)]
pub struct PyStructSequence {
    /// The record type.
    pub item: ItemStruct,
    /// Its metadata.
    pub class_def: ClassDef,
    /// One getter for each named field, in the order of the fields.
    pub properties: Vec<FieldProperty>,
    /// The fields in their order, as the conversion into a sequence reads
    /// them.
    pub field_names: Vec<Member>,
}

pub struct PyStructSequenceView {
    pub item: ItemStructView,
    pub class_def: ClassDefView,
    pub properties: Seq<FieldPropertyView>,
    pub field_names: Seq<MemberView>,
}

impl View for PyStructSequence {
    type V = PyStructSequenceView;

    open spec fn view(&self) -> PyStructSequenceView {
        PyStructSequenceView {
            item: self.item@,
            class_def: self.class_def@,
            properties: views(self.properties@),
            field_names: views(self.field_names@),
        }
    }
}

/// How the field at `index` is reached.
pub open spec fn member(field: FieldView, index: int) -> MemberView {
    match field.ident {
        Some(ident) => MemberView::Named(ident),
        None => MemberView::Unnamed(index),
    }
}

/// The fields in their order.
pub open spec fn members(fields: Seq<FieldView>) -> Seq<MemberView> {
    Seq::new(fields.len(), |i: int| member(fields[i], i))
}

/// The getters of the named fields: each reads the element at the position
/// of its field among all fields.
pub open spec fn field_properties(fields: Seq<FieldView>) -> Seq<FieldPropertyView>
    decreases fields.len(),
{
    if fields.len() == 0 {
        Seq::empty()
    } else {
        let before = field_properties(fields.drop_last());
        match fields.last().ident {
            Some(ident) => before.push(
                FieldPropertyView { name: ident.name, index: fields.len() - 1 },
            ),
            None => before,
        }
    }
}

/// What the annotation of a sequence type with the arguments `attr` expands
/// to on `item`: for a record type its metadata, the getters of its named
/// fields and the order of all its fields; anything else is an error,
/// reported at the item.
pub open spec fn pystruct_sequence(attr: Seq<NestedMetaView>, item: ItemView) -> Result<
    PyStructSequenceView,
    DiagnosticView,
> {
    match item {
        ItemView::Struct(record) => match class_def(
            record.ident,
            "pystruct_sequence"@,
            attr,
            record.attrs,
        ) {
            Ok(metadata) => Ok(
                PyStructSequenceView {
                    item: record,
                    class_def: metadata,
                    properties: field_properties(record.fields),
                    field_names: members(record.fields),
                },
            ),
            Err(diagnostic) => Err(diagnostic),
        },
        _ => Err(DiagnosticView { kind: ErrorKindView::NotStruct, span: item.span() }),
    }
}

/// Expands the annotation of a sequence type.
pub fn impl_pystruct_sequence(attr: Vec<NestedMeta>, item: Item) -> (expansion: Result<
    PyStructSequence,
    Diagnostic,
>)
    ensures
        result_view(expansion) == pystruct_sequence(views(attr@), item@),
{
    let record = match item {
        Item::Struct(record) => record,
        other => {
            return Err(Diagnostic { kind: ErrorKind::NotStruct, span: other.span() });
        },
    };
    let class_def = match generate_class_def(
        &record.ident,
        "pystruct_sequence",
        attr,
        &record.attrs,
    ) {
        Ok(class_def) => class_def,
        Err(diagnostic) => {
            return Err(diagnostic);
        },
    };
    let ghost all = views(record.fields@);
    let mut properties: Vec<FieldProperty> = Vec::new();
    let mut field_names: Vec<Member> = Vec::new();
    let mut i: usize = 0;
    proof {
        assert(views(properties@) =~= field_properties(all.take(0)));
        assert(views(field_names@) =~= members(all).take(0));
    }
    while i < record.fields.len()
        invariant
            i <= record.fields@.len(),
            all == views(record.fields@),
            views(properties@) == field_properties(all.take(i as int)),
            views(field_names@) == members(all).take(i as int),
        decreases record.fields@.len() - i,
    {
        let ghost properties_before = properties@;
        let ghost names_before = field_names@;
        proof {
            assert(all.take(i + 1).drop_last() =~= all.take(i as int));
            assert(all.take(i + 1).last() == record.fields@[i as int]@);
        }
        match &record.fields[i].ident {
            Some(ident) => {
                let property = FieldProperty { name: ident.name.clone(), index: i };
                let name = Member::Named(ident.clone());
                proof {
                    lemma_views_push(properties_before, property);
                    lemma_views_push(names_before, name);
                }
                properties.push(property);
                field_names.push(name);
            },
            None => {
                let name = Member::Unnamed(i);
                proof {
                    lemma_views_push(names_before, name);
                }
                field_names.push(name);
            },
        }
        proof {
            assert(views(field_names@) =~= members(all).take(i + 1));
        }
        i += 1;
    }
    proof {
        assert(all.take(i as int) =~= all);
        assert(members(all).take(i as int) =~= members(all));
    }
    Ok(PyStructSequence { item: record, class_def, properties, field_names })
}

} // verus!
