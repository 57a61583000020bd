//! Bindings: what a declaration becomes, and the set that collects them.

use vstd::prelude::*;
use crate::diagnostic::{Diagnostic, DiagnosticView, ErrorKind, ErrorKindView, Keyword};
use crate::lift::{lemma_views_push, result_view, views};
use crate::meta::{
    Attribute, AttributeView, Ident, IdentView, Meta, MetaView, NestedMeta, NestedMetaView,
    Signature, SignatureView, Span, meta_to_vec,
};
use crate::options::{OptionBagView, options, parse_options};
use crate::text::{after, starts_with, strip_prefix};

verus! {

/// A classified declaration.
#[derive(Debug, PartialEq, Eq)]
pub enum ClassItem {
    /// The function `item_ident`, exposed as the method `py_name`.
    Method { item_ident: Ident, py_name: String },
    /// The function `item_ident`, exposed as the class-level method `py_name`.
    ClassMethod { item_ident: Ident, py_name: String },
    /// The function `item_ident`, getter or setter of the property `py_name`.
    Property { item_ident: Ident, py_name: String, setter: bool },
    /// The function `item_ident`, put into the hook `slot_ident`.
    Slot { slot_ident: Ident, item_ident: Ident },
}

pub enum ClassItemView {
    Method { item_ident: IdentView, py_name: Seq<char> },
    ClassMethod { item_ident: IdentView, py_name: Seq<char> },
    Property { item_ident: IdentView, py_name: Seq<char>, setter: bool },
    Slot { slot_ident: IdentView, item_ident: IdentView },
}

impl View for ClassItem {
    type V = ClassItemView;

    open spec fn view(&self) -> ClassItemView {
        match self {
            ClassItem::Method { item_ident, py_name } => ClassItemView::Method {
                item_ident: item_ident@,
                py_name: py_name@,
            },
            ClassItem::ClassMethod { item_ident, py_name } => ClassItemView::ClassMethod {
                item_ident: item_ident@,
                py_name: py_name@,
            },
            ClassItem::Property { item_ident, py_name, setter } => ClassItemView::Property {
                item_ident: item_ident@,
                py_name: py_name@,
                setter: *setter,
            },
            ClassItem::Slot { slot_ident, item_ident } => ClassItemView::Slot {
                slot_ident: slot_ident@,
                item_ident: item_ident@,
            },
        }
    }
}

/// The identifier without its place.
pub open spec fn unplaced(ident: IdentView) -> IdentView {
    IdentView { name: ident.name, span: Span { lo: 0, hi: 0 } }
}

impl ClassItemView {
    /// The binding without the places of its identifiers: what two bindings
    /// are compared by.
    pub open spec fn unplaced(self) -> ClassItemView {
        match self {
            ClassItemView::Method { item_ident, py_name } => ClassItemView::Method {
                item_ident: unplaced(item_ident),
                py_name,
            },
            ClassItemView::ClassMethod { item_ident, py_name } => ClassItemView::ClassMethod {
                item_ident: unplaced(item_ident),
                py_name,
            },
            ClassItemView::Property { item_ident, py_name, setter } => ClassItemView::Property {
                item_ident: unplaced(item_ident),
                py_name,
                setter,
            },
            ClassItemView::Slot { slot_ident, item_ident } => ClassItemView::Slot {
                slot_ident: unplaced(slot_ident),
                item_ident: unplaced(item_ident),
            },
        }
    }
}

/// Whether two bindings are the same: the same variant with the same names in
/// every field.
pub open spec fn same_binding(a: ClassItemView, b: ClassItemView) -> bool {
    a.unplaced() == b.unplaced()
}

/// Whether `items` holds a binding that is the same as `item`.
pub open spec fn contains_binding(items: Seq<ClassItemView>, item: ClassItemView) -> bool {
    exists|i: int| 0 <= i < items.len() && same_binding(#[trigger] items[i], item)
}

/// Whether no binding stands twice in `items`.
pub open spec fn distinct_bindings(items: Seq<ClassItemView>) -> bool {
    forall|i: int, j: int|
        0 <= i < j < items.len() ==> !same_binding(#[trigger] items[i], #[trigger] items[j])
}

impl ClassItem {
    /// Whether two bindings are the same.
    pub fn same_binding(&self, other: &ClassItem) -> (same: bool)
        ensures
            same == same_binding(self@, other@),
    {
        match self {
            ClassItem::Method { item_ident, py_name } => match other {
                ClassItem::Method { item_ident: other_ident, py_name: other_name } => {
                    item_ident.name == other_ident.name && *py_name == *other_name
                },
                _ => false,
            },
            ClassItem::ClassMethod { item_ident, py_name } => match other {
                ClassItem::ClassMethod { item_ident: other_ident, py_name: other_name } => {
                    item_ident.name == other_ident.name && *py_name == *other_name
                },
                _ => false,
            },
            ClassItem::Property { item_ident, py_name, setter } => match other {
                ClassItem::Property {
                    item_ident: other_ident,
                    py_name: other_name,
                    setter: other_setter,
                } => {
                    item_ident.name == other_ident.name && *py_name == *other_name && *setter
                        == *other_setter
                },
                _ => false,
            },
            ClassItem::Slot { slot_ident, item_ident } => match other {
                ClassItem::Slot { slot_ident: other_slot, item_ident: other_ident } => {
                    slot_ident.name == other_slot.name && item_ident.name == other_ident.name
                },
                _ => false,
            },
        }
    }
}

/// The exposed name of a property: the explicit name if there is one; for a
/// getter the function's name; for a setter the function's name without its
/// prefix `set_`, which has to be there and to leave something.
pub open spec fn property_name(ident: Seq<char>, bag: OptionBagView) -> Result<
    Seq<char>,
    ErrorKindView,
> {
    match bag.name {
        Some(name) => Ok(name),
        None => if !bag.setter {
            Ok(ident)
        } else if starts_with(ident, "set_"@) {
            if after(ident, "set_"@.len()).len() == 0 {
                Err(ErrorKindView::SetterEmptyName)
            } else {
                Ok(after(ident, "set_"@.len()))
            }
        } else {
            Err(ErrorKindView::SetterNeedsName)
        },
    }
}

/// The name of the hook that a slot annotation without arguments stands for:
/// the function's name, without the prefix `tp_` where it has it.
pub open spec fn default_slot_name(ident: Seq<char>) -> Seq<char> {
    if starts_with(ident, "tp_"@) {
        after(ident, "tp_"@.len())
    } else {
        ident
    }
}

/// The binding of a method annotation.
pub open spec fn method_binding(sig: SignatureView, meta: MetaView) -> Result<
    ClassItemView,
    DiagnosticView,
> {
    match options(Keyword::Method, sig, meta) {
        Ok(bag) => Ok(
            ClassItemView::Method {
                item_ident: sig.ident,
                py_name: match bag.name {
                    Some(name) => name,
                    None => sig.ident.name,
                },
            },
        ),
        Err(diagnostic) => Err(diagnostic),
    }
}

/// The binding of a class-method annotation.
pub open spec fn classmethod_binding(sig: SignatureView, meta: MetaView) -> Result<
    ClassItemView,
    DiagnosticView,
> {
    match options(Keyword::ClassMethod, sig, meta) {
        Ok(bag) => Ok(
            ClassItemView::ClassMethod {
                item_ident: sig.ident,
                py_name: match bag.name {
                    Some(name) => name,
                    None => sig.ident.name,
                },
            },
        ),
        Err(diagnostic) => Err(diagnostic),
    }
}

/// The binding of a property annotation. A name that cannot be derived is
/// reported at the function's identifier.
pub open spec fn property_binding(sig: SignatureView, meta: MetaView) -> Result<
    ClassItemView,
    DiagnosticView,
> {
    match options(Keyword::Property, sig, meta) {
        Ok(bag) => match property_name(sig.ident.name, bag) {
            Ok(py_name) => Ok(
                ClassItemView::Property { item_ident: sig.ident, py_name, setter: bag.setter },
            ),
            Err(kind) => Err(DiagnosticView { kind, span: sig.ident.span }),
        },
        Err(diagnostic) => Err(diagnostic),
    }
}

/// The binding of a slot annotation: without arguments the hook is named after
/// the function; with one argument that is a bare name, by that name. The form
/// `pyslot = value` is reported at the annotation, more than one argument at
/// the range from the first to the last, another argument at that argument.
pub open spec fn slot_binding(sig: SignatureView, meta: MetaView) -> Result<
    ClassItemView,
    DiagnosticView,
> {
    let args = meta.nested();
    if meta is NameValue {
        Err(DiagnosticView { kind: ErrorKindView::SlotForm, span: meta.span() })
    } else if args.len() > 1 {
        Err(
            DiagnosticView {
                kind: ErrorKindView::SlotArgumentCount,
                span: args.first().span().spec_join(args.last().span()),
            },
        )
    } else if args.len() == 0 {
        Ok(
            ClassItemView::Slot {
                slot_ident: IdentView {
                    name: default_slot_name(sig.ident.name),
                    span: sig.ident.span,
                },
                item_ident: sig.ident,
            },
        )
    } else {
        match args[0] {
            NestedMetaView::Meta(MetaView::Path(path)) => match path.get_ident() {
                Some(slot_ident) => Ok(ClassItemView::Slot { slot_ident, item_ident: sig.ident }),
                None => Err(DiagnosticView { kind: ErrorKindView::SlotForm, span: path.span }),
            },
            bad => Err(DiagnosticView { kind: ErrorKindView::SlotForm, span: bad.span() }),
        }
    }
}

/// The keyword that a path stands for, if it is one of the four.
pub open spec fn keyword_of(meta: MetaView) -> Option<Keyword> {
    let path = meta.path();
    if path.is_ident("pymethod"@) {
        Some(Keyword::Method)
    } else if path.is_ident("pyclassmethod"@) {
        Some(Keyword::ClassMethod)
    } else if path.is_ident("pyproperty"@) {
        Some(Keyword::Property)
    } else if path.is_ident("pyslot"@) {
        Some(Keyword::Slot)
    } else {
        None
    }
}

/// The keyword of an annotation on a declaration, if it is one that makes a
/// binding.
pub open spec fn attr_keyword(attr: AttributeView) -> Option<Keyword> {
    match attr.meta {
        Some(meta) => keyword_of(meta),
        None => None,
    }
}

/// The binding that an annotation with this keyword makes of the function.
pub open spec fn binding(keyword: Keyword, sig: SignatureView, meta: MetaView) -> Result<
    ClassItemView,
    DiagnosticView,
> {
    match keyword {
        Keyword::Method => method_binding(sig, meta),
        Keyword::ClassMethod => classmethod_binding(sig, meta),
        Keyword::Property => property_binding(sig, meta),
        Keyword::Slot => slot_binding(sig, meta),
    }
}

/// What the annotations of one declaration add to a set of bindings.
pub struct Extraction {
    /// The set afterwards.
    pub items: Seq<ClassItemView>,
    /// Why the declaration was given up, if it was.
    pub error: Option<DiagnosticView>,
}

/// Reads the annotations of one declaration from left to right. Each
/// annotation with one of the four keywords makes a binding, which joins the
/// set. The first annotation that is rejected, or whose binding is in the set
/// already, ends the declaration: the bindings before it stay in the set. A
/// binding that is there already is reported at its annotation.
pub open spec fn extract(
    items: Seq<ClassItemView>,
    sig: SignatureView,
    attrs: Seq<AttributeView>,
) -> Extraction
    decreases attrs.len(),
{
    if attrs.len() == 0 {
        Extraction { items, error: None }
    } else {
        match attr_keyword(attrs.first()) {
            None => extract(items, sig, attrs.drop_first()),
            Some(keyword) => {
                let meta = attrs.first().meta->0;
                match binding(keyword, sig, meta) {
                    Err(diagnostic) => Extraction { items, error: Some(diagnostic) },
                    Ok(item) => if contains_binding(items, item) {
                        Extraction {
                            items,
                            error: Some(
                                DiagnosticView {
                                    kind: ErrorKindView::Duplicate,
                                    span: meta.span(),
                                },
                            ),
                        }
                    } else {
                        extract(items.push(item), sig, attrs.drop_first())
                    },
                }
            },
        }
    }
}

/// The annotations that make no binding, in their order.
pub open spec fn unconsumed(attrs: Seq<AttributeView>) -> Seq<AttributeView> {
    attrs.filter(|attr: AttributeView| attr_keyword(attr) is None)
}

/// The annotations that a declaration is left with: all of them if it was
/// given up, else those that made no binding.
pub open spec fn attrs_after(
    items: Seq<ClassItemView>,
    sig: SignatureView,
    attrs: Seq<AttributeView>,
) -> Seq<AttributeView> {
    if extract(items, sig, attrs).error is None {
        unconsumed(attrs)
    } else {
        attrs
    }
}

/// The keyword that the path of an annotation stands for.
pub fn keyword_for(meta: &Meta) -> (keyword: Option<Keyword>)
    ensures
        keyword == keyword_of(meta@),
{
    let path = meta.path();
    if path.is_ident("pymethod") {
        Some(Keyword::Method)
    } else if path.is_ident("pyclassmethod") {
        Some(Keyword::ClassMethod)
    } else if path.is_ident("pyproperty") {
        Some(Keyword::Property)
    } else if path.is_ident("pyslot") {
        Some(Keyword::Slot)
    } else {
        None
    }
}

/// The keyword of an annotation on a declaration.
pub fn attribute_keyword(attr: &Attribute) -> (keyword: Option<Keyword>)
    ensures
        keyword == attr_keyword(attr@),
{
    match &attr.meta {
        Some(meta) => keyword_for(meta),
        None => None,
    }
}

/// The bindings of one processing pass: no binding stands in it twice.
#[derive(Debug, PartialEq, Eq)]
pub struct Class {
    items: Vec<ClassItem>,
}

impl View for Class {
    type V = Seq<ClassItemView>;

    closed spec fn view(&self) -> Seq<ClassItemView> {
        views(self.items@)
    }
}

impl Default for Class {
    fn default() -> (class: Class)
        ensures
            class@ == Seq::<ClassItemView>::empty(),
            class.wf(),
    {
        let class = Class { items: Vec::new() };
        assert(class@ =~= Seq::<ClassItemView>::empty());
        class
    }
}

impl Class {
    /// The invariant of the set.
    pub open spec fn wf(&self) -> bool {
        distinct_bindings(self@)
    }

    /// The bindings, in the order in which they came in.
    pub fn items(&self) -> (items: &Vec<ClassItem>)
        ensures
            views(items@) == self@,
    {
        &self.items
    }

    /// Whether the set holds a binding that is the same as `item`.
    pub fn contains(&self, item: &ClassItem) -> (found: bool)
        ensures
            found == contains_binding(self@, item@),
    {
        let mut i: usize = 0;
        while i < self.items.len()
            invariant
                i <= self.items@.len(),
                forall|j: int| 0 <= j < i ==> !same_binding(#[trigger] self@[j], item@),
            decreases self.items@.len() - i,
        {
            if self.items[i].same_binding(item) {
                assert(same_binding(self@[i as int], item@));
                return true;
            }
            i += 1;
        }
        false
    }

    /// Puts a binding into the set. One that is there already is refused and
    /// reported at `span`.
    pub fn add_item(&mut self, item: ClassItem, span: Span) -> (added: Result<(), Diagnostic>)
        requires
            old(self).wf(),
        ensures
            final(self).wf(),
            match added {
                Ok(_) => !contains_binding(old(self)@, item@) && final(self)@ == old(self)@.push(
                    item@,
                ),
                Err(diagnostic) => contains_binding(old(self)@, item@) && final(self)@ == old(
                    self,
                )@ && diagnostic@ == (DiagnosticView { kind: ErrorKindView::Duplicate, span }),
            },
    {
        if self.contains(&item) {
            Err(Diagnostic { kind: ErrorKind::Duplicate, span })
        } else {
            proof {
                lemma_views_push(self.items@, item);
            }
            self.items.push(item);
            Ok(())
        }
    }

    /// The binding of a method annotation.
    pub fn extract_method(sig: &Signature, meta: Meta) -> (item: Result<ClassItem, Diagnostic>)
        ensures
            result_view(item) == method_binding(sig@, meta@),
    {
        let bag = match parse_options(Keyword::Method, sig, meta) {
            Ok(bag) => bag,
            Err(diagnostic) => {
                return Err(diagnostic);
            },
        };
        let py_name = match bag.name {
            Some(name) => name,
            None => sig.ident.name.clone(),
        };
        Ok(ClassItem::Method { item_ident: sig.ident.clone(), py_name })
    }

    /// The binding of a class-method annotation.
    pub fn extract_classmethod(sig: &Signature, meta: Meta) -> (item: Result<
        ClassItem,
        Diagnostic,
    >)
        ensures
            result_view(item) == classmethod_binding(sig@, meta@),
    {
        let bag = match parse_options(Keyword::ClassMethod, sig, meta) {
            Ok(bag) => bag,
            Err(diagnostic) => {
                return Err(diagnostic);
            },
        };
        let py_name = match bag.name {
            Some(name) => name,
            None => sig.ident.name.clone(),
        };
        Ok(ClassItem::ClassMethod { item_ident: sig.ident.clone(), py_name })
    }

    /// The binding of a property annotation.
    pub fn extract_property(sig: &Signature, meta: Meta) -> (item: Result<ClassItem, Diagnostic>)
        ensures
            result_view(item) == property_binding(sig@, meta@),
    {
        let bag = match parse_options(Keyword::Property, sig, meta) {
            Ok(bag) => bag,
            Err(diagnostic) => {
                return Err(diagnostic);
            },
        };
        let setter = bag.setter;
        let py_name = match bag.name {
            Some(name) => name,
            None => {
                if setter {
                    match strip_prefix(sig.ident.name.as_str(), "set_") {
                        Some(name) => {
                            if name.as_str().is_empty() {
                                return Err(
                                    Diagnostic {
                                        kind: ErrorKind::SetterEmptyName,
                                        span: sig.ident.span,
                                    },
                                );
                            } else {
                                name
                            }
                        },
                        None => {
                            return Err(
                                Diagnostic {
                                    kind: ErrorKind::SetterNeedsName,
                                    span: sig.ident.span,
                                },
                            );
                        },
                    }
                } else {
                    sig.ident.name.clone()
                }
            },
        };
        Ok(ClassItem::Property { item_ident: sig.ident.clone(), py_name, setter })
    }

    /// The binding of a slot annotation.
    pub fn extract_slot(sig: &Signature, meta: Meta) -> (item: Result<ClassItem, Diagnostic>)
        ensures
            result_view(item) == slot_binding(sig@, meta@),
    {
        let span = meta.span();
        let mut nesteds = match meta_to_vec(meta) {
            Ok(nesteds) => nesteds,
            Err(_) => {
                return Err(Diagnostic { kind: ErrorKind::SlotForm, span });
            },
        };
        if nesteds.len() > 1 {
            let first = nesteds[0].span();
            let last = nesteds[nesteds.len() - 1].span();
            return Err(
                Diagnostic { kind: ErrorKind::SlotArgumentCount, span: first.join(last) },
            );
        }
        let slot_ident = match nesteds.pop() {
            None => {
                let name = match strip_prefix(sig.ident.name.as_str(), "tp_") {
                    Some(name) => name,
                    None => sig.ident.name.clone(),
                };
                Ident { name, span: sig.ident.span }
            },
            Some(NestedMeta::Meta(Meta::Path(path))) => match path.get_ident() {
                Some(ident) => ident,
                None => {
                    return Err(Diagnostic { kind: ErrorKind::SlotForm, span: path.span });
                },
            },
            Some(bad) => {
                return Err(Diagnostic { kind: ErrorKind::SlotForm, span: bad.span() });
            },
        };
        Ok(ClassItem::Slot { slot_ident, item_ident: sig.ident.clone() })
    }

    /// The binding that an annotation with this keyword makes of the function.
    pub fn extract_binding(keyword: Keyword, sig: &Signature, meta: Meta) -> (item: Result<
        ClassItem,
        Diagnostic,
    >)
        ensures
            result_view(item) == binding(keyword, sig@, meta@),
    {
        match keyword {
            Keyword::Method => Self::extract_method(sig, meta),
            Keyword::ClassMethod => Self::extract_classmethod(sig, meta),
            Keyword::Property => Self::extract_property(sig, meta),
            Keyword::Slot => Self::extract_slot(sig, meta),
        }
    }

    /// Classifies one declaration: every annotation with one of the four
    /// keywords makes a binding, which is put into the set. Where that
    /// succeeds for all of them, they are taken off the declaration and the
    /// other annotations stay as they are, in their order. Where one is
    /// rejected or makes a binding that is in the set already, the declaration
    /// keeps its annotations and the bindings made before stay in the set.
    pub fn extract_item(&mut self, attrs: &mut Vec<Attribute>, sig: &Signature) -> (done: Result<
        (),
        Diagnostic,
    >)
        requires
            old(self).wf(),
        ensures
            final(self).wf(),
            final(self)@ == extract(old(self)@, sig@, views(old(attrs)@)).items,
            match done {
                Ok(_) => extract(old(self)@, sig@, views(old(attrs)@)).error is None,
                Err(diagnostic) => extract(old(self)@, sig@, views(old(attrs)@)).error == Some(
                    diagnostic@,
                ),
            },
            views(final(attrs)@) == attrs_after(old(self)@, sig@, views(old(attrs)@)),
    {
        let ghost start = self@;
        let ghost all = views(attrs@);
        let mut i: usize = 0;
        assert(all.skip(0) =~= all);
        while i < attrs.len()
            invariant
                i <= attrs@.len(),
                attrs@ == old(attrs)@,
                all == views(attrs@),
                start == old(self)@,
                self.wf(),
                extract(start, sig@, all) == extract(self@, sig@, all.skip(i as int)),
            decreases attrs@.len() - i,
        {
            proof {
                assert(all.skip(i as int).first() == attrs@[i as int]@);
                assert(all.skip(i as int).drop_first() =~= all.skip(i + 1));
            }
            match attrs[i].parse_meta() {
                None => {},
                Some(meta) => {
                    let span = meta.span();
                    match keyword_for(&meta) {
                        None => {},
                        Some(keyword) => {
                            let item = match Self::extract_binding(keyword, sig, meta) {
                                Ok(item) => item,
                                Err(diagnostic) => {
                                    return Err(diagnostic);
                                },
                            };
                            match self.add_item(item, span) {
                                Ok(_) => {},
                                Err(diagnostic) => {
                                    return Err(diagnostic);
                                },
                            }
                        },
                    }
                },
            }
            i += 1;
        }
        let mut kept: usize = 0;
        let ghost mut seen: int = 0;
        proof {
            reveal(Seq::filter);
            assert(views(attrs@.take(0)) =~= unconsumed(all.take(0)));
            assert(views(attrs@.skip(0)) =~= all.skip(0));
        }
        while kept < attrs.len()
            invariant
                kept <= attrs@.len(),
                0 <= seen <= all.len(),
                attrs@.len() - kept == all.len() - seen,
                views(attrs@.take(kept as int)) == unconsumed(all.take(seen)),
                views(attrs@.skip(kept as int)) == all.skip(seen),
            decreases attrs@.len() - kept,
        {
            let ghost before = attrs@;
            proof {
                reveal(Seq::filter);
                assert(views(before.skip(kept as int))[0] == before[kept as int]@);
                assert(all.skip(seen)[0] == all[seen]);
                assert(all.take(seen + 1).drop_last() =~= all.take(seen));
                assert(all.take(seen + 1).last() == all[seen]);
            }
            if attribute_keyword(&attrs[kept]).is_some() {
                attrs.remove(kept);
                proof {
                    assert(attrs@.take(kept as int) =~= before.take(kept as int));
                    assert(attrs@.skip(kept as int) =~= before.skip(kept as int).drop_first());
                    assert(views(before.skip(kept as int).drop_first()) =~= views(
                        before.skip(kept as int),
                    ).drop_first());
                    assert(all.skip(seen).drop_first() =~= all.skip(seen + 1));
                    seen = seen + 1;
                }
            } else {
                proof {
                    assert(before.take(kept + 1) =~= before.take(kept as int).push(
                        before[kept as int],
                    ));
                    lemma_views_push(before.take(kept as int), before[kept as int]);
                    assert(views(before.skip(kept + 1)) =~= views(
                        before.skip(kept as int),
                    ).drop_first());
                    assert(all.skip(seen).drop_first() =~= all.skip(seen + 1));
                    seen = seen + 1;
                }
                kept += 1;
            }
        }
        proof {
            assert(attrs@.take(kept as int) =~= attrs@);
            assert(all.take(seen) =~= all);
        }
        Ok(())
    }
}

} // verus!
