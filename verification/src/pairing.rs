//! Property pairing: the getter and the setter of each exposed property name.
//!
//! The first binding that claims a role for a name holds it. A later binding
//! that claims the same role for the same name is an error, reported at that
//! later binding; it changes nothing.

use vstd::prelude::*;
use crate::class::{ClassItem, ClassItemView};
use crate::diagnostic::{Diagnostic, DiagnosticView, ErrorKind, ErrorKindView};
use crate::lift::{lemma_views_push, option_view, views};
use crate::meta::{Ident, IdentView};

verus! {

/// The accessors of one property.
#[derive(Debug, PartialEq, Eq)]
pub struct PropertyEntry {
    pub py_name: String,
    pub getter: Option<Ident>,
    pub setter: Option<Ident>,
}

pub struct PropertyEntryView {
    pub py_name: Seq<char>,
    pub getter: Option<IdentView>,
    pub setter: Option<IdentView>,
}

impl View for PropertyEntry {
    type V = PropertyEntryView;

    open spec fn view(&self) -> PropertyEntryView {
        PropertyEntryView {
            py_name: self.py_name@,
            getter: option_view(self.getter),
            setter: option_view(self.setter),
        }
    }
}

impl PropertyEntryView {
    /// The function in one of the two roles.
    pub open spec fn accessor(self, setter: bool) -> Option<IdentView> {
        if setter {
            self.setter
        } else {
            self.getter
        }
    }
}

/// Whether a binding is the accessor of the property `name` in this role.
pub open spec fn is_accessor(item: ClassItemView, name: Seq<char>, setter: bool) -> bool {
    item matches ClassItemView::Property { py_name, setter: role, .. } && py_name == name && role
        == setter
}

/// The function of the first binding that is the accessor of the property
/// `name` in this role.
pub open spec fn first_accessor(items: Seq<ClassItemView>, name: Seq<char>, setter: bool) -> Option<
    IdentView,
>
    decreases items.len(),
{
    if items.len() == 0 {
        None
    } else {
        match first_accessor(items.drop_last(), name, setter) {
            Some(ident) => Some(ident),
            None => if is_accessor(items.last(), name, setter) {
                Some(items.last()->Property_item_ident)
            } else {
                None
            },
        }
    }
}

/// The exposed names of the properties, each once, in the order in which they
/// first occur.
pub open spec fn property_names(items: Seq<ClassItemView>) -> Seq<Seq<char>>
    decreases items.len(),
{
    if items.len() == 0 {
        Seq::empty()
    } else {
        let before = property_names(items.drop_last());
        match items.last() {
            ClassItemView::Property { py_name, .. } => if before.contains(py_name) {
                before
            } else {
                before.push(py_name)
            },
            _ => before,
        }
    }
}

/// The accessors of the property `name`.
pub open spec fn entry(items: Seq<ClassItemView>, name: Seq<char>) -> PropertyEntryView {
    PropertyEntryView {
        py_name: name,
        getter: first_accessor(items, name, false),
        setter: first_accessor(items, name, true),
    }
}

/// The pairing of a set of bindings: one entry for each property name.
pub open spec fn pairing(items: Seq<ClassItemView>) -> Seq<PropertyEntryView> {
    let names = property_names(items);
    Seq::new(names.len(), |i: int| entry(items, names[i]))
}

/// The errors of the bindings that claim a role which an earlier binding
/// holds, in the order of those bindings.
pub open spec fn clashes(items: Seq<ClassItemView>) -> Seq<DiagnosticView>
    decreases items.len(),
{
    if items.len() == 0 {
        Seq::empty()
    } else {
        let before = clashes(items.drop_last());
        match items.last() {
            ClassItemView::Property { item_ident, py_name, setter } => if first_accessor(
                items.drop_last(),
                py_name,
                setter,
            ) is Some {
                before.push(
                    DiagnosticView {
                        kind: ErrorKindView::MultipleAccessors(py_name),
                        span: item_ident.span,
                    },
                )
            } else {
                before
            },
            _ => before,
        }
    }
}

/// Whether no two entries have the same name.
pub open spec fn distinct_names(entries: Seq<PropertyEntryView>) -> bool {
    forall|i: int, j: int|
        0 <= i < j < entries.len() ==> (#[trigger] entries[i]).py_name != (
        #[trigger] entries[j]).py_name
}

/// A property that has an accessor has a name among the property names.
pub proof fn lemma_accessor_is_named(items: Seq<ClassItemView>, name: Seq<char>, setter: bool)
    ensures
        first_accessor(items, name, setter) is Some ==> property_names(items).contains(name),
    decreases items.len(),
{
    if items.len() > 0 {
        let before = property_names(items.drop_last());
        lemma_accessor_is_named(items.drop_last(), name, setter);
        if first_accessor(items.drop_last(), name, setter) is Some {
            let k = choose|k: int| 0 <= k < before.len() && before[k] == name;
            assert(property_names(items)[k] == name);
        } else if is_accessor(items.last(), name, setter) {
            if !before.contains(name) {
                assert(before.push(name)[before.len() as int] == name);
            }
        }
    }
}

/// Every property name has an accessor, and no name stands twice.
pub proof fn lemma_pairing_wf(items: Seq<ClassItemView>)
    ensures
        distinct_names(pairing(items)),
        forall|i: int|
            0 <= i < pairing(items).len() ==> {
                ||| (#[trigger] pairing(items)[i]).getter is Some
                ||| pairing(items)[i].setter is Some
            },
    decreases items.len(),
{
    if items.len() > 0 {
        let shorter = items.drop_last();
        lemma_pairing_wf(shorter);
        let before = property_names(shorter);
        let names = property_names(items);
        assert forall|i: int| 0 <= i < pairing(items).len() implies {
            ||| (#[trigger] pairing(items)[i]).getter is Some
            ||| pairing(items)[i].setter is Some
        } by {
            if i < before.len() {
                assert(pairing(shorter)[i].getter is Some || pairing(shorter)[i].setter is Some);
            }
        }
        assert forall|i: int, j: int| 0 <= i < j < pairing(items).len() implies (
        #[trigger] pairing(items)[i]).py_name != (#[trigger] pairing(items)[j]).py_name by {
            if j < before.len() {
                assert(pairing(shorter)[i].py_name != pairing(shorter)[j].py_name);
            } else {
                assert(before.contains(before[i]));
            }
        }
    }
}

/// The property pairing of one processing pass: for each exposed property
/// name one entry, which holds a getter, a setter or both.
#[derive(Debug, PartialEq, Eq)]
pub struct PropertyPairing {
    entries: Vec<PropertyEntry>,
}

impl View for PropertyPairing {
    type V = Seq<PropertyEntryView>;

    closed spec fn view(&self) -> Seq<PropertyEntryView> {
        views(self.entries@)
    }
}

impl PropertyEntry {
    /// Gives a role to `ident` if nobody holds it.
    fn claim(&mut self, setter: bool, ident: &Ident) -> (free: bool)
        ensures
            free == (old(self)@.accessor(setter) is None),
            free ==> final(self)@ == if setter {
                PropertyEntryView { setter: Some(ident@), ..old(self)@ }
            } else {
                PropertyEntryView { getter: Some(ident@), ..old(self)@ }
            },
            !free ==> final(self)@ == old(self)@,
    {
        if setter {
            if self.setter.is_some() {
                false
            } else {
                self.setter = Some(ident.clone());
                true
            }
        } else {
            if self.getter.is_some() {
                false
            } else {
                self.getter = Some(ident.clone());
                true
            }
        }
    }
}

impl PropertyPairing {
    /// The invariant of the pairing: no name stands twice, and every entry
    /// has a getter or a setter.
    pub open spec fn wf(&self) -> bool {
        &&& distinct_names(self@)
        &&& forall|i: int|
            0 <= i < self@.len() ==> {
                ||| (#[trigger] self@[i]).getter is Some
                ||| self@[i].setter is Some
            }
    }

    /// The entries, in the order in which their names first occur.
    pub fn entries(&self) -> (entries: &Vec<PropertyEntry>)
        ensures
            views(entries@) == self@,
    {
        &self.entries
    }

    /// The place of the entry for `name`.
    fn position(&self, name: &String) -> (place: Option<usize>)
        ensures
            match place {
                Some(k) => k < self@.len() && self@[k as int].py_name == name@,
                None => forall|j: int| 0 <= j < self@.len() ==> (#[trigger] self@[j]).py_name
                    != name@,
            },
    {
        let mut k: usize = 0;
        while k < self.entries.len()
            invariant
                k <= self.entries@.len(),
                forall|j: int| 0 <= j < k ==> (#[trigger] self@[j]).py_name != name@,
            decreases self.entries@.len() - k,
        {
            if self.entries[k].py_name == *name {
                return Some(k);
            }
            k += 1;
        }
        None
    }

    /// Pairs the property bindings among `items`, and adds to `diagnostics` an
    /// error for each binding that claims a role which an earlier one holds.
    pub fn build(items: &Vec<ClassItem>, diagnostics: &mut Vec<Diagnostic>) -> (paired:
        PropertyPairing)
        ensures
            paired.wf(),
            paired@ == pairing(views(items@)),
            views(final(diagnostics)@) == views(old(diagnostics)@) + clashes(views(items@)),
    {
        let ghost all = views(items@);
        let ghost reported = views(diagnostics@);
        let mut paired = PropertyPairing { entries: Vec::new() };
        let mut i: usize = 0;
        proof {
            assert(paired@ =~= pairing(all.take(0)));
            assert(views(diagnostics@) =~= reported + clashes(all.take(0)));
        }
        while i < items.len()
            invariant
                i <= items@.len(),
                all == views(items@),
                paired@ == pairing(all.take(i as int)),
                views(diagnostics@) == reported + clashes(all.take(i as int)),
            decreases items@.len() - i,
        {
            let ghost shorter = all.take(i as int);
            let ghost longer = all.take(i + 1);
            let ghost names = property_names(shorter);
            proof {
                assert(longer.drop_last() =~= shorter);
                assert(longer.last() == items@[i as int]@);
                lemma_pairing_wf(shorter);
            }
            match &items[i] {
                ClassItem::Property { item_ident, py_name, setter } => {
                    proof {
                        lemma_accessor_is_named(shorter, py_name@, true);
                        lemma_accessor_is_named(shorter, py_name@, false);
                    }
                    match paired.position(py_name) {
                        Some(k) => {
                            assert(names.contains(py_name@)) by {
                                assert(names[k as int] == py_name@);
                            }
                            let ghost old_entries = paired@;
                            let slot = &mut paired.entries[k];
                            let free = slot.claim(*setter, item_ident);
                            if !free {
                                let ghost old_reported = diagnostics@;
                                let clash = Diagnostic {
                                    kind: ErrorKind::MultipleAccessors(py_name.clone()),
                                    span: item_ident.span,
                                };
                                proof {
                                    lemma_views_push(old_reported, clash);
                                }
                                diagnostics.push(clash);
                                assert(views(diagnostics@) =~= reported + clashes(longer));
                            }
                            assert(paired@ =~= pairing(longer)) by {
                                assert forall|j: int| 0 <= j < names.len() implies paired@[j]
                                    == pairing(longer)[j] by {
                                    if j != k {
                                        assert(old_entries[j].py_name != old_entries[k as int].py_name);
                                    }
                                }
                            }
                        },
                        None => {
                            assert(!names.contains(py_name@)) by {
                                if names.contains(py_name@) {
                                    let j = choose|j: int|
                                        0 <= j < names.len() && names[j] == py_name@;
                                    assert(paired@[j].py_name == py_name@);
                                }
                            }
                            let fresh = if *setter {
                                PropertyEntry {
                                    py_name: py_name.clone(),
                                    getter: None,
                                    setter: Some(item_ident.clone()),
                                }
                            } else {
                                PropertyEntry {
                                    py_name: py_name.clone(),
                                    getter: Some(item_ident.clone()),
                                    setter: None,
                                }
                            };
                            proof {
                                lemma_views_push(paired.entries@, fresh);
                            }
                            paired.entries.push(fresh);
                            assert(paired@ =~= pairing(longer)) by {
                                assert forall|j: int| 0 <= j < names.len() implies paired@[j]
                                    == pairing(longer)[j] by {
                                    assert(names.contains(names[j]));
                                }
                            }
                        },
                    }
                },
                _ => {
                    assert(paired@ =~= pairing(longer));
                },
            }
            i += 1;
        }
        proof {
            assert(all.take(i as int) =~= all);
            lemma_pairing_wf(all);
        }
        paired
    }
}

} // verus!
