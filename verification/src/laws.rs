//! What holds of every pass.

use vstd::prelude::*;
use crate::class::{
    ClassItemView, Extraction, attr_keyword, binding, contains_binding, default_slot_name,
    distinct_bindings, extract, method_binding, property_binding, same_binding, slot_binding,
};
use crate::diagnostic::{Category, DiagnosticView, ErrorKindView, Keyword};
use crate::emit::{
    Classified, StatementView, classify, collaborators, decls_after, diagnostics_of, invocations,
    local_statement, local_statements, missing_getter, missing_getters, own_statements,
    property_statement, property_statements, registration, with_argument, with_paths,
};
use crate::lift::{
    lemma_filter_map_all, lemma_filter_map_none, lemma_filter_map_some, lemma_filter_map_source,
};
use crate::meta::{
    AttributeView, IdentView, ItemSigView, MetaView, NestedMetaView, PathView, SignatureView,
};
use crate::options::{
    EffectView, OptionBagView, effect, effects, first_failure, last_name, magic_name, options,
};
use crate::pairing::{
    PropertyEntryView, clashes, first_accessor, is_accessor, lemma_accessor_is_named,
    lemma_pairing_wf, pairing, property_names,
};
use crate::text::{after, starts_with};

verus! {

/// The binding that an annotation makes of the function, if it makes one.
pub open spec fn attr_binding(sig: SignatureView, attr: AttributeView) -> Option<ClassItemView> {
    match attr_keyword(attr) {
        Some(keyword) => match binding(keyword, sig, attr.meta->0) {
            Ok(item) => Some(item),
            Err(_) => None,
        },
        None => None,
    }
}

/// Whether every annotation of the declaration that has one of the four
/// keywords makes a binding.
pub open spec fn accepted(sig: SignatureView, attrs: Seq<AttributeView>) -> bool {
    forall|a: int|
        0 <= a < attrs.len() && attr_keyword(#[trigger] attrs[a]) is Some ==> attr_binding(
            sig,
            attrs[a],
        ) is Some
}

/// Whether every declaration is accepted.
pub open spec fn all_accepted(decls: Seq<ItemSigView>) -> bool {
    forall|d: int| 0 <= d < decls.len() ==> accepted((#[trigger] decls[d]).sig, decls[d].attrs)
}

/// The bindings that the annotations of one declaration make, in source
/// order.
pub open spec fn bindings_of(sig: SignatureView, attrs: Seq<AttributeView>) -> Seq<ClassItemView>
    decreases attrs.len(),
{
    if attrs.len() == 0 {
        Seq::empty()
    } else {
        match attr_binding(sig, attrs.first()) {
            Some(item) => seq![item] + bindings_of(sig, attrs.drop_first()),
            None => bindings_of(sig, attrs.drop_first()),
        }
    }
}

/// The bindings that the declarations make, in source order.
pub open spec fn declared(decls: Seq<ItemSigView>) -> Seq<ClassItemView>
    decreases decls.len(),
{
    if decls.len() == 0 {
        Seq::empty()
    } else {
        declared(decls.drop_last()) + bindings_of(decls.last().sig, decls.last().attrs)
    }
}

/// Whether `later` claims the role that `earlier` holds.
pub open spec fn same_role(earlier: ClassItemView, later: ClassItemView) -> bool {
    earlier matches ClassItemView::Property { py_name, setter, .. } && is_accessor(
        later,
        py_name,
        setter,
    )
}

/// Whether the roles of the properties are resolved: no role of a property is
/// claimed twice, and every property that has a setter has a getter.
pub open spec fn roles_resolved(items: Seq<ClassItemView>) -> bool {
    &&& forall|i: int, j: int|
        0 <= i < j < items.len() ==> !same_role(#[trigger] items[i], #[trigger] items[j])
    &&& forall|j: int|
        0 <= j < items.len() && (#[trigger] items[j]) is Property
            && items[j]->Property_setter ==> exists|i: int|
            0 <= i < items.len() && is_accessor(
                #[trigger] items[i],
                items[j]->Property_py_name,
                false,
            )
}

/// Whether a sequence of statements is well formed: no statement of the
/// type's own follows the call of a collaborator, and no property is
/// installed twice.
pub open spec fn well_formed(statements: Seq<StatementView>) -> bool {
    &&& forall|i: int, j: int|
        0 <= i < j < statements.len() && (#[trigger] statements[i]) is InvokeCollaborator ==> (
        #[trigger] statements[j]) is InvokeCollaborator
    &&& forall|i: int, j: int|
        0 <= i < j < statements.len() && (#[trigger] statements[i]) is InstallProperty && (
        #[trigger] statements[j]) is InstallProperty
            ==> statements[i]->InstallProperty_py_name != statements[j]->InstallProperty_py_name
}

/// A role is held if and only if some binding claims it.
pub proof fn lemma_first_accessor(items: Seq<ClassItemView>, name: Seq<char>, setter: bool)
    ensures
        first_accessor(items, name, setter) is Some <==> exists|i: int|
            0 <= i < items.len() && is_accessor(#[trigger] items[i], name, setter),
    decreases items.len(),
{
    if items.len() > 0 {
        let shorter = items.drop_last();
        lemma_first_accessor(shorter, name, setter);
        if first_accessor(items, name, setter) is Some {
            if first_accessor(shorter, name, setter) is Some {
                let i = choose|i: int|
                    0 <= i < shorter.len() && is_accessor(#[trigger] shorter[i], name, setter);
                assert(is_accessor(items[i], name, setter));
            } else {
                assert(is_accessor(items[items.len() - 1], name, setter));
            }
        }
        if exists|i: int| 0 <= i < items.len() && is_accessor(#[trigger] items[i], name, setter) {
            let i = choose|i: int|
                0 <= i < items.len() && is_accessor(#[trigger] items[i], name, setter);
            if i < shorter.len() {
                assert(is_accessor(shorter[i], name, setter));
            }
        }
    }
}

/// Where no role is claimed twice, pairing reports nothing.
pub proof fn lemma_no_clashes(items: Seq<ClassItemView>)
    requires
        forall|i: int, j: int|
            0 <= i < j < items.len() ==> !same_role(#[trigger] items[i], #[trigger] items[j]),
    ensures
        clashes(items) == Seq::<DiagnosticView>::empty(),
    decreases items.len(),
{
    if items.len() > 0 {
        let shorter = items.drop_last();
        assert forall|i: int, j: int| 0 <= i < j < shorter.len() implies !same_role(
            #[trigger] shorter[i],
            #[trigger] shorter[j],
        ) by {
            assert(!same_role(items[i], items[j]));
        }
        lemma_no_clashes(shorter);
        match items.last() {
            ClassItemView::Property { item_ident, py_name, setter } => {
                lemma_first_accessor(shorter, py_name, setter);
                if first_accessor(shorter, py_name, setter) is Some {
                    let i = choose|i: int|
                        0 <= i < shorter.len() && is_accessor(
                            #[trigger] shorter[i],
                            py_name,
                            setter,
                        );
                    assert(same_role(items[i], items[items.len() - 1]));
                }
            },
            _ => {},
        }
    }
}

/// A declaration whose annotations are all accepted, and whose bindings are
/// neither in the set nor twice among themselves, adds its bindings to the
/// set in source order.
pub proof fn lemma_extract_clean(
    items: Seq<ClassItemView>,
    sig: SignatureView,
    attrs: Seq<AttributeView>,
)
    requires
        accepted(sig, attrs),
        distinct_bindings(items + bindings_of(sig, attrs)),
    ensures
        extract(items, sig, attrs) == (Extraction {
            items: items + bindings_of(sig, attrs),
            error: None,
        }),
    decreases attrs.len(),
{
    if attrs.len() == 0 {
        assert(items + bindings_of(sig, attrs) =~= items);
    } else {
        let rest = attrs.drop_first();
        assert forall|a: int|
            0 <= a < rest.len() && attr_keyword(#[trigger] rest[a]) is Some implies attr_binding(
            sig,
            rest[a],
        ) is Some by {
            assert(rest[a] == attrs[a + 1]);
        }
        match attr_keyword(attrs.first()) {
            None => {
                lemma_extract_clean(items, sig, rest);
            },
            Some(keyword) => {
                assert(attrs[0] == attrs.first());
                let item = attr_binding(sig, attrs.first())->0;
                let all = items + bindings_of(sig, attrs);
                assert(all =~= items.push(item) + bindings_of(sig, rest));
                if contains_binding(items, item) {
                    let i = choose|i: int|
                        0 <= i < items.len() && same_binding(#[trigger] items[i], item);
                    assert(all[i] == items[i]);
                    assert(all[items.len() as int] == item);
                    assert(!same_binding(all[i], all[items.len() as int]));
                }
                lemma_extract_clean(items.push(item), sig, rest);
            },
        }
    }
}

/// A prefix of distinct bindings is distinct.
pub proof fn lemma_distinct_prefix(front: Seq<ClassItemView>, back: Seq<ClassItemView>)
    requires
        distinct_bindings(front + back),
    ensures
        distinct_bindings(front),
{
    let all = front + back;
    assert forall|i: int, j: int| 0 <= i < j < front.len() implies !same_binding(
        #[trigger] front[i],
        #[trigger] front[j],
    ) by {
        assert(all[i] == front[i] && all[j] == front[j]);
        assert(!same_binding(all[i], all[j]));
    }
}

/// Declarations whose annotations are all accepted and make no binding twice
/// are classified without an error, into their bindings in source order.
pub proof fn lemma_classify_clean(decls: Seq<ItemSigView>)
    requires
        all_accepted(decls),
        distinct_bindings(declared(decls)),
    ensures
        classify(decls) == (Classified {
            items: declared(decls),
            diagnostics: Seq::<DiagnosticView>::empty(),
        }),
    decreases decls.len(),
{
    if decls.len() > 0 {
        let shorter = decls.drop_last();
        let last = decls.last();
        assert forall|d: int| 0 <= d < shorter.len() implies accepted(
            (#[trigger] shorter[d]).sig,
            shorter[d].attrs,
        ) by {
            assert(shorter[d] == decls[d]);
        }
        lemma_distinct_prefix(declared(shorter), bindings_of(last.sig, last.attrs));
        lemma_classify_clean(shorter);
        assert(last == decls[decls.len() - 1]);
        lemma_extract_clean(declared(shorter), last.sig, last.attrs);
    }
}

/// The statements of the type's own bindings change the type's own tables;
/// those of the methods, class-level methods and hooks install no property.
pub proof fn lemma_own_statements(items: Seq<ClassItemView>)
    ensures
        forall|k: int|
            0 <= k < own_statements(items).len() ==> (#[trigger] own_statements(
                items,
            )[k]).is_local(),
        forall|k: int|
            0 <= k < local_statements(items).len() ==> !((#[trigger] local_statements(
                items,
            )[k]) is InstallProperty),
        forall|k: int|
            0 <= k < property_statements(pairing(items)).len() ==> (#[trigger] property_statements(
                pairing(items),
            )[k]) is InstallProperty,
{
    let locals = local_statements(items);
    let installs = property_statements(pairing(items));
    assert forall|k: int| 0 <= k < locals.len() implies (#[trigger] locals[k]).is_local() && !(
    locals[k] is InstallProperty) by {
        lemma_filter_map_source(items, |item: ClassItemView| local_statement(item), k);
    }
    assert forall|k: int| 0 <= k < installs.len() implies (
    #[trigger] installs[k]) is InstallProperty by {
        lemma_filter_map_source(
            pairing(items),
            |entry: PropertyEntryView| property_statement(entry),
            k,
        );
    }
    assert forall|k: int| 0 <= k < own_statements(items).len() implies (#[trigger] own_statements(
        items,
    )[k]).is_local() by {
        if k < locals.len() {
            assert(own_statements(items)[k] == locals[k]);
        } else {
            assert(own_statements(items)[k] == installs[k - locals.len()]);
        }
    }
}

/// Where no getter is missing, every property has a getter and its statement
/// stands at the place of its entry.
pub proof fn lemma_every_property_installed(items: Seq<ClassItemView>)
    requires
        missing_getters(pairing(items)).len() == 0,
    ensures
        property_statements(pairing(items)).len() == pairing(items).len(),
        forall|k: int|
            0 <= k < pairing(items).len() ==> property_statement(#[trigger] pairing(items)[k])
                == Some(property_statements(pairing(items))[k]),
{
    let entries = pairing(items);
    lemma_pairing_wf(items);
    assert forall|k: int| 0 <= k < entries.len() implies property_statement(
        #[trigger] entries[k],
    ) is Some by {
        if entries[k].getter is None {
            assert(entries[k].setter is Some);
            assert(missing_getter(entries[k]) is Some);
            lemma_filter_map_some(entries, |entry: PropertyEntryView| missing_getter(entry), k);
        }
    }
    lemma_filter_map_all(entries, |entry: PropertyEntryView| property_statement(entry));
}

/// Every outcome that holds statements holds them in this shape: first those
/// of the type's own bindings, none of which calls a collaborator, then one
/// call for each collaborator that the block-level arguments list, in source
/// order.
pub proof fn lemma_collaborators_come_last(
    attr: Seq<NestedMetaView>,
    decls: Seq<ItemSigView>,
)
    requires
        registration(attr, decls) is Ok,
    ensures
        diagnostics_of(decls).len() == 0,
        collaborators(attr) is Ok,
        ({
            let statements = registration(attr, decls)->Ok_0;
            let own = own_statements(classify(decls).items);
            let paths = collaborators(attr)->Ok_0;
            &&& statements.len() == own.len() + paths.len()
            &&& forall|k: int| 0 <= k < own.len() ==> (#[trigger] statements[k]).is_local()
            &&& forall|k: int|
                0 <= k < paths.len() ==> #[trigger] statements[own.len() + k]
                    == (StatementView::InvokeCollaborator { path: paths[k] })
        }),
{
    let statements = registration(attr, decls)->Ok_0;
    let own = own_statements(classify(decls).items);
    let paths = collaborators(attr)->Ok_0;
    lemma_own_statements(classify(decls).items);
    assert forall|k: int| 0 <= k < own.len() implies (#[trigger] statements[k]).is_local() by {
        assert(statements[k] == own[k]);
    }
    assert forall|k: int| 0 <= k < paths.len() implies #[trigger] statements[own.len() + k]
        == (StatementView::InvokeCollaborator { path: paths[k] }) by {
        assert(statements[own.len() + k] == invocations(paths)[k]);
    }
}

/// Every outcome that holds statements is well formed.
pub proof fn lemma_outcome_well_formed(attr: Seq<NestedMetaView>, decls: Seq<ItemSigView>)
    requires
        registration(attr, decls) is Ok,
    ensures
        well_formed(registration(attr, decls)->Ok_0),
{
    let statements = registration(attr, decls)->Ok_0;
    let items = classify(decls).items;
    let locals = local_statements(items);
    let installs = property_statements(pairing(items));
    let own = own_statements(items);
    let paths = collaborators(attr)->Ok_0;
    lemma_collaborators_come_last(attr, decls);
    lemma_own_statements(items);
    assert(missing_getters(pairing(items)).len() == 0);
    lemma_every_property_installed(items);
    lemma_pairing_wf(items);
    assert forall|i: int, j: int|
        0 <= i < j < statements.len() && (#[trigger] statements[i]) is InvokeCollaborator implies (
    #[trigger] statements[j]) is InvokeCollaborator by {
        if i < own.len() {
            assert(statements[i].is_local());
        }
        assert(statements[own.len() + (j - own.len())] == (StatementView::InvokeCollaborator {
            path: paths[j - own.len()],
        }));
    }
    assert forall|i: int, j: int|
        0 <= i < j < statements.len() && (#[trigger] statements[i]) is InstallProperty && (
        #[trigger] statements[j]) is InstallProperty implies statements[i]->InstallProperty_py_name
        != statements[j]->InstallProperty_py_name by {
        if j >= own.len() {
            assert(statements[own.len() + (j - own.len())] == (StatementView::InvokeCollaborator {
                path: paths[j - own.len()],
            }));
        }
        assert(statements[i] == own[i] && statements[j] == own[j]);
        if i < locals.len() {
            assert(own[i] == locals[i]);
        }
        if j < locals.len() {
            assert(own[j] == locals[j]);
        }
        let a = i - locals.len();
        let b = j - locals.len();
        assert(own[i] == installs[a] && own[j] == installs[b]);
        assert(property_statement(pairing(items)[a]) == Some(installs[a]));
        assert(property_statement(pairing(items)[b]) == Some(installs[b]));
        assert(pairing(items)[a].py_name != pairing(items)[b].py_name);
    }
}

/// Where the roles are resolved, pairing reports nothing.
pub proof fn lemma_roles_resolved(items: Seq<ClassItemView>)
    requires
        roles_resolved(items),
    ensures
        clashes(items) == Seq::<DiagnosticView>::empty(),
        missing_getters(pairing(items)) == Seq::<DiagnosticView>::empty(),
{
    lemma_no_clashes(items);
    let entries = pairing(items);
    assert forall|k: int| 0 <= k < entries.len() implies missing_getter(
        #[trigger] entries[k],
    ) is None by {
        let name = entries[k].py_name;
        if entries[k].setter is Some {
            lemma_first_accessor(items, name, true);
            let j = choose|j: int|
                0 <= j < items.len() && is_accessor(#[trigger] items[j], name, true);
            assert(items[j] is Property && items[j]->Property_setter);
            lemma_first_accessor(items, name, false);
        }
    }
    lemma_filter_map_none(entries, |entry: PropertyEntryView| missing_getter(entry));
}

/// Declarations whose annotations are all accepted, whose bindings are
/// distinct and whose property roles are resolved, together with block-level
/// arguments that are well formed, pass with zero diagnostics: the outcome is
/// a well-formed sequence of statements, and it is not empty if there is a
/// binding or a collaborator at all.
pub proof fn lemma_clean_pass(attr: Seq<NestedMetaView>, decls: Seq<ItemSigView>)
    requires
        all_accepted(decls),
        distinct_bindings(declared(decls)),
        roles_resolved(declared(decls)),
        collaborators(attr) is Ok,
    ensures
        diagnostics_of(decls) == Seq::<DiagnosticView>::empty(),
        classify(decls).items == declared(decls),
        registration(attr, decls) is Ok,
        well_formed(registration(attr, decls)->Ok_0),
        declared(decls).len() > 0 || collaborators(attr)->Ok_0.len() > 0 ==> registration(
            attr,
            decls,
        )->Ok_0.len() > 0,
{
    let items = declared(decls);
    lemma_classify_clean(decls);
    lemma_roles_resolved(items);
    assert(diagnostics_of(decls) =~= Seq::<DiagnosticView>::empty());
    lemma_outcome_well_formed(attr, decls);
    lemma_every_property_installed(items);
    if items.len() > 0 {
        match items[0] {
            ClassItemView::Property { py_name, setter, .. } => {
                lemma_first_accessor(items, py_name, setter);
                lemma_accessor_is_named(items, py_name, setter);
                assert(property_names(items).len() > 0);
            },
            _ => {
                lemma_filter_map_some(items, |item: ClassItemView| local_statement(item), 0);
            },
        }
    }
}

/// A pass is a function of its arguments: the same block-level arguments and
/// the same declarations give the same outcome, with the same diagnostics in
/// the same order or the same statements in the same order, and leave the
/// same declarations.
pub proof fn lemma_pass_repeats(
    attr: Seq<NestedMetaView>,
    decls: Seq<ItemSigView>,
    attr_again: Seq<NestedMetaView>,
    decls_again: Seq<ItemSigView>,
)
    requires
        attr_again == attr,
        decls_again == decls,
    ensures
        registration(attr_again, decls_again) == registration(attr, decls),
        diagnostics_of(decls_again) == diagnostics_of(decls),
        decls_after(decls_again) == decls_after(decls),
{
}

/// Where every argument of `with(...)` is a path, the collaborators are these
/// paths, in source order.
pub proof fn lemma_with_paths_in_order(args: Seq<NestedMetaView>)
    requires
        forall|i: int|
            0 <= i < args.len() ==> (#[trigger] args[i]) matches NestedMetaView::Meta(
                MetaView::Path(_),
            ),
    ensures
        with_paths(args) == Ok::<Seq<PathView>, DiagnosticView>(
            Seq::new(args.len(), |i: int| args[i]->Meta_0->Path_0),
        ),
    decreases args.len(),
{
    let parts = Seq::new(args.len(), |i: int| with_argument(args[i]));
    let paths = Seq::new(args.len(), |i: int| args[i]->Meta_0->Path_0);
    if args.len() == 0 {
        assert(paths =~= Seq::<PathView>::empty());
    } else {
        let rest = args.drop_first();
        assert forall|i: int| 0 <= i < rest.len() implies (
        #[trigger] rest[i]) matches NestedMetaView::Meta(MetaView::Path(_)) by {
            assert(rest[i] == args[i + 1]);
        }
        lemma_with_paths_in_order(rest);
        assert(parts.drop_first() =~= Seq::new(rest.len(), |i: int| with_argument(rest[i])));
        assert(args[0] matches NestedMetaView::Meta(MetaView::Path(_)));
        assert(parts.first() == with_argument(args[0]));
        assert(seq![args[0]->Meta_0->Path_0] + Seq::new(
            rest.len(),
            |i: int| rest[i]->Meta_0->Path_0,
        ) =~= paths);
    }
}

/// A declaration leaves a set without a binding that stands twice as one.
pub proof fn lemma_extract_distinct(
    items: Seq<ClassItemView>,
    sig: SignatureView,
    attrs: Seq<AttributeView>,
)
    requires
        distinct_bindings(items),
    ensures
        distinct_bindings(extract(items, sig, attrs).items),
    decreases attrs.len(),
{
    if attrs.len() > 0 {
        match attr_keyword(attrs.first()) {
            None => {
                lemma_extract_distinct(items, sig, attrs.drop_first());
            },
            Some(keyword) => {
                match binding(keyword, sig, attrs.first().meta->0) {
                    Err(_) => {},
                    Ok(item) => {
                        if !contains_binding(items, item) {
                            let more = items.push(item);
                            assert forall|i: int, j: int|
                                0 <= i < j < more.len() implies !same_binding(
                                #[trigger] more[i],
                                #[trigger] more[j],
                            ) by {
                                if j < items.len() {
                                    assert(!same_binding(items[i], items[j]));
                                } else {
                                    assert(more[i] == items[i]);
                                }
                            }
                            lemma_extract_distinct(more, sig, attrs.drop_first());
                        }
                    },
                }
            },
        }
    }
}

/// No binding stands twice in the set of a pass, whatever the declarations.
pub proof fn lemma_bindings_are_unique(decls: Seq<ItemSigView>)
    ensures
        distinct_bindings(classify(decls).items),
    decreases decls.len(),
{
    if decls.len() > 0 {
        lemma_bindings_are_unique(decls.drop_last());
        lemma_extract_distinct(
            classify(decls.drop_last()).items,
            decls.last().sig,
            decls.last().attrs,
        );
    }
}

/// A method whose annotation holds the magic marker and nothing else is
/// exposed under the function's name between two pairs of underscores.
pub proof fn lemma_magic_method(sig: SignatureView, meta: MetaView)
    requires
        meta is List,
        meta.nested().len() == 1,
        meta.nested()[0] matches NestedMetaView::Meta(MetaView::Path(path)) && path.is_ident(
            "magic"@,
        ),
    ensures
        method_binding(sig, meta) == Ok::<ClassItemView, DiagnosticView>(
            ClassItemView::Method {
                item_ident: sig.ident,
                py_name: "__"@ + sig.ident.name + "__"@,
            },
        ),
{
    let all = effects(Keyword::Method, sig.ident, meta.nested());
    assert(all[0] == EffectView::Name(magic_name(sig.ident.name)));
    assert(all.drop_first().len() == 0);
    assert(all.drop_last().len() == 0);
    assert(first_failure(all.drop_first()) is None);
}

/// A slot annotation without arguments on a function whose name starts with
/// `tp_` names the hook by what follows the prefix; on any other function it
/// names the hook by the function's name.
pub proof fn lemma_default_slot(sig: SignatureView, meta: MetaView)
    requires
        !(meta is NameValue),
        meta.nested().len() == 0,
    ensures
        slot_binding(sig, meta) == Ok::<ClassItemView, DiagnosticView>(
            ClassItemView::Slot {
                slot_ident: IdentView {
                    name: default_slot_name(sig.ident.name),
                    span: sig.ident.span,
                },
                item_ident: sig.ident,
            },
        ),
        forall|rest: Seq<char>|
            sig.ident.name == "tp_"@ + rest ==> default_slot_name(sig.ident.name) == rest,
        !starts_with(sig.ident.name, "tp_"@) ==> default_slot_name(sig.ident.name)
            == sig.ident.name,
{
    assert forall|rest: Seq<char>| sig.ident.name == "tp_"@ + rest implies default_slot_name(
        sig.ident.name,
    ) == rest by {
        let name = "tp_"@ + rest;
        assert(name.subrange(0, "tp_"@.len() as int) =~= "tp_"@);
        assert(after(name, "tp_"@.len()) =~= rest);
    }
}

/// A getter without an explicit name is exposed under the function's name as
/// it stands. A setter without an explicit name is exposed under what follows
/// `set_` in the function's name; where nothing follows, or where the name
/// does not start with `set_`, it is rejected with a naming error at the
/// function's identifier.
pub proof fn lemma_property_names(sig: SignatureView, meta: MetaView, setter: bool)
    requires
        options(Keyword::Property, sig, meta) == Ok::<OptionBagView, DiagnosticView>(
            OptionBagView { name: None, setter },
        ),
    ensures
        !setter ==> property_binding(sig, meta) == Ok::<ClassItemView, DiagnosticView>(
            ClassItemView::Property {
                item_ident: sig.ident,
                py_name: sig.ident.name,
                setter: false,
            },
        ),
        setter && sig.ident.name == "set_"@ ==> property_binding(sig, meta) == Err::<
            ClassItemView,
            DiagnosticView,
        >(DiagnosticView { kind: ErrorKindView::SetterEmptyName, span: sig.ident.span }),
        setter && !starts_with(sig.ident.name, "set_"@) ==> property_binding(sig, meta) == Err::<
            ClassItemView,
            DiagnosticView,
        >(DiagnosticView { kind: ErrorKindView::SetterNeedsName, span: sig.ident.span }),
        forall|rest: Seq<char>|
            setter && rest.len() > 0 && sig.ident.name == "set_"@ + rest ==> property_binding(
                sig,
                meta,
            ) == Ok::<ClassItemView, DiagnosticView>(
                ClassItemView::Property { item_ident: sig.ident, py_name: rest, setter: true },
            ),
        ErrorKindView::SetterEmptyName.category() == Category::Naming,
        ErrorKindView::SetterNeedsName.category() == Category::Naming,
{
    let name = sig.ident.name;
    let prefix = "set_"@;
    if setter && name == prefix {
        assert(name.subrange(0, prefix.len() as int) =~= prefix);
        assert(after(name, prefix.len()).len() == 0);
    }
    assert forall|rest: Seq<char>|
        setter && rest.len() > 0 && name == prefix + rest implies property_binding(sig, meta)
        == Ok::<ClassItemView, DiagnosticView>(
        ClassItemView::Property { item_ident: sig.ident, py_name: rest, setter: true },
    ) by {
        assert(name.subrange(0, prefix.len() as int) =~= prefix);
        assert(after(name, prefix.len()) =~= rest);
    }
}

/// The last nested item that gives a name decides the name, whatever stands
/// before it.
pub proof fn lemma_last_name_wins(all: Seq<EffectView>, i: int)
    requires
        0 <= i < all.len(),
        all[i] is Name,
        forall|j: int| i < j < all.len() ==> !((#[trigger] all[j]) is Name),
    ensures
        last_name(all) == Some(all[i]->Name_0),
    decreases all.len(),
{
    if i < all.len() - 1 {
        assert(!(all[all.len() - 1] is Name));
        assert(all.drop_last()[i] == all[i]);
        lemma_last_name_wins(all.drop_last(), i);
    }
}

/// Where no nested item gives a name, there is none.
pub proof fn lemma_no_name(all: Seq<EffectView>)
    requires
        forall|j: int| 0 <= j < all.len() ==> !((#[trigger] all[j]) is Name),
    ensures
        last_name(all) is None,
    decreases all.len(),
{
    if all.len() > 0 {
        assert(!(all[all.len() - 1] is Name));
        assert forall|j: int| 0 <= j < all.drop_last().len() implies !((
        #[trigger] all.drop_last()[j]) is Name) by {
            assert(!(all[j] is Name));
        }
        lemma_no_name(all.drop_last());
    }
}

/// The first nested item that fails decides the error, whatever stands behind
/// it; where none fails, there is no error.
pub proof fn lemma_first_failure_decides(all: Seq<EffectView>, i: int)
    requires
        0 <= i <= all.len(),
        forall|j: int| 0 <= j < i ==> !((#[trigger] all[j]) is Fail),
        i < all.len() ==> all[i] is Fail,
    ensures
        first_failure(all) == if i < all.len() {
            Some(all[i]->Fail_0)
        } else {
            None
        },
    decreases i,
{
    if i > 0 {
        assert(!(all[0] is Fail));
        let rest = all.drop_first();
        assert forall|j: int| 0 <= j < i - 1 implies !((#[trigger] rest[j]) is Fail) by {
            assert(!(all[j + 1] is Fail));
        }
        lemma_first_failure_decides(rest, i - 1);
    }
}

/// A nested item that the annotation does not know is ignored: a literal, a
/// list, `key = value` with a key other than `name`, and a bare marker other
/// than `magic` and `setter` all pass, whatever the keyword and the function.
pub proof fn lemma_unknown_items_pass(keyword: Keyword, ident: IdentView, arg: NestedMetaView)
    requires
        match arg {
            NestedMetaView::Meta(MetaView::NameValue(pair)) => !pair.path.is_ident("name"@),
            NestedMetaView::Meta(MetaView::Path(path)) => !path.is_ident("magic"@)
                && !path.is_ident("setter"@),
            NestedMetaView::Meta(MetaView::List(_)) => true,
            NestedMetaView::Lit(_) => true,
        },
    ensures
        effect(keyword, ident, arg) == EffectView::Pass,
{
}

/// A method whose annotation holds nothing but items that it does not know is
/// exposed under the function's name.
pub proof fn lemma_method_ignores_unknown_items(sig: SignatureView, meta: MetaView)
    requires
        !(meta is NameValue),
        forall|i: int|
            0 <= i < meta.nested().len() ==> match #[trigger] meta.nested()[i] {
                NestedMetaView::Meta(MetaView::NameValue(pair)) => !pair.path.is_ident("name"@),
                NestedMetaView::Meta(MetaView::Path(path)) => !path.is_ident("magic"@),
                _ => true,
            },
    ensures
        method_binding(sig, meta) == Ok::<ClassItemView, DiagnosticView>(
            ClassItemView::Method { item_ident: sig.ident, py_name: sig.ident.name },
        ),
{
    let all = effects(Keyword::Method, sig.ident, meta.nested());
    assert forall|j: int| 0 <= j < all.len() implies !((#[trigger] all[j]) is Fail) && !(
    all[j] is Name) by {
        assert(all[j] == effect(Keyword::Method, sig.ident, meta.nested()[j]));
    }
    lemma_first_failure_decides(all, all.len() as int);
    lemma_no_name(all);
}

} // verus!
