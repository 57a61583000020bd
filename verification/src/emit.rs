//! Emission: from declarations and composition directives to registration
//! statements, or to the report of everything that is wrong with them.

use vstd::prelude::*;
use crate::class::{
    Class, ClassItem, ClassItemView, attrs_after, extract,
};
use crate::diagnostic::{Diagnostic, DiagnosticView, ErrorKind, ErrorKindView};
use crate::item::{Item, ItemBlock, ItemBlockView, ItemView};
use crate::lift::{lemma_views_push, option_view, views};
use crate::meta::{
    Ident, IdentView, ItemSig, ItemSigView, Meta, MetaView, NestedMeta, NestedMetaView, Path,
    PathView, lemma_list_view,
};
use crate::pairing::{PropertyEntry, PropertyEntryView, PropertyPairing, clashes, pairing};

verus! {

/// One registration statement: one change to the member table or to the hook
/// table of the type, or one call of a collaborator's registration.
#[derive(Debug, PartialEq, Eq)]
pub enum Statement {
    /// Binds the function `item_ident` as the method `py_name`.
    BindMethod { py_name: String, item_ident: Ident },
    /// Binds the function `item_ident` as the class-level method `py_name`.
    BindClassMethod { py_name: String, item_ident: Ident },
    /// Installs the property `py_name` with its getter and, if there is one,
    /// its setter.
    InstallProperty { py_name: String, getter: Ident, setter: Option<Ident> },
    /// Puts the function `item_ident` into the hook `slot_ident`.
    SetHook { slot_ident: Ident, item_ident: Ident },
    /// Calls the registration of the collaborator `path`.
    InvokeCollaborator { path: Path },
}

pub enum StatementView {
    BindMethod { py_name: Seq<char>, item_ident: IdentView },
    BindClassMethod { py_name: Seq<char>, item_ident: IdentView },
    InstallProperty { py_name: Seq<char>, getter: IdentView, setter: Option<IdentView> },
    SetHook { slot_ident: IdentView, item_ident: IdentView },
    InvokeCollaborator { path: PathView },
}

impl View for Statement {
    type V = StatementView;

    open spec fn view(&self) -> StatementView {
        match self {
            Statement::BindMethod { py_name, item_ident } => StatementView::BindMethod {
                py_name: py_name@,
                item_ident: item_ident@,
            },
            Statement::BindClassMethod { py_name, item_ident } => StatementView::BindClassMethod {
                py_name: py_name@,
                item_ident: item_ident@,
            },
            Statement::InstallProperty { py_name, getter, setter } => {
                StatementView::InstallProperty {
                    py_name: py_name@,
                    getter: getter@,
                    setter: option_view(*setter),
                }
            },
            Statement::SetHook { slot_ident, item_ident } => StatementView::SetHook {
                slot_ident: slot_ident@,
                item_ident: item_ident@,
            },
            Statement::InvokeCollaborator { path } => StatementView::InvokeCollaborator {
                path: path@,
            },
        }
    }
}

impl StatementView {
    /// Whether the statement changes the type's own tables.
    pub open spec fn is_local(self) -> bool {
        !(self is InvokeCollaborator)
    }
}

/// The statement of a binding that is no property accessor.
pub open spec fn local_statement(item: ClassItemView) -> Option<StatementView> {
    match item {
        ClassItemView::Method { item_ident, py_name } => Some(
            StatementView::BindMethod { py_name, item_ident },
        ),
        ClassItemView::ClassMethod { item_ident, py_name } => Some(
            StatementView::BindClassMethod { py_name, item_ident },
        ),
        ClassItemView::Slot { slot_ident, item_ident } => Some(
            StatementView::SetHook { slot_ident, item_ident },
        ),
        ClassItemView::Property { .. } => None,
    }
}

/// The statements of the methods, class-level methods and hooks, in the order
/// of their bindings.
pub open spec fn local_statements(items: Seq<ClassItemView>) -> Seq<StatementView> {
    items.filter_map(|item: ClassItemView| local_statement(item))
}

/// The statement of a property that has a getter.
pub open spec fn property_statement(entry: PropertyEntryView) -> Option<StatementView> {
    match entry.getter {
        Some(getter) => Some(
            StatementView::InstallProperty { py_name: entry.py_name, getter, setter: entry.setter },
        ),
        None => None,
    }
}

/// The statements of the properties, in the order of the pairing.
pub open spec fn property_statements(entries: Seq<PropertyEntryView>) -> Seq<StatementView> {
    entries.filter_map(|entry: PropertyEntryView| property_statement(entry))
}

/// The error of a property that has a setter and no getter, reported at the
/// setter.
pub open spec fn missing_getter(entry: PropertyEntryView) -> Option<DiagnosticView> {
    match (entry.getter, entry.setter) {
        (None, Some(setter)) => Some(
            DiagnosticView {
                kind: ErrorKindView::MissingGetter(entry.py_name),
                span: setter.span,
            },
        ),
        _ => None,
    }
}

/// The errors of the properties without a getter, in the order of the pairing.
pub open spec fn missing_getters(entries: Seq<PropertyEntryView>) -> Seq<DiagnosticView> {
    entries.filter_map(|entry: PropertyEntryView| missing_getter(entry))
}

/// The first error among `parts`, or all that they hold, one after the other.
pub open spec fn collect<T>(parts: Seq<Result<Seq<T>, DiagnosticView>>) -> Result<
    Seq<T>,
    DiagnosticView,
>
    decreases parts.len(),
{
    if parts.len() == 0 {
        Ok(Seq::empty())
    } else {
        match parts.first() {
            Err(diagnostic) => Err(diagnostic),
            Ok(head) => match collect(parts.drop_first()) {
                Err(diagnostic) => Err(diagnostic),
                Ok(tail) => Ok(head + tail),
            },
        }
    }
}

/// `found`, followed by what `rest` holds.
pub open spec fn prepend<T>(found: Seq<T>, rest: Result<Seq<T>, DiagnosticView>) -> Result<
    Seq<T>,
    DiagnosticView,
> {
    match rest {
        Ok(tail) => Ok(found + tail),
        Err(diagnostic) => Err(diagnostic),
    }
}

/// One argument of `with(...)`: a path, or an error at the argument.
pub open spec fn with_argument(arg: NestedMetaView) -> Result<Seq<PathView>, DiagnosticView> {
    match arg {
        NestedMetaView::Meta(MetaView::Path(path)) => Ok(seq![path]),
        _ => Err(DiagnosticView { kind: ErrorKindView::WithArgument, span: arg.span() }),
    }
}

/// The paths that `with(...)` lists, or the error of its first argument that
/// is no path.
pub open spec fn with_paths(args: Seq<NestedMetaView>) -> Result<Seq<PathView>, DiagnosticView> {
    collect(Seq::new(args.len(), |i: int| with_argument(args[i])))
}

/// One block-level argument: `with(...)` with the paths it lists, or an error
/// at the argument.
pub open spec fn directive(arg: NestedMetaView) -> Result<Seq<PathView>, DiagnosticView> {
    match arg {
        NestedMetaView::Meta(MetaView::List(list)) => if list.path.is_ident("with"@) {
            with_paths(list.nested)
        } else {
            Err(DiagnosticView { kind: ErrorKindView::UnknownDirective, span: arg.span() })
        },
        _ => Err(DiagnosticView { kind: ErrorKindView::UnknownDirective, span: arg.span() }),
    }
}

/// The collaborators that the block-level arguments list, in source order, or
/// the first error among them.
pub open spec fn collaborators(attr: Seq<NestedMetaView>) -> Result<
    Seq<PathView>,
    DiagnosticView,
> {
    collect(Seq::new(attr.len(), |i: int| directive(attr[i])))
}

/// One call for each collaborator, in their order.
pub open spec fn invocations(paths: Seq<PathView>) -> Seq<StatementView> {
    Seq::new(paths.len(), |i: int| StatementView::InvokeCollaborator { path: paths[i] })
}

/// The bindings and the errors of a run of declarations.
pub struct Classified {
    pub items: Seq<ClassItemView>,
    pub diagnostics: Seq<DiagnosticView>,
}

/// Classifies the declarations one after the other into one set. A
/// declaration that is given up adds its error and keeps the bindings that it
/// made before; the declarations after it are classified all the same.
pub open spec fn classify(decls: Seq<ItemSigView>) -> Classified
    decreases decls.len(),
{
    if decls.len() == 0 {
        Classified { items: Seq::empty(), diagnostics: Seq::empty() }
    } else {
        let before = classify(decls.drop_last());
        let last = extract(before.items, decls.last().sig, decls.last().attrs);
        Classified {
            items: last.items,
            diagnostics: match last.error {
                Some(diagnostic) => before.diagnostics.push(diagnostic),
                None => before.diagnostics,
            },
        }
    }
}

/// The declaration `decls[i]` after the pass.
pub open spec fn decl_after(decls: Seq<ItemSigView>, i: int) -> ItemSigView {
    ItemSigView {
        attrs: attrs_after(classify(decls.take(i)).items, decls[i].sig, decls[i].attrs),
        sig: decls[i].sig,
    }
}

/// The declarations after the pass: those that were classified have lost the
/// annotations that made their bindings, the others are as they were.
pub open spec fn decls_after(decls: Seq<ItemSigView>) -> Seq<ItemSigView> {
    Seq::new(decls.len(), |i: int| decl_after(decls, i))
}

/// Every error of classification and pairing: those of the declarations in
/// their order, then the roles claimed twice, then the missing getters.
pub open spec fn diagnostics_of(decls: Seq<ItemSigView>) -> Seq<DiagnosticView> {
    let classified = classify(decls);
    classified.diagnostics + clashes(classified.items) + missing_getters(
        pairing(classified.items),
    )
}

/// The statements of the type's own bindings: methods, class-level methods
/// and hooks in the order of their bindings, then the properties.
pub open spec fn own_statements(items: Seq<ClassItemView>) -> Seq<StatementView> {
    local_statements(items) + property_statements(pairing(items))
}

/// The outcome of a pass. If classification or pairing found an error, the
/// outcome is the report of all of them, and nothing is emitted. Else the
/// block-level arguments are read: the first that is malformed is the report.
/// Else the outcome is the statements: the type's own, then one call for each
/// collaborator in source order.
pub open spec fn registration(attr: Seq<NestedMetaView>, decls: Seq<ItemSigView>) -> Result<
    Seq<StatementView>,
    Seq<DiagnosticView>,
> {
    let found = diagnostics_of(decls);
    if found.len() > 0 {
        Err(found)
    } else {
        match collaborators(attr) {
            Err(diagnostic) => Err(seq![diagnostic]),
            Ok(paths) => Ok(own_statements(classify(decls).items) + invocations(paths)),
        }
    }
}

/// The view of an outcome.
pub open spec fn report_view(outcome: Result<Vec<Statement>, Vec<Diagnostic>>) -> Result<
    Seq<StatementView>,
    Seq<DiagnosticView>,
> {
    match outcome {
        Ok(statements) => Ok(views(statements@)),
        Err(diagnostics) => Err(views(diagnostics@)),
    }
}

/// The statements of the methods, class-level methods and hooks.
pub fn emit_locals(items: &Vec<ClassItem>) -> (statements: Vec<Statement>)
    ensures
        views(statements@) == local_statements(views(items@)),
{
    let ghost all = views(items@);
    let mut statements: Vec<Statement> = Vec::new();
    let mut i: usize = 0;
    assert(views(statements@) =~= local_statements(all.take(0)));
    while i < items.len()
        invariant
            i <= items@.len(),
            all == views(items@),
            views(statements@) == local_statements(all.take(i as int)),
        decreases items@.len() - i,
    {
        let ghost before = statements@;
        proof {
            assert(all.take(i + 1).drop_last() =~= all.take(i as int));
            assert(all.take(i + 1).last() == items@[i as int]@);
        }
        match &items[i] {
            ClassItem::Method { item_ident, py_name } => {
                let statement = Statement::BindMethod {
                    py_name: py_name.clone(),
                    item_ident: item_ident.clone(),
                };
                proof {
                    lemma_views_push(before, statement);
                }
                statements.push(statement);
            },
            ClassItem::ClassMethod { item_ident, py_name } => {
                let statement = Statement::BindClassMethod {
                    py_name: py_name.clone(),
                    item_ident: item_ident.clone(),
                };
                proof {
                    lemma_views_push(before, statement);
                }
                statements.push(statement);
            },
            ClassItem::Slot { slot_ident, item_ident } => {
                let statement = Statement::SetHook {
                    slot_ident: slot_ident.clone(),
                    item_ident: item_ident.clone(),
                };
                proof {
                    lemma_views_push(before, statement);
                }
                statements.push(statement);
            },
            ClassItem::Property { .. } => {},
        }
        assert(views(statements@) =~= local_statements(all.take(i + 1)));
        i += 1;
    }
    assert(all.take(i as int) =~= all);
    statements
}

/// Adds the statements of the properties to `statements`, and to
/// `diagnostics` an error for each property without a getter.
pub fn emit_properties(
    entries: &Vec<PropertyEntry>,
    statements: &mut Vec<Statement>,
    diagnostics: &mut Vec<Diagnostic>,
)
    ensures
        views(final(statements)@) == views(old(statements)@) + property_statements(
            views(entries@),
        ),
        views(final(diagnostics)@) == views(old(diagnostics)@) + missing_getters(
            views(entries@),
        ),
{
    let ghost all = views(entries@);
    let ghost emitted = views(statements@);
    let ghost reported = views(diagnostics@);
    let mut i: usize = 0;
    proof {
        assert(views(statements@) =~= emitted + property_statements(all.take(0)));
        assert(views(diagnostics@) =~= reported + missing_getters(all.take(0)));
    }
    while i < entries.len()
        invariant
            i <= entries@.len(),
            all == views(entries@),
            views(statements@) == emitted + property_statements(all.take(i as int)),
            views(diagnostics@) == reported + missing_getters(all.take(i as int)),
        decreases entries@.len() - i,
    {
        let ghost statements_before = statements@;
        let ghost diagnostics_before = diagnostics@;
        proof {
            assert(all.take(i + 1).drop_last() =~= all.take(i as int));
            assert(all.take(i + 1).last() == entries@[i as int]@);
        }
        let entry = &entries[i];
        match &entry.getter {
            Some(getter) => {
                let setter = match &entry.setter {
                    Some(setter) => Some(setter.clone()),
                    None => None,
                };
                let statement = Statement::InstallProperty {
                    py_name: entry.py_name.clone(),
                    getter: getter.clone(),
                    setter,
                };
                proof {
                    lemma_views_push(statements_before, statement);
                }
                statements.push(statement);
            },
            None => match &entry.setter {
                Some(setter) => {
                    let diagnostic = Diagnostic {
                        kind: ErrorKind::MissingGetter(entry.py_name.clone()),
                        span: setter.span,
                    };
                    proof {
                        lemma_views_push(diagnostics_before, diagnostic);
                    }
                    diagnostics.push(diagnostic);
                },
                None => {},
            },
        }
        proof {
            assert(views(statements@) =~= emitted + property_statements(all.take(i + 1)));
            assert(views(diagnostics@) =~= reported + missing_getters(all.take(i + 1)));
        }
        i += 1;
    }
    assert(all.take(i as int) =~= all);
}

/// Prepending in two steps is prepending at once.
pub proof fn lemma_prepend_twice<T>(
    found: Seq<T>,
    more: Seq<T>,
    rest: Result<Seq<T>, DiagnosticView>,
)
    ensures
        prepend(found, prepend(more, rest)) == prepend(found + more, rest),
{
    match rest {
        Ok(tail) => {
            assert(found + (more + tail) =~= (found + more) + tail);
        },
        Err(_) => {},
    }
}

/// What is collected from position `i` on: the part at `i`, then what is
/// collected behind it.
pub proof fn lemma_collect_step<T>(parts: Seq<Result<Seq<T>, DiagnosticView>>, i: int)
    requires
        0 <= i < parts.len(),
    ensures
        collect(parts.skip(i)) == match parts[i] {
            Err(diagnostic) => Err(diagnostic),
            Ok(head) => prepend(head, collect(parts.skip(i + 1))),
        },
{
    assert(parts.skip(i).first() == parts[i]);
    assert(parts.skip(i).drop_first() =~= parts.skip(i + 1));
}

/// Adds the paths that `with(...)` lists to `paths`.
fn read_with(args: &Vec<NestedMeta>, paths: &mut Vec<Path>) -> (read: Result<(), Diagnostic>)
    ensures
        match read {
            Ok(_) => prepend(views(old(paths)@), with_paths(views(args@))) == Ok::<
                Seq<PathView>,
                DiagnosticView,
            >(views(final(paths)@)),
            Err(diagnostic) => with_paths(views(args@)) == Err::<Seq<PathView>, DiagnosticView>(
                diagnostic@,
            ),
        },
{
    let ghost all = views(args@);
    let ghost parts = Seq::new(all.len(), |i: int| with_argument(all[i]));
    let ghost start = views(paths@);
    let mut i: usize = 0;
    assert(parts.skip(0) =~= parts);
    while i < args.len()
        invariant
            i <= args@.len(),
            all == views(args@),
            parts == Seq::new(all.len(), |i: int| with_argument(all[i])),
            start == views(old(paths)@),
            prepend(start, collect(parts)) == prepend(views(paths@), collect(parts.skip(i as int))),
        decreases args@.len() - i,
    {
        let ghost before = paths@;
        proof {
            lemma_collect_step(parts, i as int);
            assert(parts[i as int] == with_argument(args@[i as int]@));
        }
        match &args[i] {
            NestedMeta::Meta(Meta::Path(path)) => {
                let path = path.clone();
                proof {
                    lemma_views_push(before, path);
                    lemma_prepend_twice(views(before), seq![path@], collect(parts.skip(i + 1)));
                    assert(views(before) + seq![path@] =~= views(before).push(path@));
                }
                paths.push(path);
            },
            bad => {
                return Err(Diagnostic { kind: ErrorKind::WithArgument, span: bad.span() });
            },
        }
        i += 1;
    }
    proof {
        assert(views(paths@) + Seq::<PathView>::empty() =~= views(paths@));
    }
    Ok(())
}

/// The collaborators that the block-level arguments list, in source order.
pub fn read_directives(attr: &Vec<NestedMeta>) -> (read: Result<Vec<Path>, Diagnostic>)
    ensures
        match read {
            Ok(paths) => collaborators(views(attr@)) == Ok::<Seq<PathView>, DiagnosticView>(
                views(paths@),
            ),
            Err(diagnostic) => collaborators(views(attr@)) == Err::<
                Seq<PathView>,
                DiagnosticView,
            >(diagnostic@),
        },
{
    let ghost all = views(attr@);
    let ghost parts = Seq::new(all.len(), |i: int| directive(all[i]));
    let mut paths: Vec<Path> = Vec::new();
    let mut i: usize = 0;
    proof {
        assert(parts.skip(0) =~= parts);
        assert(views(paths@) =~= Seq::<PathView>::empty());
        match collect(parts) {
            Ok(found) => {
                assert(Seq::<PathView>::empty() + found =~= found);
            },
            Err(_) => {},
        }
    }
    while i < attr.len()
        invariant
            i <= attr@.len(),
            all == views(attr@),
            parts == Seq::new(all.len(), |i: int| directive(all[i])),
            collect(parts) == prepend(views(paths@), collect(parts.skip(i as int))),
        decreases attr@.len() - i,
    {
        let ghost before = views(paths@);
        proof {
            lemma_collect_step(parts, i as int);
            assert(parts[i as int] == directive(attr@[i as int]@));
        }
        match &attr[i] {
            NestedMeta::Meta(Meta::List(list)) => {
                proof {
                    lemma_list_view(*list);
                }
                if list.path.is_ident("with") {
                    match read_with(&list.nested, &mut paths) {
                        Ok(_) => {
                            proof {
                                let listed = with_paths(views(list.nested@))->Ok_0;
                                lemma_prepend_twice(before, listed, collect(parts.skip(i + 1)));
                            }
                        },
                        Err(diagnostic) => {
                            return Err(diagnostic);
                        },
                    }
                } else {
                    return Err(
                        Diagnostic { kind: ErrorKind::UnknownDirective, span: list.span },
                    );
                }
            },
            other => {
                return Err(Diagnostic { kind: ErrorKind::UnknownDirective, span: other.span() });
            },
        }
        i += 1;
    }
    proof {
        assert(views(paths@) + Seq::<PathView>::empty() =~= views(paths@));
    }
    Ok(paths)
}

/// Adds one call for each collaborator to `statements`.
pub fn emit_invocations(paths: &Vec<Path>, statements: &mut Vec<Statement>)
    ensures
        views(final(statements)@) == views(old(statements)@) + invocations(views(paths@)),
{
    let ghost emitted = views(statements@);
    let ghost all = views(paths@);
    let mut i: usize = 0;
    assert(views(statements@) =~= emitted + invocations(all).take(0));
    while i < paths.len()
        invariant
            i <= paths@.len(),
            all == views(paths@),
            views(statements@) == emitted + invocations(all).take(i as int),
        decreases paths@.len() - i,
    {
        let ghost before = statements@;
        let statement = Statement::InvokeCollaborator { path: paths[i].clone() };
        proof {
            lemma_views_push(before, statement);
            assert(invocations(all).take(i + 1) =~= invocations(all).take(i as int).push(
                statement@,
            ));
        }
        statements.push(statement);
        assert(views(statements@) =~= emitted + invocations(all).take(i + 1));
        i += 1;
    }
    assert(invocations(all).take(i as int) =~= invocations(all));
}

/// Runs one pass over the declarations of a block: classifies each of them,
/// pairs the property accessors, and emits the registration statements, or
/// reports every error that classification and pairing found.
pub fn extract_impl_items(attr: Vec<NestedMeta>, items: &mut Vec<ItemSig>) -> (outcome: Result<
    Vec<Statement>,
    Vec<Diagnostic>,
>)
    ensures
        report_view(outcome) == registration(views(attr@), views(old(items)@)),
        views(final(items)@) == decls_after(views(old(items)@)),
{
    let ghost decls = views(items@);
    let mut diagnostics: Vec<Diagnostic> = Vec::new();
    let mut class = Class::default();
    let mut i: usize = 0;
    proof {
        assert(views(diagnostics@) =~= classify(decls.take(0)).diagnostics);
    }
    while i < items.len()
        invariant
            i <= items@.len(),
            items@.len() == decls.len(),
            decls == views(old(items)@),
            class.wf(),
            class@ == classify(decls.take(i as int)).items,
            views(diagnostics@) == classify(decls.take(i as int)).diagnostics,
            forall|j: int| 0 <= j < i ==> (#[trigger] items@[j])@ == decl_after(decls, j),
            forall|j: int| i <= j < items@.len() ==> (#[trigger] items@[j])@ == decls[j],
        decreases items@.len() - i,
    {
        let ghost reported = diagnostics@;
        proof {
            assert(decls.take(i + 1).drop_last() =~= decls.take(i as int));
            assert(decls.take(i + 1).last() == decls[i as int]);
        }
        let item = &mut items[i];
        match class.extract_item(&mut item.attrs, &item.sig) {
            Ok(_) => {},
            Err(diagnostic) => {
                proof {
                    lemma_views_push(reported, diagnostic);
                }
                diagnostics.push(diagnostic);
            },
        }
        i += 1;
    }
    proof {
        assert(decls.take(i as int) =~= decls);
        assert(views(items@) =~= decls_after(decls));
    }
    let paired = PropertyPairing::build(class.items(), &mut diagnostics);
    let mut statements = emit_locals(class.items());
    emit_properties(paired.entries(), &mut statements, &mut diagnostics);
    proof {
        let classified = classify(decls);
        assert(views(diagnostics@) =~= diagnostics_of(decls));
        assert(views(statements@) =~= own_statements(classified.items));
    }
    if diagnostics.len() > 0 {
        return Err(diagnostics);
    }
    let paths = match read_directives(&attr) {
        Ok(paths) => paths,
        Err(diagnostic) => {
            let mut report: Vec<Diagnostic> = Vec::new();
            report.push(diagnostic);
            assert(views(report@) =~= seq![diagnostic@]);
            return Err(report);
        },
    };
    emit_invocations(&paths, &mut statements);
    Ok(statements)
}

/// What the annotation of a block expands to.
#[derive(Debug, PartialEq, Eq)]
pub enum PyImpl {
    /// An implementation block without the annotations that made bindings,
    /// and the body of the registration entry point that is implemented
    /// beside it.
    Impl { item: ItemBlock, extend: Vec<Statement> },
    /// A trait without the annotations that made bindings, and the body of the
    /// registration entry point that joins its member functions.
    Trait { item: ItemBlock, extend: Vec<Statement> },
    /// Any other item, as it was.
    Other(Item),
}

pub enum PyImplView {
    Impl { item: ItemBlockView, extend: Seq<StatementView> },
    Trait { item: ItemBlockView, extend: Seq<StatementView> },
    Other(ItemView),
}

impl View for PyImpl {
    type V = PyImplView;

    open spec fn view(&self) -> PyImplView {
        match self {
            PyImpl::Impl { item, extend } => PyImplView::Impl {
                item: item@,
                extend: views(extend@),
            },
            PyImpl::Trait { item, extend } => PyImplView::Trait {
                item: item@,
                extend: views(extend@),
            },
            PyImpl::Other(item) => PyImplView::Other(item@),
        }
    }
}

/// The block after the pass.
pub open spec fn block_after(block: ItemBlockView) -> ItemBlockView {
    ItemBlockView { methods: decls_after(block.methods), span: block.span }
}

/// What the annotation of a block with the arguments `attr` expands to: for an
/// implementation block and for a trait the outcome of one pass over its
/// member functions; any other item stays as it is, whatever the arguments.
pub open spec fn pyimpl(attr: Seq<NestedMetaView>, item: ItemView) -> Result<
    PyImplView,
    Seq<DiagnosticView>,
> {
    match item {
        ItemView::Impl(block) => match registration(attr, block.methods) {
            Ok(extend) => Ok(PyImplView::Impl { item: block_after(block), extend }),
            Err(report) => Err(report),
        },
        ItemView::Trait(block) => match registration(attr, block.methods) {
            Ok(extend) => Ok(PyImplView::Trait { item: block_after(block), extend }),
            Err(report) => Err(report),
        },
        other => Ok(PyImplView::Other(other)),
    }
}

/// Expands the annotation of a block.
pub fn impl_pyimpl(attr: Vec<NestedMeta>, item: Item) -> (expansion: Result<
    PyImpl,
    Vec<Diagnostic>,
>)
    ensures
        match expansion {
            Ok(expanded) => pyimpl(views(attr@), item@) == Ok::<PyImplView, Seq<DiagnosticView>>(
                expanded@,
            ),
            Err(report) => pyimpl(views(attr@), item@) == Err::<PyImplView, Seq<DiagnosticView>>(
                views(report@),
            ),
        },
{
    match item {
        Item::Impl(mut block) => {
            match extract_impl_items(attr, &mut block.methods) {
                Ok(extend) => Ok(PyImpl::Impl { item: block, extend }),
                Err(report) => Err(report),
            }
        },
        Item::Trait(mut block) => {
            match extract_impl_items(attr, &mut block.methods) {
                Ok(extend) => Ok(PyImpl::Trait { item: block, extend }),
                Err(report) => Err(report),
            }
        },
        other => Ok(PyImpl::Other(other)),
    }
}

} // verus!
