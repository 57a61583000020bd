use rustpython_derive::class::ClassItem;
use rustpython_derive::diagnostic::{Category, Diagnostic, ErrorKind, Keyword};
use rustpython_derive::emit::{
    emit_invocations, emit_locals, emit_properties, extract_impl_items, impl_pyimpl,
    read_directives, PyImpl, Statement,
};
use rustpython_derive::item::{Item, ItemBlock, ItemEnum};
use rustpython_derive::meta::{
    Attribute, Ident, ItemSig, Lit, LitStr, Meta, MetaList, MetaNameValue, NestedMeta, Path,
    Signature, Span,
};
use rustpython_derive::pairing::{PropertyEntry, PropertyPairing};

fn span(at: u64) -> Span {
    Span { lo: at, hi: at }
}

fn ident(name: &str, at: u64) -> Ident {
    Ident { name: name.to_string(), span: span(at) }
}

fn path(name: &str, at: u64) -> Path {
    Path { leading_colon: false, segments: vec![name.to_string()], span: span(at) }
}

fn bare(keyword: &str, at: u64) -> Meta {
    Meta::Path(path(keyword, at))
}

fn list(keyword: &str, nested: Vec<NestedMeta>, at: u64) -> Meta {
    Meta::List(MetaList { path: path(keyword, at), nested, span: span(at) })
}

fn marker(name: &str, at: u64) -> NestedMeta {
    NestedMeta::Meta(Meta::Path(path(name, at)))
}

fn assign(key: &str, value: &str, at: u64) -> NestedMeta {
    NestedMeta::Meta(Meta::NameValue(MetaNameValue {
        path: path(key, at),
        lit: Lit::Str(LitStr { value: value.to_string(), span: span(at + 1) }),
        span: span(at),
    }))
}

fn attribute(meta: Meta, at: u64) -> Attribute {
    let path = match &meta {
        Meta::Path(path) => path.clone(),
        Meta::List(list) => list.path.clone(),
        Meta::NameValue(pair) => pair.path.clone(),
    };
    Attribute { path, meta: Some(meta), span: span(at) }
}

fn decl(name: &str, at: u64, metas: Vec<Meta>) -> ItemSig {
    let mut attrs = Vec::new();
    let mut place = at;
    for meta in metas {
        place += 10;
        attrs.push(attribute(meta, place));
    }
    ItemSig { attrs, sig: Signature { ident: ident(name, at) } }
}

fn with(names: &[&str], at: u64) -> NestedMeta {
    let mut nested = Vec::new();
    let mut place = at;
    for name in names {
        place += 1;
        nested.push(marker(name, place));
    }
    NestedMeta::Meta(list("with", nested, at))
}

fn setter_meta(at: u64) -> Meta {
    list("pyproperty", vec![marker("setter", at + 1)], at)
}

fn bind(name: &str, function: &str, at: u64) -> Statement {
    Statement::BindMethod { py_name: name.to_string(), item_ident: ident(function, at) }
}

fn install(name: &str, getter: Ident, setter: Option<Ident>) -> Statement {
    Statement::InstallProperty { py_name: name.to_string(), getter, setter }
}

fn invoke(name: &str, at: u64) -> Statement {
    Statement::InvokeCollaborator { path: path(name, at) }
}

fn error(kind: ErrorKind, at: u64) -> Diagnostic {
    Diagnostic { kind, span: span(at) }
}

#[test]
fn nothing_declared_nothing_emitted() {
    let mut items = vec![];
    assert_eq!(extract_impl_items(vec![], &mut items), Ok(vec![]));
    let mut items = vec![decl("helper", 100, vec![bare("inline", 1)])];
    assert_eq!(extract_impl_items(vec![], &mut items), Ok(vec![]));
    assert_eq!(items, vec![decl("helper", 100, vec![bare("inline", 1)])]);
}

#[test]
fn getter_and_setter_pair_into_one_property() {
    let mut items = vec![
        decl("volume", 100, vec![bare("pyproperty", 1)]),
        decl("set_volume", 200, vec![setter_meta(2)]),
    ];
    let outcome = extract_impl_items(vec![], &mut items);
    assert_eq!(
        outcome,
        Ok(vec![install("volume", ident("volume", 100), Some(ident("set_volume", 200)))])
    );
    assert_eq!(items, vec![decl("volume", 100, vec![]), decl("set_volume", 200, vec![])]);
}

#[test]
fn setter_before_getter_pairs_too() {
    let mut items = vec![
        decl("set_volume", 200, vec![setter_meta(2)]),
        decl("volume", 100, vec![bare("pyproperty", 1)]),
    ];
    let outcome = extract_impl_items(vec![], &mut items);
    assert_eq!(
        outcome,
        Ok(vec![install("volume", ident("volume", 100), Some(ident("set_volume", 200)))])
    );
}

#[test]
fn getter_and_setter_under_different_names_do_not_pair() {
    let named = list("pyproperty", vec![marker("setter", 3), assign("name", "value", 4)], 2);
    let mut items = vec![
        decl("get_value", 100, vec![bare("pyproperty", 1)]),
        decl("set_value", 200, vec![named]),
    ];
    let outcome = extract_impl_items(vec![], &mut items);
    assert_eq!(
        outcome,
        Err(vec![error(ErrorKind::MissingGetter("value".to_string()), 200)])
    );
    let bindings = vec![
        ClassItem::Property {
            item_ident: ident("get_value", 100),
            py_name: "get_value".to_string(),
            setter: false,
        },
        ClassItem::Property {
            item_ident: ident("set_value", 200),
            py_name: "value".to_string(),
            setter: true,
        },
    ];
    let mut diagnostics = vec![];
    let paired = PropertyPairing::build(&bindings, &mut diagnostics);
    assert!(diagnostics.is_empty());
    assert_eq!(
        paired.entries(),
        &vec![
            PropertyEntry {
                py_name: "get_value".to_string(),
                getter: Some(ident("get_value", 100)),
                setter: None
            },
            PropertyEntry {
                py_name: "value".to_string(),
                getter: None,
                setter: Some(ident("set_value", 200))
            },
        ]
    );
    let mut statements = vec![];
    emit_properties(paired.entries(), &mut statements, &mut diagnostics);
    assert_eq!(statements, vec![install("get_value", ident("get_value", 100), None)]);
    assert_eq!(diagnostics, vec![error(ErrorKind::MissingGetter("value".to_string()), 200)]);
    assert_eq!(diagnostics[0].kind.category(), Category::Pairing);
}

#[test]
fn collaborators_follow_every_statement_of_the_type() {
    let mut items = vec![
        decl("len", 100, vec![bare("pymethod", 1)]),
        decl("size", 200, vec![bare("pyproperty", 2)]),
        decl("tp_new", 300, vec![bare("pyslot", 3)]),
        decl("make", 400, vec![bare("pyclassmethod", 4)]),
    ];
    let outcome = extract_impl_items(vec![with(&["A", "B"], 500)], &mut items);
    assert_eq!(
        outcome,
        Ok(vec![
            bind("len", "len", 100),
            Statement::SetHook { slot_ident: ident("new", 300), item_ident: ident("tp_new", 300) },
            Statement::BindClassMethod {
                py_name: "make".to_string(),
                item_ident: ident("make", 400)
            },
            install("size", ident("size", 200), None),
            invoke("A", 501),
            invoke("B", 502),
        ])
    );
}

#[test]
fn collaborators_alone() {
    let mut items = vec![];
    let outcome = extract_impl_items(vec![with(&["A", "B"], 500)], &mut items);
    assert_eq!(outcome, Ok(vec![invoke("A", 501), invoke("B", 502)]));
}

#[test]
fn collaborators_of_several_directives_keep_source_order() {
    let qualified =
        Path { leading_colon: true, segments: vec!["a".to_string(), "B".to_string()], span: span(7) };
    let second = NestedMeta::Meta(Meta::List(MetaList {
        path: path("with", 600),
        nested: vec![NestedMeta::Meta(Meta::Path(qualified.clone())), marker("A", 602)],
        span: span(600),
    }));
    let attr = vec![with(&["C"], 500), with(&[], 550), second];
    assert_eq!(
        read_directives(&attr),
        Ok(vec![path("C", 501), qualified.clone(), path("A", 602)])
    );
    let mut items = vec![decl("len", 100, vec![bare("pymethod", 1)])];
    assert_eq!(
        extract_impl_items(attr, &mut items),
        Ok(vec![
            bind("len", "len", 100),
            invoke("C", 501),
            Statement::InvokeCollaborator { path: qualified },
            invoke("A", 602),
        ])
    );
}

#[test]
fn a_directive_that_is_not_with_is_unknown() {
    let mut items = vec![decl("len", 100, vec![bare("pymethod", 1)])];
    let outcome = extract_impl_items(vec![marker("flags", 500)], &mut items);
    assert_eq!(outcome, Err(vec![error(ErrorKind::UnknownDirective, 500)]));
    assert_eq!(items, vec![decl("len", 100, vec![])]);
    let other = NestedMeta::Meta(list("without", vec![marker("A", 501)], 500));
    assert_eq!(read_directives(&vec![other]), Err(error(ErrorKind::UnknownDirective, 500)));
    let literal = NestedMeta::Lit(Lit::Other(span(510)));
    assert_eq!(read_directives(&vec![literal]), Err(error(ErrorKind::UnknownDirective, 510)));
    assert_eq!(
        read_directives(&vec![assign("with", "A", 520)]),
        Err(error(ErrorKind::UnknownDirective, 520))
    );
    assert_eq!(ErrorKind::UnknownDirective.category(), Category::Shape);
}

#[test]
fn an_argument_of_with_that_is_no_path_is_rejected() {
    let nested = vec![marker("A", 501), assign("b", "c", 502), marker("D", 504)];
    let attr = vec![with(&["Z"], 400), NestedMeta::Meta(list("with", nested, 500))];
    assert_eq!(read_directives(&attr), Err(error(ErrorKind::WithArgument, 502)));
    let mut items = vec![];
    assert_eq!(
        extract_impl_items(attr, &mut items),
        Err(vec![error(ErrorKind::WithArgument, 502)])
    );
    assert_eq!(ErrorKind::WithArgument.category(), Category::Shape);
}

#[test]
fn the_first_malformed_directive_is_the_report() {
    let attr = vec![marker("flags", 500), marker("more", 600)];
    let mut items = vec![];
    assert_eq!(
        extract_impl_items(attr, &mut items),
        Err(vec![error(ErrorKind::UnknownDirective, 500)])
    );
}

#[test]
fn directives_are_not_read_when_a_declaration_failed() {
    let mut items = vec![decl("update", 100, vec![setter_meta(1)])];
    let outcome = extract_impl_items(vec![marker("flags", 500)], &mut items);
    assert_eq!(outcome, Err(vec![error(ErrorKind::SetterNeedsName, 100)]));
}

#[test]
fn a_second_getter_is_reported_at_the_second() {
    let mut items = vec![
        decl("size", 100, vec![bare("pyproperty", 1)]),
        decl("len", 200, vec![list("pyproperty", vec![assign("name", "size", 3)], 2)]),
    ];
    let outcome = extract_impl_items(vec![], &mut items);
    assert_eq!(
        outcome,
        Err(vec![error(ErrorKind::MultipleAccessors("size".to_string()), 200)])
    );
}

#[test]
fn a_second_setter_is_reported_at_the_second() {
    let named = |at: u64| {
        list("pyproperty", vec![marker("setter", at + 1), assign("name", "size", at + 2)], at)
    };
    let bindings = vec![
        ClassItem::Property { item_ident: ident("a", 100), py_name: "size".to_string(), setter: true },
        ClassItem::Property { item_ident: ident("b", 200), py_name: "size".to_string(), setter: true },
        ClassItem::Property { item_ident: ident("c", 300), py_name: "size".to_string(), setter: false },
        ClassItem::Property { item_ident: ident("d", 400), py_name: "size".to_string(), setter: true },
    ];
    let mut diagnostics = vec![error(ErrorKind::Duplicate, 1)];
    let paired = PropertyPairing::build(&bindings, &mut diagnostics);
    assert_eq!(
        diagnostics,
        vec![
            error(ErrorKind::Duplicate, 1),
            error(ErrorKind::MultipleAccessors("size".to_string()), 200),
            error(ErrorKind::MultipleAccessors("size".to_string()), 400),
        ]
    );
    assert_eq!(
        paired.entries(),
        &vec![PropertyEntry {
            py_name: "size".to_string(),
            getter: Some(ident("c", 300)),
            setter: Some(ident("a", 100))
        }]
    );
    let mut items = vec![decl("a", 100, vec![named(1)]), decl("b", 200, vec![named(5)])];
    assert_eq!(
        extract_impl_items(vec![], &mut items),
        Err(vec![
            error(ErrorKind::MultipleAccessors("size".to_string()), 200),
            error(ErrorKind::MissingGetter("size".to_string()), 100),
        ])
    );
}

#[test]
fn every_error_of_a_pass_is_reported() {
    let bad_slot = list("pyslot", vec![marker("a", 31), marker("b", 32)], 30);
    let mut items = vec![
        decl("set_", 100, vec![setter_meta(1)]),
        decl("len", 200, vec![bare("pymethod", 2), bare("pymethod", 3)]),
        decl("tp_new", 300, vec![bad_slot]),
        decl("set_size", 400, vec![setter_meta(5)]),
        decl("fine", 500, vec![bare("pymethod", 6)]),
    ];
    let outcome = extract_impl_items(vec![with(&["A"], 900)], &mut items);
    assert_eq!(
        outcome,
        Err(vec![
            error(ErrorKind::SetterEmptyName, 100),
            error(ErrorKind::Duplicate, 3),
            Diagnostic { kind: ErrorKind::SlotArgumentCount, span: Span { lo: 31, hi: 32 } },
            error(ErrorKind::MissingGetter("size".to_string()), 400),
        ])
    );
    assert_eq!(items[0].attrs.len(), 1);
    assert_eq!(items[1].attrs.len(), 2);
    assert_eq!(items[2].attrs.len(), 1);
    assert_eq!(items[3].attrs.len(), 0);
    assert_eq!(items[4].attrs.len(), 0);
}

#[test]
fn the_same_binding_on_two_declarations_is_a_duplicate() {
    let mut items = vec![
        decl("len", 100, vec![bare("pymethod", 1)]),
        decl("len", 200, vec![bare("inline", 2), bare("pymethod", 3)]),
    ];
    let outcome = extract_impl_items(vec![], &mut items);
    assert_eq!(outcome, Err(vec![error(ErrorKind::Duplicate, 3)]));
    assert_eq!(items[1].attrs.len(), 2);
}

#[test]
fn one_function_may_make_several_bindings() {
    let mut items = vec![decl(
        "get",
        100,
        vec![
            list("pymethod", vec![assign("name", "__get__", 11)], 10),
            list("pyslot", vec![marker("descr_get", 21)], 20),
        ],
    )];
    let outcome = extract_impl_items(vec![], &mut items);
    assert_eq!(
        outcome,
        Ok(vec![
            bind("__get__", "get", 100),
            Statement::SetHook {
                slot_ident: ident("descr_get", 21),
                item_ident: ident("get", 100)
            },
        ])
    );
}

#[test]
fn a_method_and_a_classmethod_of_one_name_are_two_bindings() {
    let mut items = vec![decl("f", 100, vec![bare("pymethod", 1), bare("pyclassmethod", 2)])];
    let outcome = extract_impl_items(vec![], &mut items);
    assert_eq!(
        outcome,
        Ok(vec![
            bind("f", "f", 100),
            Statement::BindClassMethod { py_name: "f".to_string(), item_ident: ident("f", 100) },
        ])
    );
}

fn sample() -> (Vec<NestedMeta>, Vec<ItemSig>) {
    let items = vec![
        decl("len", 100, vec![bare("pymethod", 1), bare("inline", 2)]),
        decl("volume", 200, vec![bare("pyproperty", 3)]),
        decl("set_volume", 300, vec![setter_meta(4)]),
        decl("add", 400, vec![list("pymethod", vec![marker("magic", 6)], 5)]),
    ];
    (vec![with(&["A", "B"], 900)], items)
}

fn failing_sample() -> (Vec<NestedMeta>, Vec<ItemSig>) {
    let items = vec![
        decl("set_", 100, vec![setter_meta(1)]),
        decl("set_volume", 300, vec![setter_meta(4)]),
        decl("add", 400, vec![bare("pyslot", 5), bare("pyslot", 6)]),
    ];
    (vec![with(&["A", "B"], 900)], items)
}

#[test]
fn a_pass_run_again_gives_the_same_outcome() {
    let (attr, mut items) = sample();
    let (attr_again, mut items_again) = sample();
    let first = extract_impl_items(attr, &mut items);
    let second = extract_impl_items(attr_again, &mut items_again);
    assert!(first.is_ok());
    assert_eq!(first, second);
    assert_eq!(items, items_again);
    assert_eq!(format!("{:?}", first), format!("{:?}", second));
    let (attr, mut items) = failing_sample();
    let (attr_again, mut items_again) = failing_sample();
    let first = extract_impl_items(attr, &mut items);
    let second = extract_impl_items(attr_again, &mut items_again);
    assert_eq!(first.as_ref().map_err(|report| report.len()), Err(3));
    assert_eq!(first, second);
    assert_eq!(items, items_again);
    let messages = |report: &Vec<Diagnostic>| {
        report.iter().map(|diagnostic| diagnostic.message()).collect::<Vec<String>>()
    };
    assert_eq!(messages(&first.unwrap_err()), messages(&second.unwrap_err()));
}

#[test]
fn a_clean_pass_has_no_diagnostic_and_emits_statements() {
    let (attr, mut items) = sample();
    let statements = extract_impl_items(attr, &mut items).unwrap();
    assert_eq!(
        statements,
        vec![
            bind("len", "len", 100),
            bind("__add__", "add", 400),
            install("volume", ident("volume", 200), Some(ident("set_volume", 300))),
            invoke("A", 901),
            invoke("B", 902),
        ]
    );
    assert_eq!(items[0], decl("len", 100, vec![]).with_attr(attribute(bare("inline", 2), 120)));
}

trait WithAttr {
    fn with_attr(self, attr: Attribute) -> Self;
}

impl WithAttr for ItemSig {
    fn with_attr(mut self, attr: Attribute) -> Self {
        self.attrs.push(attr);
        self
    }
}

#[test]
fn a_pass_over_what_a_pass_left_emits_nothing() {
    let (_, mut items) = sample();
    assert!(extract_impl_items(vec![], &mut items).is_ok());
    assert_eq!(extract_impl_items(vec![], &mut items), Ok(vec![]));
}

#[test]
fn local_statements_skip_the_properties() {
    let bindings = vec![
        ClassItem::Property { item_ident: ident("a", 1), py_name: "a".to_string(), setter: false },
        ClassItem::Method { item_ident: ident("b", 2), py_name: "b".to_string() },
    ];
    assert_eq!(emit_locals(&bindings), vec![bind("b", "b", 2)]);
    let mut statements = vec![bind("b", "b", 2)];
    emit_invocations(&vec![path("A", 3)], &mut statements);
    assert_eq!(statements, vec![bind("b", "b", 2), invoke("A", 3)]);
}

#[test]
fn an_implementation_block_expands_to_its_registration() {
    let (attr, items) = sample();
    let block = ItemBlock { methods: items, span: span(1000) };
    let expansion = impl_pyimpl(attr, Item::Impl(block)).unwrap();
    match expansion {
        PyImpl::Impl { item, extend } => {
            assert_eq!(item.span, span(1000));
            assert_eq!(item.methods.len(), 4);
            assert_eq!(item.methods[0].attrs, vec![attribute(bare("inline", 2), 120)]);
            assert!(item.methods[1].attrs.is_empty());
            assert_eq!(extend.len(), 5);
            assert_eq!(extend[4], invoke("B", 902));
        }
        other => panic!("unexpected expansion {:?}", other),
    }
}

#[test]
fn a_trait_expands_to_its_registration() {
    let get = decl(
        "get",
        100,
        vec![
            list("pymethod", vec![assign("name", "__get__", 11)], 10),
            list("pyslot", vec![marker("descr_get", 21)], 20),
        ],
    );
    let cls_is = decl("_cls_is", 200, vec![]);
    let block = ItemBlock { methods: vec![get, cls_is], span: span(1000) };
    let expansion = impl_pyimpl(vec![], Item::Trait(block));
    assert_eq!(
        expansion,
        Ok(PyImpl::Trait {
            item: ItemBlock {
                methods: vec![decl("get", 100, vec![]), decl("_cls_is", 200, vec![])],
                span: span(1000)
            },
            extend: vec![
                bind("__get__", "get", 100),
                Statement::SetHook {
                    slot_ident: ident("descr_get", 21),
                    item_ident: ident("get", 100)
                },
            ],
        })
    );
}

#[test]
fn a_block_with_an_error_expands_to_the_report() {
    let (attr, items) = failing_sample();
    let block = ItemBlock { methods: items, span: span(1000) };
    assert_eq!(
        impl_pyimpl(attr, Item::Impl(block)),
        Err(vec![
            error(ErrorKind::SetterEmptyName, 100),
            error(ErrorKind::Duplicate, 6),
            error(ErrorKind::MissingGetter("volume".to_string()), 300),
        ])
    );
    let block = ItemBlock { methods: vec![], span: span(1000) };
    assert_eq!(
        impl_pyimpl(vec![marker("flags", 5)], Item::Trait(block)),
        Err(vec![error(ErrorKind::UnknownDirective, 5)])
    );
}

#[test]
fn another_item_stays_as_it_is() {
    assert_eq!(
        impl_pyimpl(vec![marker("flags", 5)], Item::Other(span(7))),
        Ok(PyImpl::Other(Item::Other(span(7))))
    );
    let variants = ItemEnum { ident: ident("Color", 1), attrs: vec![], span: span(2) };
    let again = ItemEnum { ident: ident("Color", 1), attrs: vec![], span: span(2) };
    assert_eq!(impl_pyimpl(vec![], Item::Enum(variants)), Ok(PyImpl::Other(Item::Enum(again))));
}

#[test]
fn name_value_form_is_reported_at_the_annotation() {
    let form = Meta::NameValue(MetaNameValue {
        path: path("pyproperty", 10),
        lit: Lit::Str(LitStr { value: "x".to_string(), span: span(11) }),
        span: span(10),
    });
    let mut items = vec![decl("f", 100, vec![form])];
    assert_eq!(
        extract_impl_items(vec![], &mut items),
        Err(vec![error(ErrorKind::NameValueForm(Keyword::Property), 10)])
    );
}

#[test]
fn entry_points_at_the_root() {
    let expansion = rustpython_derive::impl_pyimpl(vec![], Item::Other(span(1)));
    assert_eq!(expansion, Ok(PyImpl::Other(Item::Other(span(1)))));
    assert!(rustpython_derive::impl_pyclass(vec![], Item::Other(span(1))).is_err());
    assert!(rustpython_derive::impl_pystruct_sequence(vec![], Item::Other(span(1))).is_err());
}

#[test]
fn a_method_with_a_marker_that_it_does_not_know_is_bound() {
    let mut items = vec![decl("add", 100, vec![list("pymethod", vec![marker("frobnicate", 2)], 1)])];
    assert_eq!(extract_impl_items(vec![], &mut items), Ok(vec![bind("add", "add", 100)]));
    assert_eq!(items, vec![decl("add", 100, vec![])]);
}

#[test]
fn the_pairing_holds_each_name_once() {
    let bindings = vec![
        ClassItem::Property { item_ident: ident("a", 1), py_name: "x".to_string(), setter: false },
        ClassItem::Property { item_ident: ident("b", 2), py_name: "y".to_string(), setter: true },
        ClassItem::Property { item_ident: ident("c", 3), py_name: "x".to_string(), setter: true },
        ClassItem::Property { item_ident: ident("d", 4), py_name: "y".to_string(), setter: false },
    ];
    let mut diagnostics = vec![];
    let paired = PropertyPairing::build(&bindings, &mut diagnostics);
    assert!(diagnostics.is_empty());
    let names: Vec<&str> = paired.entries().iter().map(|entry| entry.py_name.as_str()).collect();
    assert_eq!(names, vec!["x", "y"]);
    assert!(paired.entries().iter().all(|entry| entry.getter.is_some() && entry.setter.is_some()));
}
