use rustpython_derive::class::{Class, ClassItem};
use rustpython_derive::diagnostic::{Category, Diagnostic, ErrorKind, Keyword};
use rustpython_derive::meta::{
    meta_to_vec, Attribute, Ident, Lit, LitStr, Meta, MetaList, MetaNameValue, NestedMeta, Path,
    Signature, Span,
};
use rustpython_derive::options::{parse_options, OptionBag};

fn span(at: u64) -> Span {
    Span { lo: at, hi: at }
}

fn ident(name: &str, at: u64) -> Ident {
    Ident { name: name.to_string(), span: span(at) }
}

fn path(name: &str, at: u64) -> Path {
    Path { leading_colon: false, segments: vec![name.to_string()], span: span(at) }
}

fn sig(name: &str, at: u64) -> Signature {
    Signature { ident: ident(name, at) }
}

fn bare(keyword: &str, at: u64) -> Meta {
    Meta::Path(path(keyword, at))
}

fn list(keyword: &str, nested: Vec<NestedMeta>, at: u64) -> Meta {
    Meta::List(MetaList { path: path(keyword, at), nested, span: span(at) })
}

fn marker(name: &str, at: u64) -> NestedMeta {
    NestedMeta::Meta(Meta::Path(path(name, at)))
}

fn assign(key: &str, value: &str, at: u64) -> NestedMeta {
    NestedMeta::Meta(Meta::NameValue(MetaNameValue {
        path: path(key, at),
        lit: Lit::Str(LitStr { value: value.to_string(), span: span(at + 1) }),
        span: span(at),
    }))
}

fn assign_other(key: &str, at: u64) -> NestedMeta {
    NestedMeta::Meta(Meta::NameValue(MetaNameValue {
        path: path(key, at),
        lit: Lit::Other(span(at + 1)),
        span: span(at),
    }))
}

fn name_value(keyword: &str, value: &str, at: u64) -> Meta {
    Meta::NameValue(MetaNameValue {
        path: path(keyword, at),
        lit: Lit::Str(LitStr { value: value.to_string(), span: span(at + 1) }),
        span: span(at),
    })
}

fn attribute(meta: Meta, at: u64) -> Attribute {
    let path = match &meta {
        Meta::Path(path) => path.clone(),
        Meta::List(list) => list.path.clone(),
        Meta::NameValue(pair) => pair.path.clone(),
    };
    Attribute { path, meta: Some(meta), span: span(at) }
}

fn method(name: &str, function: &str, at: u64) -> ClassItem {
    ClassItem::Method { item_ident: ident(function, at), py_name: name.to_string() }
}

fn error(kind: ErrorKind, at: u64) -> Diagnostic {
    Diagnostic { kind, span: span(at) }
}

#[test]
fn bare_method_keeps_the_function_name() {
    let item = Class::extract_method(&sig("len", 1), bare("pymethod", 2));
    assert_eq!(item, Ok(method("len", "len", 1)));
}

#[test]
fn magic_method_is_wrapped_in_underscores() {
    let meta = list("pymethod", vec![marker("magic", 3)], 2);
    let item = Class::extract_method(&sig("add", 1), meta);
    assert_eq!(item, Ok(method("__add__", "add", 1)));
}

#[test]
fn magic_method_of_an_empty_looking_name() {
    let meta = list("pymethod", vec![marker("magic", 3)], 2);
    let item = Class::extract_method(&sig("_", 1), meta);
    assert_eq!(item, Ok(method("_____", "_", 1)));
}

#[test]
fn method_takes_the_explicit_name() {
    let meta = list("pymethod", vec![assign("name", "__get__", 3)], 2);
    let item = Class::extract_method(&sig("get", 1), meta);
    assert_eq!(item, Ok(method("__get__", "get", 1)));
}

#[test]
fn method_name_after_magic_wins() {
    let meta = list("pymethod", vec![marker("magic", 3), assign("name", "plus", 5)], 2);
    let item = Class::extract_method(&sig("add", 1), meta);
    assert_eq!(item, Ok(method("plus", "add", 1)));
}

#[test]
fn method_magic_after_name_wins() {
    let meta = list("pymethod", vec![assign("name", "plus", 3), marker("magic", 5)], 2);
    let item = Class::extract_method(&sig("add", 1), meta);
    assert_eq!(item, Ok(method("__add__", "add", 1)));
}

#[test]
fn method_second_name_wins() {
    let meta = list("pymethod", vec![assign("name", "a", 3), assign("name", "b", 5)], 2);
    let item = Class::extract_method(&sig("f", 1), meta);
    assert_eq!(item, Ok(method("b", "f", 1)));
}

#[test]
fn method_ignores_unknown_keys_literals_and_lists() {
    let nested = vec![
        assign("doc", "text", 3),
        NestedMeta::Lit(Lit::Str(LitStr { value: "loose".to_string(), span: span(5) })),
        NestedMeta::Lit(Lit::Other(span(6))),
        NestedMeta::Meta(list("inner", vec![marker("magic", 8)], 7)),
        assign_other("count", 9),
    ];
    let item = Class::extract_method(&sig("f", 1), list("pymethod", nested, 2));
    assert_eq!(item, Ok(method("f", "f", 1)));
}

#[test]
fn method_ignores_a_marker_that_it_does_not_know() {
    let meta = list("pymethod", vec![marker("frobnicate", 3)], 2);
    let item = Class::extract_method(&sig("add", 1), meta);
    assert_eq!(item, Ok(method("add", "add", 1)));
    let meta = list("pymethod", vec![marker("setter", 3)], 2);
    let item = Class::extract_method(&sig("f", 1), meta);
    assert_eq!(item, Ok(method("f", "f", 1)));
}

#[test]
fn method_ignores_a_qualified_magic() {
    let qualified = Path {
        leading_colon: false,
        segments: vec!["a".to_string(), "magic".to_string()],
        span: span(3),
    };
    let meta = list("pymethod", vec![NestedMeta::Meta(Meta::Path(qualified))], 2);
    let item = Class::extract_method(&sig("f", 1), meta);
    assert_eq!(item, Ok(method("f", "f", 1)));
}

#[test]
fn method_keeps_its_name_beside_a_marker_that_it_does_not_know() {
    let nested = vec![marker("other", 3), assign("name", "plus", 4), marker("more", 6)];
    let item = Class::extract_method(&sig("add", 1), list("pymethod", nested, 2));
    assert_eq!(item, Ok(method("plus", "add", 1)));
    let nested = vec![marker("magic", 3), marker("other", 4)];
    let item = Class::extract_method(&sig("add", 1), list("pymethod", nested, 2));
    assert_eq!(item, Ok(method("__add__", "add", 1)));
}

#[test]
fn method_rejects_a_name_that_is_no_string() {
    let meta = list("pymethod", vec![assign_other("name", 3)], 2);
    let item = Class::extract_method(&sig("f", 1), meta);
    assert_eq!(item, Err(error(ErrorKind::NameNotString("pymethod".to_string()), 1)));
}

#[test]
fn method_first_failure_decides() {
    let nested = vec![assign_other("name", 3), marker("other", 5), assign("name", "x", 7)];
    let item = Class::extract_method(&sig("f", 1), list("pymethod", nested, 2));
    assert_eq!(item, Err(error(ErrorKind::NameNotString("pymethod".to_string()), 1)));
    let nested = vec![marker("other", 5), assign_other("name", 3), assign("name", "x", 7)];
    let item = Class::extract_method(&sig("f", 1), list("pymethod", nested, 2));
    assert_eq!(item, Err(error(ErrorKind::NameNotString("pymethod".to_string()), 1)));
}

#[test]
fn method_rejects_the_name_value_form() {
    let item = Class::extract_method(&sig("f", 1), name_value("pymethod", "x", 2));
    assert_eq!(item, Err(error(ErrorKind::NameValueForm(Keyword::Method), 2)));
    assert_eq!(ErrorKind::NameValueForm(Keyword::Method).category(), Category::Shape);
}

#[test]
fn method_with_empty_parentheses_keeps_the_function_name() {
    let item = Class::extract_method(&sig("f", 1), list("pymethod", vec![], 2));
    assert_eq!(item, Ok(method("f", "f", 1)));
}

#[test]
fn classmethod_names() {
    let item = Class::extract_classmethod(&sig("make", 1), bare("pyclassmethod", 2));
    assert_eq!(
        item,
        Ok(ClassItem::ClassMethod { item_ident: ident("make", 1), py_name: "make".to_string() })
    );
    let meta = list("pyclassmethod", vec![assign("name", "fromkeys", 3)], 2);
    let item = Class::extract_classmethod(&sig("make", 1), meta);
    assert_eq!(
        item,
        Ok(ClassItem::ClassMethod {
            item_ident: ident("make", 1),
            py_name: "fromkeys".to_string()
        })
    );
}

#[test]
fn classmethod_ignores_markers() {
    let meta = list("pyclassmethod", vec![marker("magic", 3), marker("setter", 4)], 2);
    let item = Class::extract_classmethod(&sig("make", 1), meta);
    assert_eq!(
        item,
        Ok(ClassItem::ClassMethod { item_ident: ident("make", 1), py_name: "make".to_string() })
    );
}

#[test]
fn classmethod_errors() {
    let item = Class::extract_classmethod(&sig("f", 1), name_value("pyclassmethod", "x", 2));
    assert_eq!(item, Err(error(ErrorKind::NameValueForm(Keyword::ClassMethod), 2)));
    let meta = list("pyclassmethod", vec![assign_other("name", 3)], 2);
    let item = Class::extract_classmethod(&sig("f", 1), meta);
    assert_eq!(item, Err(error(ErrorKind::NameNotString("pyclassmethod".to_string()), 1)));
}

fn property(name: &str, function: &str, at: u64, setter: bool) -> ClassItem {
    ClassItem::Property { item_ident: ident(function, at), py_name: name.to_string(), setter }
}

#[test]
fn getter_keeps_the_function_name() {
    let item = Class::extract_property(&sig("volume", 1), bare("pyproperty", 2));
    assert_eq!(item, Ok(property("volume", "volume", 1, false)));
}

#[test]
fn getter_name_is_verbatim() {
    let item = Class::extract_property(&sig("get_value", 1), bare("pyproperty", 2));
    assert_eq!(item, Ok(property("get_value", "get_value", 1, false)));
    let item = Class::extract_property(&sig("set_value", 1), bare("pyproperty", 2));
    assert_eq!(item, Ok(property("set_value", "set_value", 1, false)));
}

#[test]
fn setter_loses_its_prefix() {
    let meta = list("pyproperty", vec![marker("setter", 3)], 2);
    let item = Class::extract_property(&sig("set_volume", 1), meta);
    assert_eq!(item, Ok(property("volume", "set_volume", 1, true)));
}

#[test]
fn setter_keeps_what_follows_the_first_prefix() {
    let meta = list("pyproperty", vec![marker("setter", 3)], 2);
    let item = Class::extract_property(&sig("set_set_x", 1), meta);
    assert_eq!(item, Ok(property("set_x", "set_set_x", 1, true)));
    let meta = list("pyproperty", vec![marker("setter", 3)], 2);
    let item = Class::extract_property(&sig("set_größe", 1), meta);
    assert_eq!(item, Ok(property("größe", "set_größe", 1, true)));
}

#[test]
fn setter_named_set_alone_is_rejected() {
    let meta = list("pyproperty", vec![marker("setter", 3)], 2);
    let item = Class::extract_property(&sig("set_", 1), meta);
    assert_eq!(item, Err(error(ErrorKind::SetterEmptyName, 1)));
    assert_eq!(ErrorKind::SetterEmptyName.category(), Category::Naming);
}

#[test]
fn setter_without_prefix_is_rejected() {
    let meta = list("pyproperty", vec![marker("setter", 3)], 2);
    let item = Class::extract_property(&sig("update", 1), meta);
    assert_eq!(item, Err(error(ErrorKind::SetterNeedsName, 1)));
    assert_eq!(ErrorKind::SetterNeedsName.category(), Category::Naming);
    let meta = list("pyproperty", vec![marker("setter", 3)], 2);
    let item = Class::extract_property(&sig("set", 1), meta);
    assert_eq!(item, Err(error(ErrorKind::SetterNeedsName, 1)));
    let meta = list("pyproperty", vec![marker("setter", 3)], 2);
    let item = Class::extract_property(&sig("Set_x", 1), meta);
    assert_eq!(item, Err(error(ErrorKind::SetterNeedsName, 1)));
}

#[test]
fn setter_takes_the_explicit_name() {
    let meta = list("pyproperty", vec![marker("setter", 3), assign("name", "value", 4)], 2);
    let item = Class::extract_property(&sig("update", 1), meta);
    assert_eq!(item, Ok(property("value", "update", 1, true)));
    let meta = list("pyproperty", vec![assign("name", "value", 4), marker("setter", 3)], 2);
    let item = Class::extract_property(&sig("set_", 1), meta);
    assert_eq!(item, Ok(property("value", "set_", 1, true)));
}

#[test]
fn property_ignores_other_markers_and_keys() {
    let meta = list("pyproperty", vec![marker("magic", 3), assign("doc", "x", 4)], 2);
    let item = Class::extract_property(&sig("size", 1), meta);
    assert_eq!(item, Ok(property("size", "size", 1, false)));
}

#[test]
fn property_errors() {
    let item = Class::extract_property(&sig("f", 1), name_value("pyproperty", "x", 2));
    assert_eq!(item, Err(error(ErrorKind::NameValueForm(Keyword::Property), 2)));
    let meta = list("pyproperty", vec![marker("setter", 3), assign_other("name", 4)], 2);
    let item = Class::extract_property(&sig("set_x", 1), meta);
    assert_eq!(item, Err(error(ErrorKind::NameNotString("pyproperty".to_string()), 1)));
}

fn slot(hook: &str, hook_at: u64, function: &str, at: u64) -> ClassItem {
    ClassItem::Slot { slot_ident: ident(hook, hook_at), item_ident: ident(function, at) }
}

#[test]
fn slot_loses_the_prefix_tp() {
    let item = Class::extract_slot(&sig("tp_new", 1), bare("pyslot", 2));
    assert_eq!(item, Ok(slot("new", 1, "tp_new", 1)));
}

#[test]
fn slot_without_prefix_is_verbatim() {
    let item = Class::extract_slot(&sig("call", 1), bare("pyslot", 2));
    assert_eq!(item, Ok(slot("call", 1, "call", 1)));
    let item = Class::extract_slot(&sig("tp", 1), list("pyslot", vec![], 2));
    assert_eq!(item, Ok(slot("tp", 1, "tp", 1)));
}

#[test]
fn slot_named_tp_alone_has_an_empty_hook_name() {
    let item = Class::extract_slot(&sig("tp_", 1), bare("pyslot", 2));
    assert_eq!(item, Ok(slot("", 1, "tp_", 1)));
}

#[test]
fn slot_takes_its_argument() {
    let meta = list("pyslot", vec![marker("descr_get", 3)], 2);
    let item = Class::extract_slot(&sig("tp_get", 1), meta);
    assert_eq!(item, Ok(slot("descr_get", 3, "tp_get", 1)));
}

#[test]
fn slot_rejects_two_arguments() {
    let meta = list("pyslot", vec![marker("a", 3), marker("b", 5)], 2);
    let item = Class::extract_slot(&sig("f", 1), meta);
    assert_eq!(
        item,
        Err(Diagnostic { kind: ErrorKind::SlotArgumentCount, span: Span { lo: 3, hi: 5 } })
    );
    assert_eq!(ErrorKind::SlotArgumentCount.category(), Category::Naming);
    let meta = list("pyslot", vec![marker("a", 3), assign("b", "c", 5), marker("d", 9)], 2);
    let item = Class::extract_slot(&sig("f", 1), meta);
    assert_eq!(
        item,
        Err(Diagnostic { kind: ErrorKind::SlotArgumentCount, span: Span { lo: 3, hi: 9 } })
    );
}

#[test]
fn slot_rejects_an_argument_that_is_no_bare_name() {
    let meta = list("pyslot", vec![assign("name", "new", 3)], 2);
    let item = Class::extract_slot(&sig("f", 1), meta);
    assert_eq!(item, Err(error(ErrorKind::SlotForm, 3)));
    let literal = NestedMeta::Lit(Lit::Str(LitStr { value: "new".to_string(), span: span(4) }));
    let item = Class::extract_slot(&sig("f", 1), list("pyslot", vec![literal], 2));
    assert_eq!(item, Err(error(ErrorKind::SlotForm, 4)));
    let qualified = Path {
        leading_colon: false,
        segments: vec!["a".to_string(), "b".to_string()],
        span: span(6),
    };
    let meta = list("pyslot", vec![NestedMeta::Meta(Meta::Path(qualified))], 2);
    let item = Class::extract_slot(&sig("f", 1), meta);
    assert_eq!(item, Err(error(ErrorKind::SlotForm, 6)));
    let rooted = Path { leading_colon: true, segments: vec!["a".to_string()], span: span(7) };
    let meta = list("pyslot", vec![NestedMeta::Meta(Meta::Path(rooted))], 2);
    let item = Class::extract_slot(&sig("f", 1), meta);
    assert_eq!(item, Err(error(ErrorKind::SlotForm, 7)));
    assert_eq!(ErrorKind::SlotForm.category(), Category::Shape);
}

#[test]
fn slot_rejects_the_name_value_form() {
    let item = Class::extract_slot(&sig("f", 1), name_value("pyslot", "new", 2));
    assert_eq!(item, Err(error(ErrorKind::SlotForm, 2)));
}

#[test]
fn options_of_a_property() {
    let meta = list("pyproperty", vec![assign("name", "a", 3), marker("setter", 4)], 2);
    let bag = parse_options(Keyword::Property, &sig("f", 1), meta);
    assert_eq!(bag, Ok(OptionBag { name: Some("a".to_string()), setter: true }));
    let bag = parse_options(Keyword::Property, &sig("f", 1), bare("pyproperty", 2));
    assert_eq!(bag, Ok(OptionBag { name: None, setter: false }));
    let meta = list("pymethod", vec![marker("setter", 4)], 2);
    let bag = parse_options(Keyword::Method, &sig("f", 1), meta);
    assert_eq!(bag, Ok(OptionBag { name: None, setter: false }));
    let meta = list("pyclassmethod", vec![marker("setter", 4)], 2);
    let bag = parse_options(Keyword::ClassMethod, &sig("f", 1), meta);
    assert_eq!(bag, Ok(OptionBag { name: None, setter: false }));
}

#[test]
fn nested_items_of_the_three_forms() {
    assert_eq!(meta_to_vec(bare("pymethod", 1)), Ok(vec![]));
    assert_eq!(
        meta_to_vec(list("pymethod", vec![marker("magic", 2)], 1)),
        Ok(vec![marker("magic", 2)])
    );
    assert_eq!(meta_to_vec(name_value("pymethod", "x", 1)), Err(name_value("pymethod", "x", 1)));
}

#[test]
fn bindings_are_compared_without_their_places() {
    let here = method("len", "len", 1);
    let there = method("len", "len", 9);
    assert!(here.same_binding(&there));
    assert!(!here.same_binding(&method("size", "len", 1)));
    assert!(!here.same_binding(&method("len", "size", 1)));
    let other = ClassItem::ClassMethod { item_ident: ident("len", 1), py_name: "len".to_string() };
    assert!(!here.same_binding(&other));
    assert!(property("a", "f", 1, true).same_binding(&property("a", "f", 2, true)));
    assert!(!property("a", "f", 1, true).same_binding(&property("a", "f", 1, false)));
    assert!(slot("new", 1, "f", 2).same_binding(&slot("new", 3, "f", 4)));
    assert!(!slot("new", 1, "f", 2).same_binding(&slot("init", 1, "f", 2)));
}

#[test]
fn the_set_refuses_a_binding_that_it_holds() {
    let mut class = Class::default();
    assert_eq!(class.add_item(method("len", "len", 1), span(2)), Ok(()));
    assert_eq!(class.add_item(method("size", "len", 1), span(3)), Ok(()));
    assert_eq!(
        class.add_item(method("len", "len", 7), span(4)),
        Err(error(ErrorKind::Duplicate, 4))
    );
    assert_eq!(class.items(), &vec![method("len", "len", 1), method("size", "len", 1)]);
    assert!(class.contains(&method("size", "len", 5)));
    assert!(!class.contains(&method("size", "size", 1)));
    assert_eq!(ErrorKind::Duplicate.category(), Category::Duplication);
}

#[test]
fn a_declaration_loses_the_annotations_that_made_bindings() {
    let mut class = Class::default();
    let mut attrs = vec![
        attribute(bare("inline", 10), 10),
        attribute(list("pymethod", vec![assign("name", "__get__", 21)], 20), 20),
        Attribute { path: path("weird", 30), meta: None, span: span(30) },
        attribute(list("pyslot", vec![marker("descr_get", 41)], 40), 40),
        attribute(name_value("doc", "text", 50), 50),
    ];
    let done = class.extract_item(&mut attrs, &sig("get", 1));
    assert_eq!(done, Ok(()));
    assert_eq!(
        attrs,
        vec![
            attribute(bare("inline", 10), 10),
            Attribute { path: path("weird", 30), meta: None, span: span(30) },
            attribute(name_value("doc", "text", 50), 50),
        ]
    );
    assert_eq!(
        class.items(),
        &vec![method("__get__", "get", 1), slot("descr_get", 41, "get", 1)]
    );
}

#[test]
fn a_declaration_without_annotations_adds_nothing() {
    let mut class = Class::default();
    let mut attrs = vec![];
    assert_eq!(class.extract_item(&mut attrs, &sig("f", 1)), Ok(()));
    assert!(attrs.is_empty());
    assert!(class.items().is_empty());
    let mut attrs = vec![attribute(bare("inline", 10), 10)];
    assert_eq!(class.extract_item(&mut attrs, &sig("f", 1)), Ok(()));
    assert_eq!(attrs, vec![attribute(bare("inline", 10), 10)]);
    assert!(class.items().is_empty());
}

#[test]
fn a_qualified_keyword_makes_no_binding() {
    let qualified = Path {
        leading_colon: false,
        segments: vec!["derive".to_string(), "pymethod".to_string()],
        span: span(10),
    };
    let mut class = Class::default();
    let mut attrs = vec![Attribute {
        path: qualified.clone(),
        meta: Some(Meta::Path(qualified.clone())),
        span: span(10),
    }];
    assert_eq!(class.extract_item(&mut attrs, &sig("f", 1)), Ok(()));
    assert_eq!(attrs.len(), 1);
    assert!(class.items().is_empty());
}

#[test]
fn the_same_annotation_twice_is_one_duplicate_at_the_second() {
    let mut class = Class::default();
    let mut attrs = vec![attribute(bare("pymethod", 10), 10), attribute(bare("pymethod", 20), 20)];
    let done = class.extract_item(&mut attrs, &sig("f", 1));
    assert_eq!(done, Err(error(ErrorKind::Duplicate, 20)));
    assert_eq!(
        attrs,
        vec![attribute(bare("pymethod", 10), 10), attribute(bare("pymethod", 20), 20)]
    );
    assert_eq!(class.items(), &vec![method("f", "f", 1)]);
}

#[test]
fn a_rejected_annotation_ends_its_declaration() {
    let mut class = Class::default();
    let mut attrs = vec![
        attribute(bare("pymethod", 10), 10),
        attribute(name_value("pyslot", "x", 20), 20),
        attribute(bare("pyclassmethod", 30), 30),
    ];
    let done = class.extract_item(&mut attrs, &sig("f", 1));
    assert_eq!(done, Err(error(ErrorKind::SlotForm, 20)));
    assert_eq!(attrs.len(), 3);
    assert_eq!(class.items(), &vec![method("f", "f", 1)]);
}

#[test]
fn binding_by_keyword() {
    let item = Class::extract_binding(Keyword::Slot, &sig("tp_call", 1), bare("pyslot", 2));
    assert_eq!(item, Ok(slot("call", 1, "tp_call", 1)));
    let item = Class::extract_binding(Keyword::Method, &sig("tp_call", 1), bare("pymethod", 2));
    assert_eq!(item, Ok(method("tp_call", "tp_call", 1)));
}
