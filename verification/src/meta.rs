//! The annotation model: what a declaration carries before it is classified.
//!
//! An annotation is a path, alone (`#[pymethod]`), followed by a parenthesised
//! list of nested items (`#[pymethod(name = "x", magic)]`), or followed by one
//! value (`#[pymethod = "x"]`). Every construct carries the source range that a
//! diagnostic about it points at.

use vstd::prelude::*;
use crate::lift::views;
use crate::text::str_eq;

verus! {

/// A source range: the handles of its first and of its last token. The library
/// copies and joins ranges; it never looks into a handle.
#[derive(Clone, Copy, Debug, PartialEq, Eq, Structural)]
pub struct Span {
    pub lo: u64,
    pub hi: u64,
}

impl Span {
    /// The range that starts where `self` starts and ends where `other` ends.
    pub open spec fn spec_join(self, other: Span) -> Span {
        Span { lo: self.lo, hi: other.hi }
    }

    #[verifier::when_used_as_spec(spec_join)]
    pub fn join(self, other: Span) -> (joined: Span)
        ensures
            joined == self.spec_join(other),
    {
        Span { lo: self.lo, hi: other.hi }
    }
}

/// An identifier and where it stands.
#[derive(Debug, PartialEq, Eq)]
pub struct Ident {
    pub name: String,
    pub span: Span,
}

pub struct IdentView {
    pub name: Seq<char>,
    pub span: Span,
}

impl View for Ident {
    type V = IdentView;

    open spec fn view(&self) -> IdentView {
        IdentView { name: self.name@, span: self.span }
    }
}

impl Clone for Ident {
    fn clone(&self) -> (copy: Ident)
        ensures
            copy@ == self@,
    {
        Ident { name: self.name.clone(), span: self.span }
    }
}

/// A path of identifiers, such as `name` or `a::b`.
#[derive(Debug, PartialEq, Eq)]
pub struct Path {
    pub leading_colon: bool,
    pub segments: Vec<String>,
    pub span: Span,
}

pub struct PathView {
    pub leading_colon: bool,
    pub segments: Seq<Seq<char>>,
    pub span: Span,
}

impl PathView {
    /// The identifier that the path consists of, if it is one bare segment.
    pub open spec fn get_ident(self) -> Option<IdentView> {
        if !self.leading_colon && self.segments.len() == 1 {
            Some(IdentView { name: self.segments[0], span: self.span })
        } else {
            None
        }
    }

    /// Whether the path is the one bare identifier `name`.
    pub open spec fn is_ident(self, name: Seq<char>) -> bool {
        self.get_ident() matches Some(id) && id.name == name
    }
}

impl View for Path {
    type V = PathView;

    open spec fn view(&self) -> PathView {
        PathView {
            leading_colon: self.leading_colon,
            segments: views(self.segments@),
            span: self.span,
        }
    }
}

impl Path {
    /// The identifier that the path consists of, if it is one bare segment.
    pub fn get_ident(&self) -> (ident: Option<Ident>)
        ensures
            match ident {
                Some(id) => self@.get_ident() == Some(id@),
                None => self@.get_ident() is None,
            },
    {
        if !self.leading_colon && self.segments.len() == 1 {
            Some(Ident { name: self.segments[0].clone(), span: self.span })
        } else {
            None
        }
    }

    /// Whether the path is the one bare identifier `name`.
    pub fn is_ident(&self, name: &str) -> (same: bool)
        ensures
            same == self@.is_ident(name@),
    {
        if !self.leading_colon && self.segments.len() == 1 {
            str_eq(self.segments[0].as_str(), name)
        } else {
            false
        }
    }
}

impl Clone for Path {
    fn clone(&self) -> (copy: Path)
        ensures
            copy@ == self@,
    {
        let mut segments: Vec<String> = Vec::new();
        let mut i: usize = 0;
        while i < self.segments.len()
            invariant
                i <= self.segments@.len(),
                segments@.len() == i,
                forall|j: int| 0 <= j < i ==> segments@[j]@ == self.segments@[j]@,
            decreases self.segments@.len() - i,
        {
            segments.push(self.segments[i].clone());
            i += 1;
        }
        assert(views(segments@) =~= views(self.segments@));
        Path { leading_colon: self.leading_colon, segments, span: self.span }
    }
}

/// A string literal, by the text it denotes.
#[derive(Debug, PartialEq, Eq)]
pub struct LitStr {
    pub value: String,
    pub span: Span,
}

/// A literal: a string, or anything else.
#[derive(Debug, PartialEq, Eq)]
pub enum Lit {
    Str(LitStr),
    Other(Span),
}

pub enum LitView {
    Str(Seq<char>, Span),
    Other(Span),
}

impl LitView {
    pub open spec fn span(self) -> Span {
        match self {
            LitView::Str(_, span) => span,
            LitView::Other(span) => span,
        }
    }
}

impl View for Lit {
    type V = LitView;

    open spec fn view(&self) -> LitView {
        match self {
            Lit::Str(s) => LitView::Str(s.value@, s.span),
            Lit::Other(span) => LitView::Other(*span),
        }
    }
}

impl Lit {
    pub fn span(&self) -> (span: Span)
        ensures
            span == self@.span(),
    {
        match self {
            Lit::Str(s) => s.span,
            Lit::Other(span) => *span,
        }
    }
}

impl Clone for Lit {
    fn clone(&self) -> (copy: Lit)
        ensures
            copy@ == self@,
    {
        match self {
            Lit::Str(s) => Lit::Str(LitStr { value: s.value.clone(), span: s.span }),
            Lit::Other(span) => Lit::Other(*span),
        }
    }
}

/// `path = lit`.
#[derive(Debug, PartialEq, Eq)]
pub struct MetaNameValue {
    pub path: Path,
    pub lit: Lit,
    pub span: Span,
}

/// `path(nested, ...)`.
#[derive(Debug, PartialEq, Eq)]
pub struct MetaList {
    pub path: Path,
    pub nested: Vec<NestedMeta>,
    pub span: Span,
}

/// One annotation, or one structured item nested in an annotation.
#[derive(Debug, PartialEq, Eq)]
pub enum Meta {
    Path(Path),
    List(MetaList),
    NameValue(MetaNameValue),
}

/// One item between the parentheses of a list.
#[derive(Debug, PartialEq, Eq)]
pub enum NestedMeta {
    Meta(Meta),
    Lit(Lit),
}

pub struct MetaNameValueView {
    pub path: PathView,
    pub lit: LitView,
    pub span: Span,
}

pub struct MetaListView {
    pub path: PathView,
    pub nested: Seq<NestedMetaView>,
    pub span: Span,
}

pub enum MetaView {
    Path(PathView),
    List(MetaListView),
    NameValue(MetaNameValueView),
}

pub enum NestedMetaView {
    Meta(MetaView),
    Lit(LitView),
}

impl MetaView {
    pub open spec fn path(self) -> PathView {
        match self {
            MetaView::Path(path) => path,
            MetaView::List(list) => list.path,
            MetaView::NameValue(pair) => pair.path,
        }
    }

    pub open spec fn span(self) -> Span {
        match self {
            MetaView::Path(path) => path.span,
            MetaView::List(list) => list.span,
            MetaView::NameValue(pair) => pair.span,
        }
    }

    /// The nested items of an annotation that is a bare path or a list.
    pub open spec fn nested(self) -> Seq<NestedMetaView> {
        match self {
            MetaView::List(list) => list.nested,
            _ => Seq::empty(),
        }
    }
}

impl NestedMetaView {
    pub open spec fn span(self) -> Span {
        match self {
            NestedMetaView::Meta(meta) => meta.span(),
            NestedMetaView::Lit(lit) => lit.span(),
        }
    }
}

impl View for MetaNameValue {
    type V = MetaNameValueView;

    open spec fn view(&self) -> MetaNameValueView {
        MetaNameValueView { path: self.path@, lit: self.lit@, span: self.span }
    }
}

impl View for MetaList {
    type V = MetaListView;

    open spec fn view(&self) -> MetaListView
        decreases self,
    {
        MetaListView {
            path: self.path@,
            nested: Seq::new(
                self.nested@.len(),
                |i: int|
                    if 0 <= i < self.nested@.len() {
                        self.nested@[i]@
                    } else {
                        arbitrary()
                    },
            ),
            span: self.span,
        }
    }
}

impl View for Meta {
    type V = MetaView;

    open spec fn view(&self) -> MetaView
        decreases self,
    {
        match self {
            Meta::Path(path) => MetaView::Path(path@),
            Meta::List(list) => MetaView::List(list@),
            Meta::NameValue(pair) => MetaView::NameValue(pair@),
        }
    }
}

impl View for NestedMeta {
    type V = NestedMetaView;

    open spec fn view(&self) -> NestedMetaView
        decreases self,
    {
        match self {
            NestedMeta::Meta(meta) => NestedMetaView::Meta(meta@),
            NestedMeta::Lit(lit) => NestedMetaView::Lit(lit@),
        }
    }
}

/// The nested items of a list, seen one by one, are the views of its items.
pub proof fn lemma_list_view(list: MetaList)
    ensures
        list@.nested == views(list.nested@),
        list@.path == list.path@,
        list@.span == list.span,
{
    reveal_with_fuel(<MetaList as View>::view, 2);
    assert(list@.nested =~= views(list.nested@));
}

impl Clone for MetaList {
    fn clone(&self) -> (copy: MetaList)
        ensures
            copy@ == self@,
        decreases self,
    {
        let mut nested: Vec<NestedMeta> = Vec::new();
        let mut i: usize = 0;
        while i < self.nested.len()
            invariant
                i <= self.nested@.len(),
                nested@.len() == i,
                forall|j: int| 0 <= j < i ==> nested@[j]@ == self.nested@[j]@,
            decreases self.nested@.len() - i,
        {
            nested.push(self.nested[i].clone());
            i += 1;
        }
        let copy = MetaList { path: self.path.clone(), nested, span: self.span };
        proof {
            lemma_list_view(*self);
            lemma_list_view(copy);
            assert(views(copy.nested@) =~= views(self.nested@));
        }
        copy
    }
}

impl Clone for Meta {
    fn clone(&self) -> (copy: Meta)
        ensures
            copy@ == self@,
        decreases self,
    {
        match self {
            Meta::Path(path) => Meta::Path(path.clone()),
            Meta::List(list) => Meta::List(list.clone()),
            Meta::NameValue(pair) => Meta::NameValue(
                MetaNameValue { path: pair.path.clone(), lit: pair.lit.clone(), span: pair.span },
            ),
        }
    }
}

impl Clone for NestedMeta {
    fn clone(&self) -> (copy: NestedMeta)
        ensures
            copy@ == self@,
        decreases self,
    {
        match self {
            NestedMeta::Meta(meta) => NestedMeta::Meta(meta.clone()),
            NestedMeta::Lit(lit) => NestedMeta::Lit(lit.clone()),
        }
    }
}

impl Meta {
    pub fn path(&self) -> (path: &Path)
        ensures
            path@ == self@.path(),
    {
        match self {
            Meta::Path(path) => path,
            Meta::List(list) => {
                proof {
                    lemma_list_view(*list);
                }
                &list.path
            },
            Meta::NameValue(pair) => &pair.path,
        }
    }

    pub fn span(&self) -> (span: Span)
        ensures
            span == self@.span(),
    {
        match self {
            Meta::Path(path) => path.span,
            Meta::List(list) => {
                proof {
                    lemma_list_view(*list);
                }
                list.span
            },
            Meta::NameValue(pair) => pair.span,
        }
    }
}

impl NestedMeta {
    pub fn span(&self) -> (span: Span)
        ensures
            span == self@.span(),
    {
        match self {
            NestedMeta::Meta(meta) => meta.span(),
            NestedMeta::Lit(lit) => lit.span(),
        }
    }
}

/// The nested items of an annotation: none for a bare path, those of a list;
/// an annotation of the form `path = value` has none and is handed back.
pub fn meta_to_vec(meta: Meta) -> (nested: Result<Vec<NestedMeta>, Meta>)
    ensures
        match nested {
            Ok(items) => !(meta@ is NameValue) && views(items@) == meta@.nested(),
            Err(back) => meta@ is NameValue && back == meta,
        },
{
    match meta {
        Meta::Path(_) => {
            let items: Vec<NestedMeta> = Vec::new();
            assert(views(items@) =~= meta@.nested());
            Ok(items)
        },
        Meta::List(list) => {
            proof {
                lemma_list_view(list);
            }
            Ok(list.nested)
        },
        Meta::NameValue(pair) => Err(Meta::NameValue(pair)),
    }
}

/// One annotation as it stands on a declaration. `meta` is `None` where the
/// annotation's arguments do not have the shape of a `Meta`.
#[derive(Debug, PartialEq, Eq)]
pub struct Attribute {
    pub path: Path,
    pub meta: Option<Meta>,
    pub span: Span,
}

pub struct AttributeView {
    pub path: PathView,
    pub meta: Option<MetaView>,
    pub span: Span,
}

impl View for Attribute {
    type V = AttributeView;

    open spec fn view(&self) -> AttributeView {
        AttributeView {
            path: self.path@,
            meta: match self.meta {
                Some(meta) => Some(meta@),
                None => None,
            },
            span: self.span,
        }
    }
}

impl Attribute {
    /// The annotation as a `Meta`, where it has that shape.
    pub fn parse_meta(&self) -> (meta: Option<Meta>)
        ensures
            match meta {
                Some(m) => self@.meta == Some(m@),
                None => self@.meta is None,
            },
    {
        match &self.meta {
            Some(meta) => Some(meta.clone()),
            None => None,
        }
    }
}

/// The header of a member function: its identifier.
#[derive(Debug, PartialEq, Eq)]
pub struct Signature {
    pub ident: Ident,
}

pub struct SignatureView {
    pub ident: IdentView,
}

impl View for Signature {
    type V = SignatureView;

    open spec fn view(&self) -> SignatureView {
        SignatureView { ident: self.ident@ }
    }
}

/// A declaration: a member function with its annotations.
#[derive(Debug, PartialEq, Eq)]
pub struct ItemSig {
    pub attrs: Vec<Attribute>,
    pub sig: Signature,
}

pub struct ItemSigView {
    pub attrs: Seq<AttributeView>,
    pub sig: SignatureView,
}

impl View for ItemSig {
    type V = ItemSigView;

    open spec fn view(&self) -> ItemSigView {
        ItemSigView { attrs: views(self.attrs@), sig: self.sig@ }
    }
}

} // verus!
