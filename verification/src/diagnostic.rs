//! Diagnostics: what went wrong, and the source range it is reported at.

use vstd::prelude::*;
use vstd::string::*;
use crate::meta::Span;

verus! {

/// The four annotations that turn a member function into a binding.
#[derive(Clone, Copy, Debug, PartialEq, Eq, Structural)]
pub enum Keyword {
    Method,
    ClassMethod,
    Property,
    Slot,
}

impl Keyword {
    /// The annotation as it is written in source.
    pub open spec fn spec_name(self) -> Seq<char> {
        match self {
            Keyword::Method => "pymethod"@,
            Keyword::ClassMethod => "pyclassmethod"@,
            Keyword::Property => "pyproperty"@,
            Keyword::Slot => "pyslot"@,
        }
    }

    pub fn name(self) -> (name: &'static str)
        ensures
            name@ == self.spec_name(),
    {
        match self {
            Keyword::Method => "pymethod",
            Keyword::ClassMethod => "pyclassmethod",
            Keyword::Property => "pyproperty",
            Keyword::Slot => "pyslot",
        }
    }
}

/// The four families of error.
#[derive(Clone, Copy, Debug, PartialEq, Eq, Structural)]
pub enum Category {
    /// The arguments of an annotation do not follow its grammar.
    Shape,
    /// No exposed name can be derived for the binding.
    Naming,
    /// The same binding was declared twice.
    Duplication,
    /// The accessors of a property do not fit together.
    Pairing,
}

/// What went wrong.
#[derive(Debug, PartialEq, Eq)]
pub enum ErrorKind {
    /// `#[keyword = ...]` in place of `#[keyword(name = ...)]`.
    NameValueForm(Keyword),
    /// `name = <value>` where the value is not a string; holds the annotation.
    NameNotString(String),
    /// A slot annotation of the form `path = value`, or one whose argument is
    /// not a bare name.
    SlotForm,
    /// A slot annotation with more than one argument.
    SlotArgumentCount,
    /// A setter called exactly `set_`.
    SetterEmptyName,
    /// A setter with neither an explicit name nor a name that starts with `set_`.
    SetterNeedsName,
    /// A binding that is already in the set.
    Duplicate,
    /// A second getter, or a second setter, for the property of this name.
    MultipleAccessors(String),
    /// A setter for the property of this name, and no getter.
    MissingGetter(String),
    /// An argument of `with(...)` that is not a path.
    WithArgument,
    /// A block-level argument other than `with(...)`.
    UnknownDirective,
    /// A class annotation on something that is neither a struct nor an enum.
    NotStructOrEnum,
    /// A record annotation on something that is not a struct.
    NotStruct,
}

pub enum ErrorKindView {
    NameValueForm(Keyword),
    NameNotString(Seq<char>),
    SlotForm,
    SlotArgumentCount,
    SetterEmptyName,
    SetterNeedsName,
    Duplicate,
    MultipleAccessors(Seq<char>),
    MissingGetter(Seq<char>),
    WithArgument,
    UnknownDirective,
    NotStructOrEnum,
    NotStruct,
}

impl View for ErrorKind {
    type V = ErrorKindView;

    open spec fn view(&self) -> ErrorKindView {
        match self {
            ErrorKind::NameValueForm(keyword) => ErrorKindView::NameValueForm(*keyword),
            ErrorKind::NameNotString(annotation) => ErrorKindView::NameNotString(annotation@),
            ErrorKind::SlotForm => ErrorKindView::SlotForm,
            ErrorKind::SlotArgumentCount => ErrorKindView::SlotArgumentCount,
            ErrorKind::SetterEmptyName => ErrorKindView::SetterEmptyName,
            ErrorKind::SetterNeedsName => ErrorKindView::SetterNeedsName,
            ErrorKind::Duplicate => ErrorKindView::Duplicate,
            ErrorKind::MultipleAccessors(name) => ErrorKindView::MultipleAccessors(name@),
            ErrorKind::MissingGetter(name) => ErrorKindView::MissingGetter(name@),
            ErrorKind::WithArgument => ErrorKindView::WithArgument,
            ErrorKind::UnknownDirective => ErrorKindView::UnknownDirective,
            ErrorKind::NotStructOrEnum => ErrorKindView::NotStructOrEnum,
            ErrorKind::NotStruct => ErrorKindView::NotStruct,
        }
    }
}

/// The text that `Debug` of the standard library writes for a string: the
/// string between double quotes, with the characters escaped that `Debug`
/// escapes.
pub uninterp spec fn str_debug(s: Seq<char>) -> Seq<char>;

/// `format!("{:?}", s)` for a string `s`. The contract gives the text a name
/// and says nothing about what it holds.
#[verifier::external_body]
fn debug_quoted(s: &str) -> (quoted: String)
    ensures
        quoted@ == str_debug(s@),
{
    format!("{:?}", s)
}

impl ErrorKindView {
    /// The family that the error belongs to.
    pub open spec fn category(self) -> Category {
        match self {
            ErrorKindView::NameValueForm(_) => Category::Shape,
            ErrorKindView::NameNotString(_) => Category::Shape,
            ErrorKindView::SlotForm => Category::Shape,
            ErrorKindView::WithArgument => Category::Shape,
            ErrorKindView::UnknownDirective => Category::Shape,
            ErrorKindView::NotStructOrEnum => Category::Shape,
            ErrorKindView::NotStruct => Category::Shape,
            ErrorKindView::SlotArgumentCount => Category::Naming,
            ErrorKindView::SetterEmptyName => Category::Naming,
            ErrorKindView::SetterNeedsName => Category::Naming,
            ErrorKindView::Duplicate => Category::Duplication,
            ErrorKindView::MultipleAccessors(_) => Category::Pairing,
            ErrorKindView::MissingGetter(_) => Category::Pairing,
        }
    }

    /// The property name that a pairing error is about; empty for the others.
    pub open spec fn subject(self) -> Seq<char> {
        match self {
            ErrorKindView::MultipleAccessors(name) => name,
            ErrorKindView::MissingGetter(name) => name,
            _ => Seq::empty(),
        }
    }

    /// The message of the error, where `quoted` stands for the property name
    /// of a pairing error as it is to be shown.
    pub open spec fn render(self, quoted: Seq<char>) -> Seq<char> {
        match self {
            ErrorKindView::NameValueForm(keyword) => "#["@ + keyword.spec_name()
                + " = \"...\"] cannot be a name/value, you probably meant #["@
                + keyword.spec_name() + "(name = \"...\")]"@,
            ErrorKindView::NameNotString(annotation) => "#["@ + annotation
                + "(name = ...)] must be a string"@,
            ErrorKindView::SlotForm =>
                "#[pyslot] must be of the form #[pyslot] or #[pyslot(slotname)]"@,
            ErrorKindView::SlotArgumentCount =>
                "#[pyslot] must be of the form #[pyslot] or #[pyslot(slotname)]"@,
            ErrorKindView::SetterEmptyName =>
                "A #[pyproperty(setter)] fn with a set_* name must have something after \"set_\""@,
            ErrorKindView::SetterNeedsName =>
                "A #[pyproperty(setter)] fn must either have a `name` parameter or a fn name along the lines of \"set_*\""@,
            ErrorKindView::Duplicate => "Duplicate #[py*] attribute on pyimpl"@,
            ErrorKindView::MultipleAccessors(_) => "Multiple property accessors with name "@
                + quoted,
            ErrorKindView::MissingGetter(_) => "Property "@ + quoted + " is missing a getter"@,
            ErrorKindView::WithArgument => "#[pyimpl(with(...))] arguments should be paths"@,
            ErrorKindView::UnknownDirective => "Unknown pyimpl attribute"@,
            ErrorKindView::NotStructOrEnum =>
                "#[pyclass] can only be on a struct or enum declaration"@,
            ErrorKindView::NotStruct =>
                "#[pystruct_sequence] can only be on a struct declaration"@,
        }
    }

    /// The message of the error.
    pub open spec fn message(self) -> Seq<char> {
        self.render(str_debug(self.subject()))
    }
}

impl ErrorKind {
    /// The family that the error belongs to.
    pub fn category(&self) -> (category: Category)
        ensures
            category == self@.category(),
    {
        match self {
            ErrorKind::NameValueForm(_) => Category::Shape,
            ErrorKind::NameNotString(_) => Category::Shape,
            ErrorKind::SlotForm => Category::Shape,
            ErrorKind::WithArgument => Category::Shape,
            ErrorKind::UnknownDirective => Category::Shape,
            ErrorKind::NotStructOrEnum => Category::Shape,
            ErrorKind::NotStruct => Category::Shape,
            ErrorKind::SlotArgumentCount => Category::Naming,
            ErrorKind::SetterEmptyName => Category::Naming,
            ErrorKind::SetterNeedsName => Category::Naming,
            ErrorKind::Duplicate => Category::Duplication,
            ErrorKind::MultipleAccessors(_) => Category::Pairing,
            ErrorKind::MissingGetter(_) => Category::Pairing,
        }
    }

    /// The message of the error, with `quoted` in the place of the property
    /// name of a pairing error.
    pub fn render(&self, quoted: &str) -> (text: String)
        ensures
            text@ == self@.render(quoted@),
    {
        match self {
            ErrorKind::NameValueForm(keyword) => {
                let mut text = String::from_str("#[");
                text.append(keyword.name());
                text.append(" = \"...\"] cannot be a name/value, you probably meant #[");
                text.append(keyword.name());
                text.append("(name = \"...\")]");
                text
            },
            ErrorKind::NameNotString(annotation) => {
                let mut text = String::from_str("#[");
                text.append(annotation.as_str());
                text.append("(name = ...)] must be a string");
                text
            },
            ErrorKind::SlotForm => String::from_str(
                "#[pyslot] must be of the form #[pyslot] or #[pyslot(slotname)]",
            ),
            ErrorKind::SlotArgumentCount => String::from_str(
                "#[pyslot] must be of the form #[pyslot] or #[pyslot(slotname)]",
            ),
            ErrorKind::SetterEmptyName => String::from_str(
                "A #[pyproperty(setter)] fn with a set_* name must have something after \"set_\"",
            ),
            ErrorKind::SetterNeedsName => String::from_str(
                "A #[pyproperty(setter)] fn must either have a `name` parameter or a fn name along the lines of \"set_*\"",
            ),
            ErrorKind::Duplicate => String::from_str("Duplicate #[py*] attribute on pyimpl"),
            ErrorKind::MultipleAccessors(_) => {
                let mut text = String::from_str("Multiple property accessors with name ");
                text.append(quoted);
                text
            },
            ErrorKind::MissingGetter(_) => {
                let mut text = String::from_str("Property ");
                text.append(quoted);
                text.append(" is missing a getter");
                text
            },
            ErrorKind::WithArgument => String::from_str(
                "#[pyimpl(with(...))] arguments should be paths",
            ),
            ErrorKind::UnknownDirective => String::from_str("Unknown pyimpl attribute"),
            ErrorKind::NotStructOrEnum => String::from_str(
                "#[pyclass] can only be on a struct or enum declaration",
            ),
            ErrorKind::NotStruct => String::from_str(
                "#[pystruct_sequence] can only be on a struct declaration",
            ),
        }
    }

    /// The message of the error. A pairing error shows the property name as
    /// `Debug` writes it.
    pub fn message(&self) -> (text: String)
        ensures
            text@ == self@.message(),
    {
        match self {
            ErrorKind::MultipleAccessors(name) => {
                let quoted = debug_quoted(name.as_str());
                self.render(quoted.as_str())
            },
            ErrorKind::MissingGetter(name) => {
                let quoted = debug_quoted(name.as_str());
                self.render(quoted.as_str())
            },
            _ => self.render(""),
        }
    }
}

/// An error and the source range it is reported at.
#[derive(Debug, PartialEq, Eq)]
pub struct Diagnostic {
    pub kind: ErrorKind,
    pub span: Span,
}

pub struct DiagnosticView {
    pub kind: ErrorKindView,
    pub span: Span,
}

impl View for Diagnostic {
    type V = DiagnosticView;

    open spec fn view(&self) -> DiagnosticView {
        DiagnosticView { kind: self.kind@, span: self.span }
    }
}

impl Diagnostic {
    /// The message of the diagnostic.
    pub fn message(&self) -> (text: String)
        ensures
            text@ == self@.kind.message(),
    {
        self.kind.message()
    }
}

} // verus!
