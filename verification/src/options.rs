//! The options of one annotation: an explicit name, a setter marker.
//!
//! The nested items of an annotation are read from left to right. Each one
//! either passes, names the binding, marks it as a setter, or fails. The first
//! item that fails decides the error; where none fails, the last item that
//! names the binding decides the name.

use vstd::prelude::*;
use vstd::string::*;
use crate::diagnostic::{Diagnostic, DiagnosticView, ErrorKind, ErrorKindView, Keyword};
use crate::lift::{option_view, result_view, views};
use crate::meta::{
    Ident, IdentView, Lit, LitView, Meta, MetaNameValue, MetaNameValueView, MetaView, NestedMeta,
    NestedMetaView, Signature, SignatureView, Span, meta_to_vec,
};
use crate::text::concat3;

verus! {

/// What one nested item does to the options.
#[derive(Debug, PartialEq, Eq)]
pub enum Effect {
    /// Nothing: the item is not one that the annotation knows.
    Pass,
    /// The binding is exposed under this name.
    Name(String),
    /// The binding is a setter.
    Setter,
    /// The annotation is rejected.
    Fail(Diagnostic),
}

pub enum EffectView {
    Pass,
    Name(Seq<char>),
    Setter,
    Fail(DiagnosticView),
}

impl View for Effect {
    type V = EffectView;

    open spec fn view(&self) -> EffectView {
        match self {
            Effect::Pass => EffectView::Pass,
            Effect::Name(name) => EffectView::Name(name@),
            Effect::Setter => EffectView::Setter,
            Effect::Fail(diagnostic) => EffectView::Fail(diagnostic@),
        }
    }
}

/// The options that an annotation was found to hold.
#[derive(Debug, PartialEq, Eq)]
pub struct OptionBag {
    pub name: Option<String>,
    pub setter: bool,
}

pub struct OptionBagView {
    pub name: Option<Seq<char>>,
    pub setter: bool,
}

impl View for OptionBag {
    type V = OptionBagView;

    open spec fn view(&self) -> OptionBagView {
        OptionBagView { name: option_view(self.name), setter: self.setter }
    }
}

/// The name that the magic marker gives to the function `ident`.
pub open spec fn magic_name(ident: Seq<char>) -> Seq<char> {
    "__"@ + ident + "__"@
}

/// What `name = value` does in the annotation `annotation`: it gives the name
/// if the value is a string, and fails if it is not, with an error that is
/// reported at `span`. Any other key passes.
pub open spec fn name_effect(annotation: Seq<char>, span: Span, pair: MetaNameValueView) -> EffectView {
    if pair.path.is_ident("name"@) {
        match pair.lit {
            LitView::Str(text, _) => EffectView::Name(text),
            LitView::Other(_) => EffectView::Fail(
                DiagnosticView { kind: ErrorKindView::NameNotString(annotation), span },
            ),
        }
    } else {
        EffectView::Pass
    }
}

/// What one nested item does in an annotation with this keyword, on the
/// function `ident`: `name = value` names the binding or fails, `magic` names
/// a method, `setter` marks a property. Every other item passes: a key or a
/// marker that the annotation does not know is ignored. An item that fails is
/// reported at the function's identifier.
pub open spec fn effect(keyword: Keyword, ident: IdentView, arg: NestedMetaView) -> EffectView {
    match arg {
        NestedMetaView::Meta(MetaView::NameValue(pair)) => name_effect(
            keyword.spec_name(),
            ident.span,
            pair,
        ),
        NestedMetaView::Meta(MetaView::Path(path)) => match keyword {
            Keyword::Method => if path.is_ident("magic"@) {
                EffectView::Name(magic_name(ident.name))
            } else {
                EffectView::Pass
            },
            Keyword::Property => if path.is_ident("setter"@) {
                EffectView::Setter
            } else {
                EffectView::Pass
            },
            _ => EffectView::Pass,
        },
        _ => EffectView::Pass,
    }
}

/// The effects of the nested items, in order.
pub open spec fn effects(keyword: Keyword, ident: IdentView, args: Seq<NestedMetaView>) -> Seq<
    EffectView,
> {
    Seq::new(args.len(), |i: int| effect(keyword, ident, args[i]))
}

/// The error of the first effect that fails.
pub open spec fn first_failure(effects: Seq<EffectView>) -> Option<DiagnosticView>
    decreases effects.len(),
{
    if effects.len() == 0 {
        None
    } else {
        match effects.first() {
            EffectView::Fail(diagnostic) => Some(diagnostic),
            _ => first_failure(effects.drop_first()),
        }
    }
}

/// The name of the last effect that gives one.
pub open spec fn last_name(effects: Seq<EffectView>) -> Option<Seq<char>>
    decreases effects.len(),
{
    if effects.len() == 0 {
        None
    } else {
        match effects.last() {
            EffectView::Name(name) => Some(name),
            _ => last_name(effects.drop_last()),
        }
    }
}

/// Whether some effect marks a setter.
pub open spec fn has_setter(effects: Seq<EffectView>) -> bool {
    exists|i: int| 0 <= i < effects.len() && #[trigger] effects[i] is Setter
}

/// The options of the annotation `meta` with this keyword on the function of
/// `sig`, or the reason why the annotation is rejected. The form
/// `keyword = value` is reported at the annotation.
pub open spec fn options(keyword: Keyword, sig: SignatureView, meta: MetaView) -> Result<
    OptionBagView,
    DiagnosticView,
> {
    if meta is NameValue {
        Err(DiagnosticView { kind: ErrorKindView::NameValueForm(keyword), span: meta.span() })
    } else {
        let all = effects(keyword, sig.ident, meta.nested());
        match first_failure(all) {
            Some(diagnostic) => Err(diagnostic),
            None => Ok(OptionBagView { name: last_name(all), setter: has_setter(all) }),
        }
    }
}

/// What `name = value` does in the annotation `annotation`.
pub fn name_effect_of(annotation: &str, span: Span, pair: &MetaNameValue) -> (found: Effect)
    ensures
        found@ == name_effect(annotation@, span, pair@),
{
    if pair.path.is_ident("name") {
        match &pair.lit {
            Lit::Str(text) => Effect::Name(text.value.clone()),
            Lit::Other(_) => Effect::Fail(
                Diagnostic { kind: ErrorKind::NameNotString(String::from_str(annotation)), span },
            ),
        }
    } else {
        Effect::Pass
    }
}

/// What one nested item does in an annotation with this keyword, on the
/// function `ident`.
pub fn effect_of(keyword: Keyword, ident: &Ident, arg: &NestedMeta) -> (found: Effect)
    ensures
        found@ == effect(keyword, ident@, arg@),
{
    match arg {
        NestedMeta::Meta(Meta::NameValue(pair)) => name_effect_of(
            keyword.name(),
            ident.span,
            pair,
        ),
        NestedMeta::Meta(Meta::Path(path)) => match keyword {
            Keyword::Method => if path.is_ident("magic") {
                Effect::Name(concat3("__", ident.name.as_str(), "__"))
            } else {
                Effect::Pass
            },
            Keyword::Property => if path.is_ident("setter") {
                Effect::Setter
            } else {
                Effect::Pass
            },
            _ => Effect::Pass,
        },
        _ => Effect::Pass,
    }
}

/// Reads the options of one annotation.
pub fn parse_options(keyword: Keyword, sig: &Signature, meta: Meta) -> (bag: Result<
    OptionBag,
    Diagnostic,
>)
    ensures
        result_view(bag) == options(keyword, sig@, meta@),
{
    let span = meta.span();
    let ghost whole = meta@;
    let nesteds = match meta_to_vec(meta) {
        Ok(nesteds) => nesteds,
        Err(_) => {
            return Err(Diagnostic { kind: ErrorKind::NameValueForm(keyword), span });
        },
    };
    let ghost all = effects(keyword, sig@.ident, views(nesteds@));
    let mut name: Option<String> = None;
    let mut setter = false;
    let mut i: usize = 0;
    assert(all.skip(0) =~= all);
    while i < nesteds.len()
        invariant
            i <= nesteds@.len(),
            all == effects(keyword, sig@.ident, views(nesteds@)),
            whole == meta@,
            !(whole is NameValue),
            views(nesteds@) == whole.nested(),
            first_failure(all) == first_failure(all.skip(i as int)),
            option_view(name) == last_name(all.take(i as int)),
            setter == has_setter(all.take(i as int)),
        decreases nesteds@.len() - i,
    {
        let found = effect_of(keyword, &sig.ident, &nesteds[i]);
        proof {
            assert(all[i as int] == found@);
            assert(all.skip(i as int).first() == all[i as int]);
            assert(all.skip(i as int).drop_first() =~= all.skip(i + 1));
            assert(all.take(i + 1).drop_last() =~= all.take(i as int));
            assert(all.take(i + 1).last() == all[i as int]);
            lemma_has_setter_step(all, i as int);
        }
        match found {
            Effect::Pass => {},
            Effect::Name(given) => {
                name = Some(given);
            },
            Effect::Setter => {
                setter = true;
            },
            Effect::Fail(diagnostic) => {
                return Err(diagnostic);
            },
        }
        i += 1;
    }
    assert(all.take(i as int) =~= all);
    Ok(OptionBag { name, setter })
}

/// A prefix that grows by one effect holds a setter marker if it held one
/// before or the new effect is one.
proof fn lemma_has_setter_step(all: Seq<EffectView>, i: int)
    requires
        0 <= i < all.len(),
    ensures
        has_setter(all.take(i + 1)) == (has_setter(all.take(i)) || all[i] is Setter),
{
    let shorter = all.take(i);
    let longer = all.take(i + 1);
    if has_setter(longer) {
        let j = choose|j: int| 0 <= j < longer.len() && #[trigger] longer[j] is Setter;
        if j < i {
            assert(shorter[j] is Setter);
        }
    }
    if has_setter(shorter) {
        let j = choose|j: int| 0 <= j < shorter.len() && #[trigger] shorter[j] is Setter;
        assert(longer[j] is Setter);
    }
    if all[i] is Setter {
        assert(longer[i] is Setter);
    }
}

} // verus!
