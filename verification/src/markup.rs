//! The boundary to the HTML engine: parsed documents, compiled selectors and
//! the elements that a selector matches.
//!
//! The engine is called, never modelled. Each call below is believed, not
//! proved, to return a value that depends on its arguments alone; the spec
//! functions without a body give those values a name, so that the contracts
//! of the extraction can speak of them. To the verifier a document is the
//! tree that was parsed and an element reference is a place in that tree:
//! where in memory a tree lies is no part of either.

use scraper::error::SelectorErrorKind;
use scraper::{ElementRef, Html, Selector};
use vstd::prelude::*;

verus! {

/// A parsed document of the engine. Opaque to the verifier.
#[verifier::external_type_specification]
#[verifier::external_body]
pub struct ExHtml(Html);

/// A compiled selector group of the engine. Opaque to the verifier.
#[verifier::external_type_specification]
#[verifier::external_body]
pub struct ExSelector(Selector);

/// A reference to one element of a parsed document. Opaque to the verifier.
#[verifier::external_type_specification]
#[verifier::external_body]
pub struct ExElementRef<'a>(ElementRef<'a>);

/// The engine's reason for refusing a pattern. Opaque to the verifier.
#[verifier::external_type_specification]
#[verifier::external_body]
pub struct ExSelectorErrorKind(SelectorErrorKind);

/// The selector that `Selector::parse` compiles from a pattern, or nothing
/// where it refuses the pattern.
pub uninterp spec fn compiled_selector(pattern: Seq<char>) -> Option<Selector>;

/// The document that `Html::parse_document` builds from markup.
pub uninterp spec fn parsed_document(markup: Seq<char>) -> Html;

/// The elements of a document that `Html::select` yields for a selector, in
/// the order in which it yields them.
pub uninterp spec fn document_matches(document: Html, selector: Selector) -> Seq<
    ElementRef<'static>,
>;

/// The descendants of an element that `ElementRef::select` yields for a
/// selector, in the order in which it yields them. The element itself is not
/// among them.
pub uninterp spec fn element_matches(scope: ElementRef<'static>, selector: Selector) -> Seq<
    ElementRef<'static>,
>;

/// The serialized children of an element, as `ElementRef::inner_html`
/// returns them.
pub uninterp spec fn element_inner_html(element: ElementRef<'static>) -> Seq<char>;

/// Calls `Selector::parse`. Believed, not proved: whether the pattern is
/// accepted, and the selector that it compiles to, depend on the pattern
/// alone.
#[verifier::external_body]
pub(crate) fn compile_selector(pattern: &str) -> (result: Result<Selector, SelectorErrorKind>)
    ensures
        result is Ok <==> compiled_selector(pattern@) is Some,
        result matches Ok(selector) ==> compiled_selector(pattern@) == Some(selector),
{
    Selector::parse(pattern)
}

/// Calls `Html::parse_document`, which takes any text and never fails.
/// Believed, not proved: the document depends on the markup alone.
#[verifier::external_body]
pub(crate) fn parse_document(markup: &str) -> (document: Html)
    ensures
        document == parsed_document(markup@),
{
    Html::parse_document(markup)
}

/// Calls `Html::select` and collects the elements that its iterator yields.
/// Believed, not proved: they depend on the document and the selector alone.
#[verifier::external_body]
pub(crate) fn select_in_document<'a>(document: &'a Html, selector: &Selector) -> (found: Vec<
    ElementRef<'a>,
>)
    ensures
        found@ == document_matches(*document, *selector),
{
    document.select(selector).collect()
}

/// Calls `ElementRef::select` and collects the elements that its iterator
/// yields. Believed, not proved: they depend on the element and the selector
/// alone.
#[verifier::external_body]
pub(crate) fn select_in_element<'a>(scope: &ElementRef<'a>, selector: &Selector) -> (found: Vec<
    ElementRef<'a>,
>)
    ensures
        found@ == element_matches(*scope, *selector),
{
    scope.select(selector).collect()
}

/// Calls `ElementRef::inner_html`. Believed, not proved: the text depends on
/// the element alone.
#[verifier::external_body]
pub(crate) fn inner_html(element: &ElementRef<'_>) -> (html: String)
    ensures
        html@ == element_inner_html(*element),
{
    element.inner_html()
}

} // verus!
