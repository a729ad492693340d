//! The boundary to the HTML engine.
//!
//! Documents, selectors and elements are values of the `scraper` crate.
//! What the engine makes of a text, which elements it finds for a selector
//! and what it reads out of an element each have a name here and no
//! definition. All that is claimed of the engine is that each of these
//! depends on what is asked about and on nothing else, so that the contracts
//! of the library can say which question was put.

use scraper::error::SelectorErrorKind;
use scraper::{ElementRef, Html, Selector};
use vstd::prelude::*;

verus! {

/// A parsed document of `scraper`.
#[verifier::external_type_specification]
#[verifier::external_body]
pub struct ExHtml(Html);

/// A compiled CSS selector group of `scraper`.
#[verifier::external_type_specification]
#[verifier::external_body]
pub struct ExSelector(Selector);

/// A reference to one element of a parsed document.
#[verifier::external_type_specification]
#[verifier::external_body]
pub struct ExElementRef<'a>(ElementRef<'a>);

/// Why `scraper` did not accept a selector.
#[verifier::external_type_specification]
#[verifier::external_body]
pub struct ExSelectorErrorKind(SelectorErrorKind);

/// The text of an optional string.
pub open spec fn text_of(text: Option<String>) -> Option<Seq<char>> {
    match text {
        Some(text) => Some(text@),
        None => None,
    }
}

/// The texts of a list of strings.
pub open spec fn texts(list: Seq<String>) -> Seq<Seq<char>> {
    Seq::new(list.len(), |i: int| list[i]@)
}

/// The document that the engine makes of a text.
pub uninterp spec fn parsed(text: Seq<char>) -> Html;

/// The selector that the engine makes of a text, where it accepts the text
/// as a selector group.
pub uninterp spec fn compiled(css: Seq<char>) -> Option<Selector>;

/// The elements of a document that match a selector, in the order in which
/// the engine yields them.
pub uninterp spec fn matches_in_document(document: Html, selector: Selector) -> Seq<
    ElementRef<'static>,
>;

/// The elements below an element that match a selector, in the order in
/// which the engine yields them.
pub uninterp spec fn matches_in_element(element: ElementRef, selector: Selector) -> Seq<
    ElementRef,
>;

/// The value that an element has for an attribute, if it has the attribute.
pub uninterp spec fn attribute_value(element: ElementRef, name: Seq<char>) -> Option<Seq<char>>;

/// The texts that stand in and below an element, in the order in which the
/// engine yields them.
pub uninterp spec fn text_nodes(element: ElementRef) -> Seq<Seq<char>>;

/// What stands inside an element, written out as HTML.
pub uninterp spec fn inner_html_text(element: ElementRef) -> Seq<char>;

/// The longest text, counted in chars, that is handed to the engine.
///
/// The engine keeps text in buffers that hold less than four gibibytes and
/// that it grows to the next power of two, and it fails where one would
/// have to grow beyond two gibibytes. No char of a text takes more than
/// four bytes in such a buffer, so a text of this length leaves every
/// buffer within one gibibyte.
pub const MAX_DOCUMENT_CHARS: usize = 0x1000_0000;

/// `Html::parse_document` parses a text as a whole document. It takes every
/// text of at most `MAX_DOCUMENT_CHARS` chars, and what it makes of a text
/// depends on the text alone; what that is, is not stated. Longer texts are
/// left out: on some of them the engine's buffers overflow and the call does
/// not return.
pub assume_specification[ Html::parse_document ](document: &str) -> (html: Html)
    requires
        document@.len() <= MAX_DOCUMENT_CHARS,
    ensures
        html == parsed(document@),
;

/// `Selector::parse` compiles a selector group, or says why it cannot.
/// Whether it can, and what it then gives, depends on the text alone; which
/// texts it accepts is not stated.
pub assume_specification[ Selector::parse ](selectors: &str) -> (made: Result<
    Selector,
    SelectorErrorKind,
>)
    ensures
        match made {
            Ok(selector) => compiled(selectors@) == Some(selector),
            Err(_) => compiled(selectors@).is_none(),
        },
;

/// `ElementRef::attr` looks an attribute up by name. What it finds depends
/// on the element and the name alone.
pub assume_specification<'a>[ ElementRef::<'a>::attr ](
    element: &ElementRef<'a>,
    attr: &str,
) -> (value: Option<&'a str>)
    ensures
        match value {
            Some(text) => attribute_value(*element, attr@) == Some(text@),
            None => attribute_value(*element, attr@).is_none(),
        },
;

/// `ElementRef::inner_html` serialises what stands inside the element. The
/// text depends on the element alone.
pub assume_specification<'a>[ ElementRef::<'a>::inner_html ](element: &ElementRef<'a>) -> (text:
    String)
    ensures
        text@ == inner_html_text(*element),
;

/// `Html::select`, with the elements that its iterator yields collected in
/// the order in which they come. Which they are depends on the document and
/// the selector alone.
#[verifier::external_body]
pub(crate) fn select_in_document<'a>(document: &'a Html, selector: &Selector) -> (found: Vec<
    ElementRef<'a>,
>)
    ensures
        found@ == matches_in_document(*document, *selector),
{
    document.select(selector).collect()
}

/// `ElementRef::select`, with the descendants that its iterator yields
/// collected in the order in which they come. Which they are depends on the
/// element and the selector alone.
#[verifier::external_body]
pub(crate) fn select_in_element<'a>(element: &ElementRef<'a>, selector: &Selector) -> (found: Vec<
    ElementRef<'a>,
>)
    ensures
        found@ == matches_in_element(*element, *selector),
{
    element.select(selector).collect()
}

/// `ElementRef::text`, with the text nodes that its iterator yields collected
/// in the order in which they come. Which they are depends on the element
/// alone.
#[verifier::external_body]
pub(crate) fn texts_of(element: &ElementRef) -> (found: Vec<String>)
    ensures
        texts(found@) == text_nodes(*element),
{
    element.text().map(String::from).collect()
}

/// Parses a text as a document; `None` where the text is longer than what
/// is handed to the engine.
pub(crate) fn read_document(text: &str) -> (document: Option<Html>)
    ensures
        document == if text@.len() <= MAX_DOCUMENT_CHARS {
            Some(parsed(text@))
        } else {
            None
        },
{
    if text.unicode_len() <= MAX_DOCUMENT_CHARS {
        Some(Html::parse_document(text))
    } else {
        None
    }
}

/// Compiles a selector; `None` where the engine refuses it.
pub(crate) fn compile(css: &str) -> (made: Option<Selector>)
    ensures
        made == compiled(css@),
{
    match Selector::parse(css) {
        Ok(selector) => Some(selector),
        Err(_) => None,
    }
}

/// The value of an attribute as an owned string: what the element has for
/// the name, or `None` where it has no such attribute.
pub(crate) fn attribute(element: &ElementRef, name: &str) -> (value: Option<String>)
    ensures
        text_of(value) == attribute_value(*element, name@),
{
    match element.attr(name) {
        Some(text) => Some(String::from_str(text)),
        None => None,
    }
}

} // verus!
