//! Parsed documents and selector-based extraction.
//!
//! A fetched body becomes a [`Document`], and downstream consumers read it
//! through CSS selectors. The selector engine itself is an outside
//! capability: what it returns for a document and a selector is a function
//! of the two alone, named by the uninterpreted functions [`inner_texts`]
//! and [`attr_texts`], and every contract here is exact over those names.
//! Matched elements come back in document order; a selector that matches
//! nothing yields an empty list, not an error; an invalid selector is an
//! error on every use.

use vstd::prelude::*;

use crate::err::{ErrV, HTTPError};
use crate::http::{GetResponse, bytes_to_str};

verus! {

/// Whether the selector engine accepts `sel` as a CSS selector.
pub uninterp spec fn selector_valid(sel: Seq<char>) -> bool;

/// The inner content of each element of the document `doc` matched by the
/// valid selector `sel`, in document order.
pub uninterp spec fn inner_texts(doc: Seq<char>, sel: Seq<char>) -> Seq<Seq<char>>;

/// The value of attribute `attr` on each element of `doc` matched by the
/// valid selector `sel`, in document order, with an empty string for an
/// element that lacks the attribute.
pub uninterp spec fn attr_texts(doc: Seq<char>, sel: Seq<char>, attr: Seq<char>) -> Seq<Seq<char>>;

/// Relies on `scraper::Selector::parse` (`Ok` exactly on a valid selector,
/// decided by the selector text alone) and on `scraper::Html::parse_document`
/// plus `Html::select` / `ElementRef::inner_html`: the matched elements'
/// inner content, in document order, a function of document and selector
/// alone.
#[verifier::external_body]
fn select_inner(doc: &str, sel: &str) -> (r: Option<Vec<String>>)
    ensures
        r is Some <==> selector_valid(sel@),
        r matches Some(v) ==> v.deep_view() == inner_texts(doc@, sel@),
{
    match scraper::Selector::parse(sel) {
        Ok(s) => Some(
            scraper::Html::parse_document(doc).select(&s).map(|e| e.inner_html()).collect(),
        ),
        Err(_) => None,
    }
}

/// Relies on `scraper::Selector::parse` and on `scraper::Html::parse_document`
/// plus `Html::select` / `ElementRef::attr`: the matched elements' value for
/// one attribute, in document order, empty where the element lacks it, a
/// function of document, selector and attribute name alone.
#[verifier::external_body]
fn select_attr(doc: &str, sel: &str, attr: &str) -> (r: Option<Vec<String>>)
    ensures
        r is Some <==> selector_valid(sel@),
        r matches Some(v) ==> v.deep_view() == attr_texts(doc@, sel@, attr@),
{
    match scraper::Selector::parse(sel) {
        Ok(s) => Some(
            scraper::Html::parse_document(doc).select(&s).map(
                |e| e.attr(attr).unwrap_or("").to_string(),
            ).collect(),
        ),
        Err(_) => None,
    }
}

/// An immutable parsed-markup handle: one successful fetch's body, held as
/// text and read through selectors.
#[derive(Debug)]
pub struct Document {
    text: String,
}

impl View for Document {
    type V = Seq<char>;

    closed spec fn view(&self) -> Seq<char> {
        self.text@
    }
}

impl Document {
    /// A document over the given markup text.
    pub fn new(content: &str) -> (d: Document)
        ensures
            d@ == content@,
    {
        Document { text: content.to_owned() }
    }

    /// For every selector in `selectors`, the matched elements' inner
    /// content, one list per selector, in the order of `selectors`.
    ///
    /// Fails with `SelectorError` carrying the first invalid selector, and
    /// succeeds exactly when every selector is valid. Whitespace is the
    /// caller's to trim.
    pub fn get_contents(&self, selectors: &Vec<String>) -> (r: Result<
        Vec<Vec<String>>,
        HTTPError,
    >)
        ensures
            r is Ok <==> (forall|i: int|
                0 <= i < selectors@.len() ==> selector_valid(#[trigger] selectors@[i]@)),
            r matches Ok(v) ==> v@.len() == selectors@.len() && (forall|i: int|
                0 <= i < selectors@.len() ==> (#[trigger] v@[i]).deep_view() == inner_texts(
                    self@,
                    selectors@[i]@,
                )),
            r matches Err(e) ==> exists|j: int|
                0 <= j < selectors@.len() && !selector_valid(#[trigger] selectors@[j]@) && e@
                    == ErrV::Selector(selectors@[j]@) && (forall|k: int|
                    0 <= k < j ==> selector_valid(#[trigger] selectors@[k]@)),
    {
        let mut r: Vec<Vec<String>> = Vec::new();
        let mut i: usize = 0;
        while i < selectors.len()
            invariant
                0 <= i <= selectors@.len(),
                r@.len() == i,
                forall|k: int| 0 <= k < i ==> selector_valid(#[trigger] selectors@[k]@),
                forall|k: int|
                    0 <= k < i ==> (#[trigger] r@[k]).deep_view() == inner_texts(
                        self@,
                        selectors@[k]@,
                    ),
            decreases selectors@.len() - i,
        {
            match select_inner(self.text.as_str(), selectors[i].as_str()) {
                Some(v) => {
                    r.push(v);
                },
                None => {
                    return Err(HTTPError::SelectorError(selectors[i].clone()));
                },
            }
            i = i + 1;
        }
        Ok(r)
    }

    /// The matched elements' inner content for one selector.
    pub fn get_content(&self, selector: &str) -> (r: Result<Vec<String>, HTTPError>)
        ensures
            r is Ok <==> selector_valid(selector@),
            r matches Ok(v) ==> v.deep_view() == inner_texts(self@, selector@),
            r matches Err(e) ==> e@ == ErrV::Selector(selector@),
    {
        match select_inner(self.text.as_str(), selector) {
            Some(v) => Ok(v),
            None => Err(HTTPError::SelectorError(selector.to_owned())),
        }
    }

    /// The matched elements' value for one attribute, one entry per matched
    /// element, empty where the element lacks the attribute.
    pub fn get_attr(&self, selector: &str, attr: &str) -> (r: Result<Vec<String>, HTTPError>)
        ensures
            r is Ok <==> selector_valid(selector@),
            r matches Ok(v) ==> v.deep_view() == attr_texts(self@, selector@, attr@),
            r matches Err(e) ==> e@ == ErrV::Selector(selector@),
    {
        match select_attr(self.text.as_str(), selector, attr) {
            Some(v) => Ok(v),
            None => Err(HTTPError::SelectorError(selector.to_owned())),
        }
    }
}

/// Parses a fetched response's body into a document.
///
/// Succeeds exactly when the body is valid UTF-8; otherwise the step fails
/// with `EncodingError`.
pub fn parse_response(r: GetResponse) -> (d: Result<Document, HTTPError>)
    ensures
        d is Ok <==> vstd::utf8::valid_utf8(r.body@),
        d matches Ok(doc) ==> doc@ == vstd::utf8::decode_utf8(r.body@),
        d matches Err(e) ==> e@ matches ErrV::Encoding(_),
{
    let content = bytes_to_str(r.body)?;
    Ok(Document { text: content })
}

} // verus!
