//! From gemtext straight to HTML.

use vstd::prelude::*;

use crate::gemini::error::{view_result, Error, ErrorView};
use crate::gemini::gemtext::{html_of, parse_document, Gemtext};

verus! {

/// The HTML of a gemtext document given as text, or the error of parsing it.
pub open spec fn html_of_document(text: Seq<char>) -> Result<Seq<char>, ErrorView> {
    match parse_document(text) {
        Ok(elements) => Ok(html_of(elements)),
        Err(error) => Err(error),
    }
}

/// Parses a gemtext document and renders it as HTML.
///
/// Fails exactly where [`Gemtext::new`] fails, with the same error.
pub fn gemtext_to_html(gemtext: &str) -> (r: Result<String, Error>)
    ensures
        view_result(r) == html_of_document(gemtext@),
{
    match Gemtext::new(gemtext) {
        Ok(document) => Ok(document.to_html()),
        Err(error) => Err(error),
    }
}

} // verus!
