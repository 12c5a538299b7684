//! What a web page says of itself.

use vstd::prelude::*;

verus! {

/// Calls `trpl::Html::parse` on `source`, `select_first` with `selector` on
/// the document, and `inner_html` on the element found; `None` where no
/// element matches. Nothing is claimed of the text that comes back: the
/// parser keeps the attributes of an element in a hash map that each
/// process seeds anew, and `inner_html` writes them in the order in which
/// that map is walked, so two calls on one document may differ.
/// `select_first` panics on a selector that is not valid CSS, so only the
/// selector `title` is admitted.
#[verifier::external_body]
fn first_inner_html(source: &str, selector: &str) -> (content: Option<String>)
    requires
        selector@ == "title"@,
{
    trpl::Html::parse(source).select_first(selector).map(|element| element.inner_html())
}

/// The title of the page whose text is `response_text`: the content of its
/// first `title` element as the HTML parser of `trpl` gives it, if the page
/// has such an element. The parser decides what comes back; where the
/// title holds elements with several attributes, their order is not fixed.
pub fn page_title(response_text: &str) -> (title: Option<String>) {
    first_inner_html(response_text, "title")
}

} // verus!
