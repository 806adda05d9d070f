//! Markdown-to-HTML conversion for the markdown widget.

use vstd::prelude::*;

verus! {

/// The HTML rendering of the given markdown text, with tables, footnotes,
/// strikethrough, task lists and smart punctuation enabled. The input text
/// alone determines the result.
pub uninterp spec fn html_of(markdown: Seq<char>) -> Seq<char>;

/// Relies on pulldown_cmark's `Parser::new_ext` and `html::push_html`: the
/// parse is a pure function of the text and options, and `push_html` only
/// appends HTML for the events produced, so an empty input yields an empty
/// result.
#[verifier::external_body]
fn markdown_to_html(content: &String) -> (r: String)
    ensures
        r@ == html_of(content@),
        content@.len() == 0 ==> r@.len() == 0,
{
    let mut options = pulldown_cmark::Options::empty();
    options.insert(pulldown_cmark::Options::ENABLE_TABLES);
    options.insert(pulldown_cmark::Options::ENABLE_FOOTNOTES);
    options.insert(pulldown_cmark::Options::ENABLE_STRIKETHROUGH);
    options.insert(pulldown_cmark::Options::ENABLE_TASKLISTS);
    options.insert(pulldown_cmark::Options::ENABLE_SMART_PUNCTUATION);
    let parser = pulldown_cmark::Parser::new_ext(content, options);
    let mut html_output = String::new();
    pulldown_cmark::html::push_html(&mut html_output, parser);
    html_output
}

/// Converts a markdown string to the HTML the markdown widget renders.
pub fn string_to_html(content: String) -> (r: String)
    ensures
        r@ == html_of(content@),
        content@.len() == 0 ==> r@.len() == 0,
{
    markdown_to_html(&content)
}

} // verus!
