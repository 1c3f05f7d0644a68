//! Markdown rendering: a thin contract over a CommonMark-to-HTML conversion.
//! The produced HTML is a function of the source text alone, named
//! `html_of`; callers embed it verbatim, without further escaping.

use vstd::prelude::*;

verus! {

/// The HTML that the CommonMark conversion produces for `md`.
pub uninterp spec fn html_of(md: Seq<char>) -> Seq<char>;

/// Converts Markdown body text into HTML.
///
/// Relies on `pulldown_cmark::Parser::new` and `pulldown_cmark::html::push_html`:
/// a CommonMark-compliant conversion (headings, paragraphs, emphasis, links,
/// images, lists, code spans and blocks, blockquotes), whose output depends on
/// the input text alone.
#[verifier::external_body]
pub fn render_markdown(md: &str) -> (r: String)
    ensures
        r@ == html_of(md@),
{
    let parser = pulldown_cmark::Parser::new(md);
    let mut out = String::new();
    pulldown_cmark::html::push_html(&mut out, parser);
    out
}

/// Rendering is deterministic: two renderings of the same source text are the
/// same HTML.
pub proof fn lemma_render_deterministic(md: Seq<char>, r1: Seq<char>, r2: Seq<char>)
    requires
        r1 == html_of(md),
        r2 == html_of(md),
    ensures
        r1 == r2,
{
}

} // verus!
