//! Markdown rendering, done by `pulldown_cmark`.

use vstd::prelude::*;

use pulldown_cmark::{html, Options, Parser};

verus! {

/// The HTML that `pulldown_cmark` renders from the markdown text `md`, with
/// strikethrough and smart punctuation switched on.
pub uninterp spec fn markdown_html(md: Seq<char>) -> Seq<char>;

/// Renders markdown to HTML with `pulldown_cmark::Parser::new_ext` (options
/// `ENABLE_STRIKETHROUGH | ENABLE_SMART_PUNCTUATION`) and
/// `pulldown_cmark::html::push_html` into an empty string.
///
/// Trusted: the result is claimed to be `markdown_html` of the input, that is,
/// a function of the markdown text alone; nothing more is said of it.
#[verifier::external_body]
pub(crate) fn md_to_html(md: &str) -> (out: String)
    ensures
        out@ == markdown_html(md@),
{
    let opts = Options::ENABLE_STRIKETHROUGH | Options::ENABLE_SMART_PUNCTUATION;
    let parser = Parser::new_ext(md, opts);
    let mut out = String::new();
    html::push_html(&mut out, parser);
    out
}

} // verus!
