//! Summaries: the markup of a summary written in Markdown, and the article
//! body that presents it with its source.

use crate::text::{escape_html, escaped};
use vstd::prelude::*;
use vstd::string::*;

verus! {

/// The markup that `pulldown_cmark` renders for a Markdown text when
/// strikethrough, tables and task lists are switched on.
pub uninterp spec fn markdown_html(input: Seq<char>) -> Seq<char>;

/// Renders Markdown with `pulldown_cmark::Parser::new_ext` and
/// `pulldown_cmark::html::push_html`, with the strikethrough, table and task
/// list extensions. The rendering depends on the text alone; the contract
/// names it.
#[verifier::external_body]
pub(crate) fn markdown_to_html(input: &str) -> (out: String)
    ensures
        out@ == markdown_html(input@),
{
    let mut options = pulldown_cmark::Options::empty();
    options.insert(pulldown_cmark::Options::ENABLE_STRIKETHROUGH);
    options.insert(pulldown_cmark::Options::ENABLE_TABLES);
    options.insert(pulldown_cmark::Options::ENABLE_TASKLISTS);
    let mut out = String::new();
    pulldown_cmark::html::push_html(&mut out, pulldown_cmark::Parser::new_ext(input, options));
    out
}

/// The line that attributes a summary to its source, the URL escaped.
pub open spec fn attribution_line(url: Seq<char>) -> Seq<char> {
    "<p class=\"article-source\">Source: <a href=\""@ + escaped(url) + "\">"@ + escaped(url)
        + "</a></p>\n"@
}

/// The body of a summarised article: the attribution line, then the given
/// markup unchanged.
pub open spec fn summary_body_text(url: Seq<char>, rendered: Seq<char>) -> Seq<char> {
    attribution_line(url) + rendered
}

/// Puts the attribution line in front of rendered summary markup.
pub fn attributed_body(url: &str, rendered: &str) -> (body: String)
    ensures
        body@ == summary_body_text(url@, rendered@),
{
    let safe_url = escape_html(url);
    let mut body = String::from_str("<p class=\"article-source\">Source: <a href=\"");
    body.append(safe_url.as_str());
    body.append("\">");
    body.append(safe_url.as_str());
    body.append("</a></p>\n");
    body.append(rendered);
    body
}

/// Turns a summary written in Markdown into an article body: rendered to
/// markup, with the attribution line in front.
pub fn summary_body(url: &str, markdown: &str) -> (body: String)
    ensures
        body@ == summary_body_text(url@, markdown_html(markdown@)),
{
    let rendered = markdown_to_html(markdown);
    attributed_body(url, rendered.as_str())
}

} // verus!
