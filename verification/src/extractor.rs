//! Extraction of the readable article from a fetched document.

use crate::item::ProcessedArticle;
use vstd::prelude::*;

verus! {

/// What the readability algorithm of `dom_smoothie` makes of a document: the
/// title and the content markup of the article it finds, or nothing. `url` is
/// the document's address, `max_elements` the largest number of elements that
/// the algorithm agrees to parse, where 0 stands for any number.
pub uninterp spec fn readable_article(
    html: Seq<char>,
    url: Option<Seq<char>>,
    max_elements: usize,
) -> Option<(Seq<char>, Seq<char>)>;

/// The largest document, counted in elements, that is handed to extraction.
pub const MAX_ELEMENTS: usize = 9000;

/// The title and body of an article, as a pair of texts.
pub open spec fn article_pair(article: Option<ProcessedArticle>) -> Option<(Seq<char>, Seq<char>)> {
    match article {
        Some(found) => Some((found.title@, found.body_html@)),
        None => None,
    }
}

/// Runs `dom_smoothie::Readability::new` with the given limit and the other
/// settings at their defaults, then `parse`, and keeps the title and the
/// content of the article. Every error of the two calls gives `None`: an
/// address that is not absolute, a document over the limit, a document
/// without readable content. The algorithm orders its candidates by score
/// and breaks ties by document order, so its result is a function of the
/// arguments; the contract names it and claims nothing else of it.
#[verifier::external_body]
fn readability(html: &str, url: Option<&str>, max_elements: usize) -> (article: Option<
    ProcessedArticle,
>)
    ensures
        article_pair(article) == readable_article(html@, url.deep_view(), max_elements),
{
    let config = dom_smoothie::Config { max_elements_to_parse: max_elements, ..Default::default() };
    let mut readability = dom_smoothie::Readability::new(html, url, Some(config)).ok()?;
    let article = readability.parse().ok()?;
    Some(ProcessedArticle { title: article.title, body_html: article.content.to_string() })
}

/// Extracts the readable article of a document. `url`, where given, must be
/// the document's absolute address; relative links are resolved against it.
pub fn extract_article(html: &str, url: Option<&str>) -> (article: Option<ProcessedArticle>)
    ensures
        article_pair(article) == readable_article(html@, url.deep_view(), MAX_ELEMENTS),
{
    readability(html, url, MAX_ELEMENTS)
}

} // verus!
