//! Deduplicated aggregation of articles into one paginated document.
//!
//! Content comes from plain addresses, from the feeds of a subscription list
//! or from a watch-later queue. Every item is taken through normalise, fetch,
//! extract and, where asked for, summarise; what succeeds is bound into one
//! document with a cover and a table of contents; and a ledger of delivered
//! identifiers keeps an item from being delivered twice.
//!
//! The library decides and composes; it does not touch the network, the
//! file system or other programs. Where such work is due, a state machine
//! says so and takes the result back as an event:
//!
//! - [`feeds`] and [`queue`] turn a source into candidates;
//! - [`processor`] takes one candidate through its stages;
//! - [`ledger`] holds what a run has seen and decides with the durable store's
//!   answers;
//! - [`run`] drives the candidates, the ledger, the limit and the counters,
//!   and [`delivery`] states what a whole run delivers;
//! - [`bundle`] composes the document;
//! - [`fetcher`], [`extractor`], [`markdown`], [`xhtml`], [`location`] and
//!   [`text`] hold the parts that these are made of.
//!
//! Every function is verified against its contract. Six calls into code
//! that is not verified are believed, not proved: [`fetcher::normalize_url`],
//! the private calls behind [`extractor::extract_article`],
//! [`markdown::summary_body`] and [`feeds::load_opml_feed_urls`], and in
//! [`text`] the appending of one character and the test for white space. Each
//! says in its documentation what is taken on trust.

use crate::extractor::{article_pair, extract_article, readable_article, MAX_ELEMENTS};
use crate::fetcher::{
    document_of, fetched_document, normalize_url, parsed_url, FetchReply, FetchReplyView,
};
use crate::item::{fetch_error_text, ProcessedArticle};
use crate::text::{escape_html, escaped};
use crate::xhtml::{page_markup, wrap};
use vstd::prelude::*;
use vstd::string::*;

pub mod bundle;
pub mod delivery;
pub mod extractor;
pub mod feeds;
pub mod fetcher;
pub mod item;
pub mod ledger;
pub mod location;
pub mod markdown;
pub mod processor;
pub mod queue;
pub mod run;
pub mod text;
pub mod xhtml;

verus! {

/// The page that reports a URL without a canonical form. The address and
/// the parser's message are free text and stand in the page escaped.
pub open spec fn invalid_url_page(url: Seq<char>, message: Seq<char>) -> Seq<char> {
    page_markup(
        "rmfeeder \u{2013} invalid URL"@,
        "Invalid URL '"@ + escaped(url) + "': "@ + escaped(message),
    )
}

/// The page that reports a document that could not be fetched. The address
/// and the reason are free text and stand in the page escaped.
pub open spec fn fetch_error_page(normal: Seq<char>, reason: Seq<char>) -> Seq<char> {
    page_markup(
        "rmfeeder \u{2013} fetch error"@,
        "Error fetching '"@ + escaped(normal) + "': "@ + escaped(reason),
    )
}

/// The page that reports a document without a readable article. The
/// address stands in the page escaped.
pub open spec fn extraction_failure_page(normal: Seq<char>) -> Seq<char> {
    page_markup(
        "rmfeeder \u{2013} extraction failure"@,
        "<p>Failed to extract readable article from:</p><pre>"@ + escaped(normal) + "</pre>"@,
    )
}

/// The page for an article that was, or was not, found in the document at
/// a canonical address.
pub open spec fn article_page(normal: Seq<char>, article: Option<(Seq<char>, Seq<char>)>) -> Seq<
    char,
> {
    match article {
        Some((title, content)) => page_markup(title, content),
        None => extraction_failure_page(normal),
    }
}

/// The page for a canonical address, given what fetching it brought back
/// (`None`: nothing was fetched): the page of the article, or one that reports
/// why there is none.
pub open spec fn fetched_page(normal: Seq<char>, reply: Option<FetchReplyView>) -> Seq<char> {
    match reply {
        None => fetch_error_page(normal, "no response"@),
        Some(received) => match document_of(received) {
            Err(error) => fetch_error_page(normal, fetch_error_text(error)),
            Ok(html) => article_page(normal, readable_article(html, Some(normal), MAX_ELEMENTS)),
        },
    }
}

/// The page for a URL, given what fetching its canonical form brought back.
/// A failure at any stage gives a page that reports it; otherwise the page
/// presents the extracted article.
pub open spec fn processed_page(url: Seq<char>, reply: Option<FetchReplyView>) -> Seq<char> {
    match parsed_url(url) {
        Err(message) => invalid_url_page(url, message),
        Ok(normal) => fetched_page(normal, reply),
    }
}

/// Composes the page that reports a URL without a canonical form.
pub fn invalid_url(url: &str, message: &str) -> (page: String)
    ensures
        page@ == invalid_url_page(url@, message@),
{
    let safe_url = escape_html(url);
    let safe_message = escape_html(message);
    let mut body = String::from_str("Invalid URL '");
    body.append(safe_url.as_str());
    body.append("': ");
    body.append(safe_message.as_str());
    wrap("rmfeeder \u{2013} invalid URL", body.as_str())
}

/// Composes the page that reports a document that could not be fetched.
pub fn fetch_error(normal: &str, reason: &str) -> (page: String)
    ensures
        page@ == fetch_error_page(normal@, reason@),
{
    let safe_address = escape_html(normal);
    let safe_reason = escape_html(reason);
    let mut body = String::from_str("Error fetching '");
    body.append(safe_address.as_str());
    body.append("': ");
    body.append(safe_reason.as_str());
    wrap("rmfeeder \u{2013} fetch error", body.as_str())
}

/// Composes the page for what extraction found in the document at a
/// canonical address: the article, or a report that there is none.
pub fn page_for_article(normal: &str, article: Option<ProcessedArticle>) -> (page: String)
    ensures
        page@ == article_page(normal@, article_pair(article)),
{
    match article {
        Some(found) => wrap(found.title.as_str(), found.body_html.as_str()),
        None => {
            let safe_address = escape_html(normal);
            let mut body = String::from_str("<p>Failed to extract readable article from:</p><pre>");
            body.append(safe_address.as_str());
            body.append("</pre>");
            wrap("rmfeeder \u{2013} extraction failure", body.as_str())
        },
    }
}

/// Composes the page for a canonical address from what fetching it brought
/// back.
pub fn page_for_reply(normal: &str, reply: Option<FetchReply>) -> (page: String)
    ensures
        page@ == fetched_page(normal@, reply.deep_view()),
{
    match reply {
        None => fetch_error(normal, "no response"),
        Some(received) => match fetched_document(received) {
            Err(error) => {
                let reason = error.describe();
                fetch_error(normal, reason.as_str())
            },
            Ok(html) => page_for_article(normal, extract_article(html.as_str(), Some(normal))),
        },
    }
}

/// The whole single-article pipeline: normalise the URL, take the fetched
/// document, extract the article and wrap it into a page. The caller fetches
/// `normalize_url(url)` and hands the reply in; for a URL that has no
/// canonical form nothing is fetched and the reply is not looked at.
pub fn process_url(url: &str, reply: Option<FetchReply>) -> (page: String)
    ensures
        page@ == processed_page(url@, reply.deep_view()),
{
    match normalize_url(url) {
        Ok(normal) => page_for_reply(normal.as_str(), reply),
        Err(message) => invalid_url(url, message.as_str()),
    }
}

} // verus!
