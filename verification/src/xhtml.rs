//! The stand-alone page that presents one article in a browser.

use crate::text::{escape_html, escaped};
use vstd::prelude::*;
use vstd::string::*;

verus! {

/// The typography shared by every document that this library composes.
pub const BASE_CSS: &'static str = "body {\
    \n  font-family: Georgia, serif;\
    \n  font-size: 11pt;\
    \n  line-height: 1.45;\
    \n  color: #111;\
    \n}\
    \nh1, h2, h3 {\
    \n  font-family: Helvetica, Arial, sans-serif;\
    \n  line-height: 1.2;\
    \n}\
    \nimg {\
    \n  max-width: 100%;\
    \n  height: auto;\
    \n}\
    \npre, code {\
    \n  font-family: Menlo, Consolas, monospace;\
    \n  font-size: 9pt;\
    \n  white-space: pre-wrap;\
    \n}\
    \nblockquote {\
    \n  margin-left: 1em;\
    \n  padding-left: 1em;\
    \n  border-left: 2px solid #999;\
    \n}\
    \n.cover-page {\
    \n  page-break-after: always;\
    \n  text-align: center;\
    \n  padding-top: 30%;\
    \n}\
    \n.cover-title {\
    \n  font-size: 28pt;\
    \n  font-weight: bold;\
    \n}\
    \n.cover-subtitle {\
    \n  font-size: 16pt;\
    \n  margin-top: 1em;\
    \n}\
    \n.cover-date {\
    \n  font-size: 11pt;\
    \n  margin-top: 2em;\
    \n  color: #555;\
    \n}\
    \n.toc-page, .article-block {\
    \n  page-break-after: always;\
    \n}\
    \n.toc-list {\
    \n  padding-left: 1.2em;\
    \n}\
    \n.article-source {\
    \n  font-size: 9pt;\
    \n  color: #555;\
    \n}\
    \n.back-home {\
    \n  display: block;\
    \n  margin-top: 2em;\
    \n  font-size: 9pt;\
    \n}\
    \n";

/// Additions for reading in a browser: a centred column of readable width.
pub const BROWSER_CSS: &'static str = "\
    \nhtml, body {\
    \n  background: #fefefe;\
    \n}\
    \n\
    \nmain.article {\
    \n  max-width: 700px;       /* classic readable line length */\
    \n  margin: 2.5rem auto;    /* center the article */\
    \n  padding: 0 1.25rem;     /* keep text off the edges */\
    \n  box-sizing: border-box;\
    \n}\
    \n\
    \nimg {\
    \n  border-radius: 4px;\
    \n}\
    \n";

/// The page for a title and a body. The title is free text and stands in
/// the template escaped; the body is trusted markup and stands in it as it is
/// given.
pub open spec fn page_markup(title: Seq<char>, body_html: Seq<char>) -> Seq<char> {
    "<!DOCTYPE html>\n<html lang=\"en\">\n  <head>\n    <meta charset=\"utf-8\">\n    <title>"@
        + escaped(title) + "</title>\n    <style>\n"@ + BASE_CSS@ + "\n"@ + BROWSER_CSS@
        + "\n    </style>\n  </head>\n  <body>\n    <main class=\"article\">\n"@ + body_html
        + "\n    </main>\n  </body>\n</html>\n"@
}

/// Wraps an article body into a complete page with the given title. The
/// title is escaped; the body passes unchanged.
pub fn wrap(title: &str, body_html: &str) -> (page: String)
    ensures
        page@ == page_markup(title@, body_html@),
{
    let mut page = String::from_str(
        "<!DOCTYPE html>\n<html lang=\"en\">\n  <head>\n    <meta charset=\"utf-8\">\n    <title>",
    );
    let safe_title = escape_html(title);
    page.append(safe_title.as_str());
    page.append("</title>\n    <style>\n");
    page.append(BASE_CSS);
    page.append("\n");
    page.append(BROWSER_CSS);
    page.append("\n    </style>\n  </head>\n  <body>\n    <main class=\"article\">\n");
    page.append(body_html);
    page.append("\n    </main>\n  </body>\n</html>\n");
    page
}

} // verus!
