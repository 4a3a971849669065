use rmfeeder::extractor::extract_article;
use rmfeeder::fetcher::{default_user_agent, fetched_document, normalize_url, FetchReply};
use rmfeeder::item::FetchError;
use rmfeeder::item::ProcessedArticle;
use rmfeeder::{fetch_error, invalid_url, page_for_article, page_for_reply, process_url};
use rmfeeder::xhtml::wrap;

fn article_html() -> String {
    let mut paragraphs = String::new();
    for i in 0..12 {
        paragraphs.push_str(&format!(
            "<p>Paragraph {} of the story, which goes on for a while, with commas, clauses, \
             and enough words that a reader would call it the main text of the page.</p>",
            i
        ));
    }
    format!(
        "<html><head><title>The Long Story</title></head><body>\
         <nav><a href=\"/\">Home</a></nav>\
         <article><h1>The Long Story</h1>{}</article>\
         <footer>Imprint</footer></body></html>",
        paragraphs
    )
}

#[test]
fn wrap_places_title_and_body() {
    let page = wrap("A title", "<p>body</p>");
    assert!(page.starts_with("<!DOCTYPE html>\n<html lang=\"en\">\n  <head>\n    <meta charset=\"utf-8\">\n    <title>A title</title>\n    <style>\n"));
    assert!(page.ends_with("    </style>\n  </head>\n  <body>\n    <main class=\"article\">\n<p>body</p>\n    </main>\n  </body>\n</html>\n"));
    assert!(page.contains("main.article {\n  max-width: 700px;"));
}

#[test]
fn normalize_percent_encodes() {
    assert_eq!(
        normalize_url("https://example.com/a b(c)"),
        Ok("https://example.com/a%20b(c)".to_string())
    );
    assert_eq!(normalize_url("HTTP://Example.COM"), Ok("http://example.com/".to_string()));
}

#[test]
fn normalize_rejects_relative() {
    assert_eq!(normalize_url("not a url"), Err("relative URL without a base".to_string()));
    assert_eq!(normalize_url("http://"), Err("empty host".to_string()));
}

#[test]
fn user_agent_names_the_system() {
    assert_eq!(default_user_agent("linux"), "rmfeeder/0.1 (+https://example.com; rust; linux)");
}

#[test]
fn fetched_document_classifies() {
    let ok = FetchReply::Response { status: 200, body: "x".to_string() };
    assert_eq!(fetched_document(ok), Ok("x".to_string()));
    let edge = FetchReply::Response { status: 299, body: "y".to_string() };
    assert_eq!(fetched_document(edge), Ok("y".to_string()));
    let forbidden = FetchReply::Response { status: 403, body: String::new() };
    assert_eq!(fetched_document(forbidden), Err(FetchError::Forbidden));
    let missing = FetchReply::Response { status: 404, body: String::new() };
    assert_eq!(fetched_document(missing), Err(FetchError::Status(404)));
    let redirect = FetchReply::Response { status: 300, body: String::new() };
    assert_eq!(fetched_document(redirect), Err(FetchError::Status(300)));
    let early = FetchReply::Response { status: 199, body: String::new() };
    assert_eq!(fetched_document(early), Err(FetchError::Status(199)));
    let down = FetchReply::Failed { detail: "connection refused".to_string() };
    assert_eq!(fetched_document(down), Err(FetchError::Transport("connection refused".to_string())));
}

#[test]
fn extract_finds_the_article() {
    let article = extract_article(&article_html(), Some("https://example.com/story")).unwrap();
    assert_eq!(article.title, "The Long Story");
    assert!(article.body_html.contains("Paragraph 11 of the story"));
    assert!(!article.body_html.contains("Imprint"));
}

#[test]
fn extract_rejects_relative_address_and_empty_document() {
    assert_eq!(extract_article(&article_html(), Some("/story")), None);
    assert_eq!(extract_article("", Some("https://example.com/")), None);
}

#[test]
fn process_url_reports_invalid_url() {
    let page = process_url("::nonsense", None);
    assert!(page.contains("<title>rmfeeder \u{2013} invalid URL</title>"));
    assert!(page.contains("Invalid URL '::nonsense': relative URL without a base"));
}

#[test]
fn process_url_reports_fetch_errors() {
    let page = process_url(
        "https://example.com/x y",
        Some(FetchReply::Response { status: 500, body: String::new() }),
    );
    assert!(page.contains("<title>rmfeeder \u{2013} fetch error</title>"));
    assert!(page.contains("Error fetching 'https://example.com/x%20y': Request failed with status 500"));
    let page = process_url(
        "https://example.com/",
        Some(FetchReply::Failed { detail: "timed out".to_string() }),
    );
    assert!(page.contains("Error fetching 'https://example.com/': timed out"));
    let page = process_url("https://example.com/", None);
    assert!(page.contains("Error fetching 'https://example.com/': no response"));
}

#[test]
fn process_url_presents_the_article() {
    let page = process_url(
        "https://example.com/story",
        Some(FetchReply::Response { status: 200, body: article_html() }),
    );
    assert!(page.contains("<title>The Long Story</title>"));
    assert!(page.contains("Paragraph 3 of the story"));
}

#[test]
fn process_url_reports_extraction_failure() {
    let page = process_url(
        "https://example.com/empty",
        Some(FetchReply::Response { status: 200, body: String::new() }),
    );
    assert!(page.contains("<title>rmfeeder \u{2013} extraction failure</title>"));
    assert!(page.contains("<pre>https://example.com/empty</pre>"));
}

#[test]
fn report_pages_are_exact() {
    assert_eq!(
        invalid_url("a b", "relative URL without a base"),
        wrap("rmfeeder \u{2013} invalid URL", "Invalid URL 'a b': relative URL without a base")
    );
    assert_eq!(
        fetch_error("https://example.com/", "timed out"),
        wrap("rmfeeder \u{2013} fetch error", "Error fetching 'https://example.com/': timed out")
    );
    assert_eq!(
        page_for_article("https://example.com/", None),
        wrap(
            "rmfeeder \u{2013} extraction failure",
            "<p>Failed to extract readable article from:</p><pre>https://example.com/</pre>"
        )
    );
}

#[test]
fn article_page_wraps_title_and_content() {
    let article = ProcessedArticle { title: "T".to_string(), body_html: "<p>c</p>".to_string() };
    assert_eq!(page_for_article("https://example.com/", Some(article)), wrap("T", "<p>c</p>"));
}

#[test]
fn reply_page_for_each_kind_of_reply() {
    assert_eq!(
        page_for_reply("https://example.com/", None),
        fetch_error("https://example.com/", "no response")
    );
    assert_eq!(
        page_for_reply(
            "https://example.com/",
            Some(FetchReply::Response { status: 403, body: String::new() })
        ),
        fetch_error("https://example.com/", "Request failed with status 403 (forbidden)")
    );
    assert_eq!(
        page_for_reply(
            "https://example.com/",
            Some(FetchReply::Response { status: 200, body: String::new() })
        ),
        page_for_article("https://example.com/", None)
    );
}

#[test]
fn wrap_escapes_the_title_and_keeps_the_body() {
    let page = wrap("A<B & \"C\"", "<p>x &amp; y</p>");
    assert!(page.contains("<title>A&lt;B &amp; &quot;C&quot;</title>"));
    assert!(page.contains("    <main class=\"article\">\n<p>x &amp; y</p>\n    </main>"));
    assert!(!page.contains("A<B"));
}

#[test]
fn report_pages_escape_address_and_message() {
    let page = invalid_url("<a href='x'>", "bad & \"broken\"");
    assert!(page.contains(
        "Invalid URL '&lt;a href=&#39;x&#39;&gt;': bad &amp; &quot;broken&quot;\n    </main>"
    ));
    let page = fetch_error("https://example.com/?a=1&b=<2>", "<html>502</html>");
    assert!(page.contains(
        "Error fetching 'https://example.com/?a=1&amp;b=&lt;2&gt;': &lt;html&gt;502&lt;/html&gt;"
    ));
    let page = page_for_article("https://example.com/?a=1&b=2", None);
    assert!(page.contains("<pre>https://example.com/?a=1&amp;b=2</pre>"));
}

#[test]
fn article_page_escapes_the_title_from_the_document() {
    let article = ProcessedArticle {
        title: "Q&A <live>".to_string(),
        body_html: "<p>Q&amp;A</p>".to_string(),
    };
    let page = page_for_article("https://example.com/", Some(article));
    assert!(page.contains("<title>Q&amp;A &lt;live&gt;</title>"));
    assert!(page.contains("\n<p>Q&amp;A</p>\n"));
}
