use rmfeeder::bundle::{
    article_document, assemble, temporary_file_name, BundleError, PageSize,
};
use rmfeeder::item::ProcessedArticle;

const PAGE: PageSize = PageSize { width_mm: 157, height_mm: 210 };

fn article(title: &str, body: &str) -> ProcessedArticle {
    ProcessedArticle { title: title.to_string(), body_html: body.to_string() }
}

fn position(document: &str, part: &str) -> usize {
    document.find(part).unwrap_or_else(|| panic!("missing: {}", part))
}

#[test]
fn empty_list_is_refused() {
    assert_eq!(assemble(&Vec::new(), "t", "s", "d", PAGE), Err(BundleError::NoArticles));
}

#[test]
fn bundle_of_one_article_is_exact() {
    let document =
        assemble(&vec![article("One", "<p>1</p>")], "rmfeeder ::", "Watchlist", "May 1, 2024", PAGE)
            .unwrap();
    let head = "<!DOCTYPE html>\n<html>\n<head>\n<meta charset=\"utf-8\">\n<title>rmfeeder ::</title>\n<style>\n@page {\n  size: 157mm 210mm;\n  margin: 15mm;\n}\nbody {\n";
    assert!(document.starts_with(head));
    let rest = "</style>\n</head>\n\n<body>\n\n\
<section class=\"cover-page\">\n  <div class=\"cover-title\">rmfeeder ::</div>\n  <div class=\"cover-subtitle\">Watchlist</div>\n  <div class=\"cover-date\">May 1, 2024</div>\n</section>\n\n\
<section id=\"toc\" class=\"toc-page\">\n  <h1 class=\"toc-title\">Contents</h1>\n  <ul class=\"toc-list\">\n    <li><a href=\"#article-1\">One</a></li>\n  </ul>\n</section>\n\n\
<section id=\"article-1\" class=\"article-block\">\n    <h1>One</h1>\n    <p>1</p>\n    <a class=\"back-home\" href=\"#toc\">Back to contents</a>\n</section>\n\n\
</body>\n</html>\n";
    assert!(document.ends_with(rest));
    assert_eq!(document.matches("<section").count(), 3);
}

#[test]
fn contents_and_sections_keep_the_order() {
    let articles = vec![article("a", "<p>A</p>"), article("b", "<p>B</p>"), article("c", "<p>C</p>")];
    let document = assemble(&articles, "t", "s", "d", PAGE).unwrap();
    let entries = [
        position(&document, "<li><a href=\"#article-1\">a</a></li>"),
        position(&document, "<li><a href=\"#article-2\">b</a></li>"),
        position(&document, "<li><a href=\"#article-3\">c</a></li>"),
    ];
    let sections = [
        position(&document, "<section id=\"article-1\" class=\"article-block\">\n    <h1>a</h1>\n    <p>A</p>"),
        position(&document, "<section id=\"article-2\" class=\"article-block\">\n    <h1>b</h1>\n    <p>B</p>"),
        position(&document, "<section id=\"article-3\" class=\"article-block\">\n    <h1>c</h1>\n    <p>C</p>"),
    ];
    assert!(entries[0] < entries[1] && entries[1] < entries[2]);
    assert!(entries[2] < sections[0]);
    assert!(sections[0] < sections[1] && sections[1] < sections[2]);
    assert_eq!(document.matches("<li>").count(), 3);
    assert_eq!(document.matches("class=\"article-block\"").count(), 3);
}

#[test]
fn anchors_count_from_one_past_nine() {
    let articles: Vec<ProcessedArticle> =
        (1..=11).map(|i| article(&format!("t{}", i), "<p></p>")).collect();
    let document = assemble(&articles, "t", "s", "d", PAGE).unwrap();
    assert!(document.contains("<li><a href=\"#article-10\">t10</a></li>"));
    assert!(document.contains("<section id=\"article-11\" class=\"article-block\">\n    <h1>t11</h1>"));
    assert!(!document.contains("article-0"));
    assert!(!document.contains("article-12"));
}

#[test]
fn titles_are_escaped_and_bodies_are_not() {
    let body = "<p class=\"x\">Tom & Jerry's <b>\"best\"</b></p>";
    let document = assemble(
        &vec![article("a < b & \"c\"", body)],
        "<cover>",
        "sub & title",
        "1 > 0",
        PAGE,
    )
    .unwrap();
    assert!(document.contains("<li><a href=\"#article-1\">a &lt; b &amp; &quot;c&quot;</a></li>"));
    assert!(document.contains("<h1>a &lt; b &amp; &quot;c&quot;</h1>"));
    assert!(!document.contains("a < b & \"c\""));
    assert!(document.contains(body));
    assert!(document.contains("<title>&lt;cover&gt;</title>"));
    assert!(document.contains("<div class=\"cover-title\">&lt;cover&gt;</div>"));
    assert!(document.contains("<div class=\"cover-subtitle\">sub &amp; title</div>"));
    assert!(document.contains("<div class=\"cover-date\">1 &gt; 0</div>"));
}

#[test]
fn single_article_document_has_cover_and_body() {
    let document = article_document("R&D", "<p>text</p>", "May 1, 2024");
    assert!(document.starts_with("<!DOCTYPE html>\n<html>\n<head>\n<meta charset=\"utf-8\">\n<title>R&amp;D</title>\n<style>\n"));
    assert!(document.contains("<div class=\"cover-title\">R&amp;D</div>\n  <div class=\"cover-subtitle\">rmfeeder Article</div>\n  <div class=\"cover-date\">May 1, 2024</div>"));
    assert!(document.ends_with("<main class=\"article-content\">\n\n  <header class=\"article-header\">\n    <h1 class=\"article-title\">R&amp;D</h1>\n  </header>\n\n  <p>text</p>\n\n</main>\n\n</body>\n</html>\n"));
}

#[test]
fn temporary_names_hold_process_and_time() {
    assert_eq!(temporary_file_name(4242, 1714561200), "rmfeeder_bundle_4242_1714561200.html");
    assert_eq!(temporary_file_name(0, 0), "rmfeeder_bundle_0_0.html");
    assert_ne!(temporary_file_name(1, 23), temporary_file_name(12, 3));
}
