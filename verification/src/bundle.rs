//! The bundle assembler: one document made of a cover, a table of contents
//! and one section per article, in the order in which the articles are given.

use crate::item::{ArticleView, ProcessedArticle};
use crate::text::{
    decimal, escape_html, escaped, is_digit, law_decimal_is_one_to_one, lemma_decimal_is_digits,
    push_decimal,
};
use crate::xhtml::BASE_CSS;
use vstd::prelude::*;
use vstd::string::*;

verus! {

/// The size of a page, in millimetres.
#[derive(Debug, PartialEq, Eq, Structural, Clone, Copy)]
pub struct PageSize {
    pub width_mm: u32,
    pub height_mm: u32,
}

/// Why no bundle was composed.
#[derive(Debug, PartialEq, Eq, Structural, Clone, Copy)]
pub enum BundleError {
    /// There is no article to put into it.
    NoArticles,
}

/// The anchor of the article at a 1-based position.
pub open spec fn anchor(position: nat) -> Seq<char> {
    "article-"@ + decimal(position)
}

/// The style rule that sets the page size.
pub open spec fn page_rule(page: PageSize) -> Seq<char> {
    "@page {\n  size: "@ + decimal(page.width_mm as nat) + "mm "@ + decimal(page.height_mm as nat)
        + "mm;\n  margin: 15mm;\n}\n"@
}

/// Everything up to the cover: document head and style sheet.
pub open spec fn document_head(title: Seq<char>, page: PageSize) -> Seq<char> {
    "<!DOCTYPE html>\n<html>\n<head>\n<meta charset=\"utf-8\">\n<title>"@ + escaped(title)
        + "</title>\n<style>\n"@ + page_rule(page) + BASE_CSS@ + "</style>\n</head>\n\n<body>\n\n"@
}

/// The cover section: title, subtitle and date, each escaped.
pub open spec fn cover(title: Seq<char>, subtitle: Seq<char>, date: Seq<char>) -> Seq<char> {
    "<section class=\"cover-page\">\n  <div class=\"cover-title\">"@ + escaped(title)
        + "</div>\n  <div class=\"cover-subtitle\">"@ + escaped(subtitle)
        + "</div>\n  <div class=\"cover-date\">"@ + escaped(date) + "</div>\n</section>\n\n"@
}

/// The entry of the table of contents for the article at a 1-based position:
/// a link to the article's anchor, labelled with the escaped title.
pub open spec fn toc_entry(position: nat, article: ArticleView) -> Seq<char> {
    "    <li><a href=\"#"@ + anchor(position) + "\">"@ + escaped(article.title) + "</a></li>\n"@
}

/// The section of the article at a 1-based position: heading with the
/// escaped title, the body as it is, and a link back to the contents.
pub open spec fn article_section(position: nat, article: ArticleView) -> Seq<char> {
    "<section id=\""@ + anchor(position) + "\" class=\"article-block\">\n    <h1>"@ + escaped(
        article.title,
    ) + "</h1>\n    "@ + article.body_html
        + "\n    <a class=\"back-home\" href=\"#toc\">Back to contents</a>\n</section>\n\n"@
}

/// The entries of the articles at the positions `from + 1 ..= to`, in order.
pub open spec fn toc_entries(articles: Seq<ArticleView>, from: int, to: int) -> Seq<char>
    decreases to - from,
{
    if to <= from {
        Seq::<char>::empty()
    } else {
        toc_entries(articles, from, to - 1) + toc_entry(to as nat, articles[to - 1])
    }
}

/// The sections of the articles at the positions `from + 1 ..= to`, in order.
pub open spec fn article_sections(articles: Seq<ArticleView>, from: int, to: int) -> Seq<char>
    decreases to - from,
{
    if to <= from {
        Seq::<char>::empty()
    } else {
        article_sections(articles, from, to - 1) + article_section(to as nat, articles[to - 1])
    }
}

/// The table of contents around its entries.
pub open spec fn contents(entries: Seq<char>) -> Seq<char> {
    "<section id=\"toc\" class=\"toc-page\">\n  <h1 class=\"toc-title\">Contents</h1>\n  <ul class=\"toc-list\">\n"@
        + entries + "  </ul>\n</section>\n\n"@
}

/// The composed document: head, cover, table of contents, then the sections.
pub open spec fn bundle_markup(
    articles: Seq<ArticleView>,
    cover_title: Seq<char>,
    cover_subtitle: Seq<char>,
    date: Seq<char>,
    page: PageSize,
) -> Seq<char> {
    document_head(cover_title, page) + cover(cover_title, cover_subtitle, date) + contents(
        toc_entries(articles, 0, articles.len() as int),
    ) + article_sections(articles, 0, articles.len() as int) + "</body>\n</html>\n"@
}

/// What `assemble` owes: an error for an empty list, the composed document
/// for any other.
pub open spec fn assembled(
    articles: Seq<ArticleView>,
    cover_title: Seq<char>,
    cover_subtitle: Seq<char>,
    date: Seq<char>,
    page: PageSize,
) -> Result<Seq<char>, BundleError> {
    if articles.len() == 0 {
        Err(BundleError::NoArticles)
    } else {
        Ok(bundle_markup(articles, cover_title, cover_subtitle, date, page))
    }
}

/// The view of a composed document or the reason why there is none.
pub open spec fn bundle_view(bundle: Result<String, BundleError>) -> Result<
    Seq<char>,
    BundleError,
> {
    match bundle {
        Ok(document) => Ok(document@),
        Err(error) => Err(error),
    }
}

fn push_anchor(out: &mut String, position: usize)
    ensures
        final(out)@ == old(out)@ + anchor(position as nat),
{
    out.append("article-");
    push_decimal(out, position as u64);
}

fn push_toc_entry(out: &mut String, position: usize, article: &ProcessedArticle)
    ensures
        final(out)@ == old(out)@ + toc_entry(position as nat, article@),
{
    let title = escape_html(article.title.as_str());
    out.append("    <li><a href=\"#");
    push_anchor(out, position);
    out.append("\">");
    out.append(title.as_str());
    out.append("</a></li>\n");
}

fn push_section(out: &mut String, position: usize, article: &ProcessedArticle)
    ensures
        final(out)@ == old(out)@ + article_section(position as nat, article@),
{
    let title = escape_html(article.title.as_str());
    out.append("<section id=\"");
    push_anchor(out, position);
    out.append("\" class=\"article-block\">\n    <h1>");
    out.append(title.as_str());
    out.append("</h1>\n    ");
    out.append(article.body_html.as_str());
    out.append("\n    <a class=\"back-home\" href=\"#toc\">Back to contents</a>\n</section>\n\n");
}

fn push_head(out: &mut String, title: &str, page: PageSize)
    ensures
        final(out)@ == old(out)@ + document_head(title@, page),
{
    let safe_title = escape_html(title);
    out.append("<!DOCTYPE html>\n<html>\n<head>\n<meta charset=\"utf-8\">\n<title>");
    out.append(safe_title.as_str());
    out.append("</title>\n<style>\n");
    out.append("@page {\n  size: ");
    push_decimal(out, page.width_mm as u64);
    out.append("mm ");
    push_decimal(out, page.height_mm as u64);
    out.append("mm;\n  margin: 15mm;\n}\n");
    out.append(BASE_CSS);
    out.append("</style>\n</head>\n\n<body>\n\n");
}

fn push_cover(out: &mut String, title: &str, subtitle: &str, date: &str)
    ensures
        final(out)@ == old(out)@ + cover(title@, subtitle@, date@),
{
    let safe_title = escape_html(title);
    let safe_subtitle = escape_html(subtitle);
    let safe_date = escape_html(date);
    out.append("<section class=\"cover-page\">\n  <div class=\"cover-title\">");
    out.append(safe_title.as_str());
    out.append("</div>\n  <div class=\"cover-subtitle\">");
    out.append(safe_subtitle.as_str());
    out.append("</div>\n  <div class=\"cover-date\">");
    out.append(safe_date.as_str());
    out.append("</div>\n</section>\n\n");
}

/// Composes the bundle for the given articles, in their order. An empty list
/// is refused: a bundle without articles is never composed. Titles, subtitle
/// and date are escaped; the bodies are trusted markup and pass unchanged.
pub fn assemble(
    articles: &Vec<ProcessedArticle>,
    cover_title: &str,
    cover_subtitle: &str,
    date: &str,
    page: PageSize,
) -> (bundle: Result<String, BundleError>)
    ensures
        bundle_view(bundle) == assembled(
            articles.deep_view(),
            cover_title@,
            cover_subtitle@,
            date@,
            page,
        ),
{
    if articles.len() == 0 {
        return Err(BundleError::NoArticles);
    }
    let ghost views = articles.deep_view();
    let mut out = String::new();
    push_head(&mut out, cover_title, page);
    push_cover(&mut out, cover_title, cover_subtitle, date);
    out.append(
        "<section id=\"toc\" class=\"toc-page\">\n  <h1 class=\"toc-title\">Contents</h1>\n  <ul class=\"toc-list\">\n",
    );
    let ghost front = out@;
    let mut i: usize = 0;
    while i < articles.len()
        invariant
            i <= articles.len(),
            views == articles.deep_view(),
            out@ == front + toc_entries(views, 0, i as int),
        decreases articles.len() - i,
    {
        push_toc_entry(&mut out, i + 1, &articles[i]);
        i = i + 1;
    }
    out.append("  </ul>\n</section>\n\n");
    let ghost middle = out@;
    let mut k: usize = 0;
    while k < articles.len()
        invariant
            k <= articles.len(),
            views == articles.deep_view(),
            out@ == middle + article_sections(views, 0, k as int),
        decreases articles.len() - k,
    {
        push_section(&mut out, k + 1, &articles[k]);
        k = k + 1;
    }
    out.append("</body>\n</html>\n");
    assert(out@ =~= bundle_markup(views, cover_title@, cover_subtitle@, date@, page));
    Ok(out)
}

/// A run of entries, and a run of sections, is the run up to any point
/// followed by the run from that point on.
pub proof fn lemma_runs_split(articles: Seq<ArticleView>, from: int, mid: int, to: int)
    requires
        from <= mid <= to,
    ensures
        toc_entries(articles, from, to) == toc_entries(articles, from, mid) + toc_entries(
            articles,
            mid,
            to,
        ),
        article_sections(articles, from, to) == article_sections(articles, from, mid)
            + article_sections(articles, mid, to),
    decreases to - mid,
{
    if mid < to {
        lemma_runs_split(articles, from, mid, to - 1);
    }
    assert(toc_entries(articles, from, to) =~= toc_entries(articles, from, mid) + toc_entries(
        articles,
        mid,
        to,
    ));
    assert(article_sections(articles, from, to) =~= article_sections(articles, from, mid)
        + article_sections(articles, mid, to));
}

/// The bundle keeps the order of the articles. In the table of contents the
/// entry of each article stands behind the entries of all articles given
/// before it and in front of the entries of all given after it; the sections
/// stand in the same way. The position in an entry and in a section is the
/// place of the article in the list, counted from 1.
pub proof fn law_bundle_keeps_order(articles: Seq<ArticleView>, index: int)
    requires
        0 <= index < articles.len(),
    ensures
        toc_entries(articles, 0, articles.len() as int) == toc_entries(articles, 0, index)
            + toc_entry((index + 1) as nat, articles[index]) + toc_entries(
            articles,
            index + 1,
            articles.len() as int,
        ),
        article_sections(articles, 0, articles.len() as int) == article_sections(
            articles,
            0,
            index,
        ) + article_section((index + 1) as nat, articles[index]) + article_sections(
            articles,
            index + 1,
            articles.len() as int,
        ),
{
    let n = articles.len() as int;
    lemma_runs_split(articles, 0, index + 1, n);
    assert(toc_entries(articles, 0, index + 1) == toc_entries(articles, 0, index) + toc_entry(
        (index + 1) as nat,
        articles[index],
    ));
    assert(article_sections(articles, 0, index + 1) == article_sections(articles, 0, index)
        + article_section((index + 1) as nat, articles[index]));
}

/// The body of an article stands in its section exactly as it was given:
/// the section is markup, the body, and markup again.
pub proof fn law_body_passes_unchanged(position: nat, article: ArticleView)
    ensures
        exists|before: Seq<char>, after: Seq<char>| #[trigger]
            (before + article.body_html + after) == article_section(position, article),
{
    let before = "<section id=\""@ + anchor(position) + "\" class=\"article-block\">\n    <h1>"@
        + escaped(article.title) + "</h1>\n    "@;
    let after = "\n    <a class=\"back-home\" href=\"#toc\">Back to contents</a>\n</section>\n\n"@;
    assert((before + article.body_html + after) == article_section(position, article));
}

/// The document for a single article: a cover with the title, a fixed
/// subtitle and the date, then the article under its title. The title and the
/// date are escaped; the body passes unchanged.
pub open spec fn article_document_markup(
    title: Seq<char>,
    body_html: Seq<char>,
    date: Seq<char>,
) -> Seq<char> {
    "<!DOCTYPE html>\n<html>\n<head>\n<meta charset=\"utf-8\">\n<title>"@ + escaped(title)
        + "</title>\n<style>\n"@ + BASE_CSS@ + "</style>\n</head>\n\n<body>\n\n"@ + cover(
        title,
        "rmfeeder Article"@,
        date,
    ) + "<main class=\"article-content\">\n\n  <header class=\"article-header\">\n    <h1 class=\"article-title\">"@
        + escaped(title) + "</h1>\n  </header>\n\n  "@ + body_html
        + "\n\n</main>\n\n</body>\n</html>\n"@
}

/// Composes the document for a single article.
pub fn article_document(title: &str, body_html: &str, date: &str) -> (document: String)
    ensures
        document@ == article_document_markup(title@, body_html@, date@),
{
    let safe_title = escape_html(title);
    let mut out = String::from_str(
        "<!DOCTYPE html>\n<html>\n<head>\n<meta charset=\"utf-8\">\n<title>",
    );
    out.append(safe_title.as_str());
    out.append("</title>\n<style>\n");
    out.append(BASE_CSS);
    out.append("</style>\n</head>\n\n<body>\n\n");
    push_cover(&mut out, title, "rmfeeder Article", date);
    out.append(
        "<main class=\"article-content\">\n\n  <header class=\"article-header\">\n    <h1 class=\"article-title\">",
    );
    out.append(safe_title.as_str());
    out.append("</h1>\n  </header>\n\n  ");
    out.append(body_html);
    out.append("\n\n</main>\n\n</body>\n</html>\n");
    out
}

/// The name of the temporary file for a composed document: it holds the
/// process and the time, so that two invocations do not write to one file.
pub open spec fn temporary_name(process: u32, timestamp: u64) -> Seq<char> {
    "rmfeeder_bundle_"@ + decimal(process as nat) + "_"@ + decimal(timestamp as nat)
        + ".html"@
}

/// Names the temporary file for a composed document.
pub fn temporary_file_name(process: u32, timestamp: u64) -> (name: String)
    ensures
        name@ == temporary_name(process, timestamp),
{
    let mut name = String::from_str("rmfeeder_bundle_");
    push_decimal(&mut name, process as u64);
    name.append("_");
    push_decimal(&mut name, timestamp);
    name.append(".html");
    name
}

/// Two numerals, each followed by a mark that is no digit and by the same
/// ending, make the same text only if they are the same numerals.
proof fn lemma_marked_numerals_differ(
    first: nat,
    second: nat,
    mark: Seq<char>,
    ending_first: Seq<char>,
    ending_second: Seq<char>,
)
    requires
        mark.len() >= 1,
        !is_digit(mark[0]),
        decimal(first) + mark + ending_first == decimal(second) + mark + ending_second,
    ensures
        first == second,
        ending_first == ending_second,
{
    let a = decimal(first);
    let b = decimal(second);
    let left = a + mark + ending_first;
    let right = b + mark + ending_second;
    lemma_decimal_is_digits(first);
    lemma_decimal_is_digits(second);
    if a.len() < b.len() {
        assert(left[a.len() as int] == mark[0]);
        assert(right[a.len() as int] == b[a.len() as int]);
    } else if b.len() < a.len() {
        assert(right[b.len() as int] == mark[0]);
        assert(left[b.len() as int] == a[b.len() as int]);
    } else {
        assert(a =~= left.take(a.len() as int));
        assert(b =~= right.take(b.len() as int));
        law_decimal_is_one_to_one(first, second);
        assert(ending_first =~= left.skip((a.len() + mark.len()) as int));
        assert(ending_second =~= right.skip((b.len() + mark.len()) as int));
    }
}

/// Different processes, and the same process at different times, get
/// different names for their temporary files.
pub proof fn law_temporary_names_differ(
    process: u32,
    timestamp: u64,
    other_process: u32,
    other_timestamp: u64,
)
    requires
        temporary_name(process, timestamp) == temporary_name(other_process, other_timestamp),
    ensures
        process == other_process,
        timestamp == other_timestamp,
{
    reveal_strlit("_");
    reveal_strlit(".html");
    let head = "rmfeeder_bundle_"@;
    let tail = decimal(timestamp as nat) + ".html"@;
    let other_tail = decimal(other_timestamp as nat) + ".html"@;
    let rest = decimal(process as nat) + "_"@ + tail;
    let other_rest = decimal(other_process as nat) + "_"@ + other_tail;
    assert(temporary_name(process, timestamp) =~= head + rest);
    assert(temporary_name(other_process, other_timestamp) =~= head + other_rest);
    assert(rest =~= (head + rest).skip(head.len() as int));
    assert(other_rest =~= (head + other_rest).skip(head.len() as int));
    lemma_marked_numerals_differ(process as nat, other_process as nat, "_"@, tail, other_tail);
    assert(tail =~= decimal(timestamp as nat) + ".html"@ + Seq::<char>::empty());
    assert(other_tail =~= decimal(other_timestamp as nat) + ".html"@ + Seq::<char>::empty());
    lemma_marked_numerals_differ(
        timestamp as nat,
        other_timestamp as nat,
        ".html"@,
        Seq::<char>::empty(),
        Seq::<char>::empty(),
    );
}

} // verus!
