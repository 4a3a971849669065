//! The item processor: one candidate taken through normalise, fetch, extract
//! and, where asked for, summarise. The stages follow one another without
//! going back; the first failure ends the item.
//!
//! Fetching and summarising are done by the caller. `pending` says what is
//! due, `advance` takes what came of it.

use crate::extractor::{article_pair, extract_article, readable_article, MAX_ELEMENTS};
use crate::fetcher::{
    document_of, fetched_document, normalize_url, parsed_url, text_result_view, FetchReply,
    FetchReplyView, MAX_REDIRECTS,
};
use crate::item::{
    outcome_view, ArticleView, CandidateItem, CandidateView, FailureView, ItemFailure,
    ProcessedArticle,
};
use crate::markdown::{attributed_body, markdown_html, markdown_to_html, summary_body_text};
use crate::text::{trim, trimmed};
use vstd::prelude::*;
use vstd::string::*;

verus! {

/// What the summariser left behind: its exit code, if it exited, and what
/// it wrote to its two outputs. The white space around either text is not
/// part of the summary nor of the report, and is taken off where they are
/// used.
#[derive(Debug, PartialEq, Eq)]
pub struct ToolOutput {
    pub exit_code: Option<i32>,
    pub stdout: String,
    pub stderr: String,
}

/// `ToolOutput` as mathematical text.
pub struct ToolOutputView {
    pub exit_code: Option<i32>,
    pub stdout: Seq<char>,
    pub stderr: Seq<char>,
}

impl View for ToolOutput {
    type V = ToolOutputView;

    open spec fn view(&self) -> ToolOutputView {
        ToolOutputView { exit_code: self.exit_code, stdout: self.stdout@, stderr: self.stderr@ }
    }
}

/// What the caller reports back.
#[derive(Debug, PartialEq, Eq)]
pub enum ItemEvent {
    /// The reply to the fetch that was due.
    Fetched(FetchReply),
    /// The output of the summariser that was due.
    Summarized(ToolOutput),
}

/// `ItemEvent` as mathematical text.
pub enum ItemEventView {
    Fetched(FetchReplyView),
    Summarized(ToolOutputView),
}

impl View for ItemEvent {
    type V = ItemEventView;

    open spec fn view(&self) -> ItemEventView {
        match self {
            ItemEvent::Fetched(reply) => ItemEventView::Fetched(reply@),
            ItemEvent::Summarized(output) => ItemEventView::Summarized(output@),
        }
    }
}

/// What the caller is to do next.
#[derive(Debug, PartialEq, Eq)]
pub enum ItemAction {
    /// Fetch the document at this address, following no more redirects than
    /// stated.
    Fetch { url: String, max_redirects: usize },
    /// Pipe this content through the summariser.
    Summarize { content: String },
    /// Nothing: the item has its outcome.
    Finish,
}

/// `ItemAction` as mathematical text.
pub enum ItemActionView {
    Fetch { url: Seq<char>, max_redirects: usize },
    Summarize { content: Seq<char> },
    Finish,
}

impl View for ItemAction {
    type V = ItemActionView;

    open spec fn view(&self) -> ItemActionView {
        match self {
            ItemAction::Fetch { url, max_redirects } => ItemActionView::Fetch {
                url: url@,
                max_redirects: *max_redirects,
            },
            ItemAction::Summarize { content } => ItemActionView::Summarize { content: content@ },
            ItemAction::Finish => ItemActionView::Finish,
        }
    }
}

/// Where one item stands.
#[derive(Debug, PartialEq, Eq)]
pub enum ItemProcessor {
    /// The address is canonical; its document is to be fetched.
    AwaitingFetch { url: String, hint: Option<String>, summarize: bool },
    /// The article is extracted; its summary is to be made.
    AwaitingSummary { url: String, title: String, content: String },
    /// The item has its outcome.
    Done { outcome: Result<ProcessedArticle, ItemFailure> },
}

/// `ItemProcessor` as mathematical text.
pub enum ItemView {
    AwaitingFetch { url: Seq<char>, hint: Option<Seq<char>>, summarize: bool },
    AwaitingSummary { url: Seq<char>, title: Seq<char>, content: Seq<char> },
    Done { outcome: Result<ArticleView, FailureView> },
}

impl View for ItemProcessor {
    type V = ItemView;

    open spec fn view(&self) -> ItemView {
        match self {
            ItemProcessor::AwaitingFetch { url, hint, summarize } => ItemView::AwaitingFetch {
                url: url@,
                hint: hint.deep_view(),
                summarize: *summarize,
            },
            ItemProcessor::AwaitingSummary { url, title, content } => ItemView::AwaitingSummary {
                url: url@,
                title: title@,
                content: content@,
            },
            ItemProcessor::Done { outcome } => ItemView::Done { outcome: outcome_view(*outcome) },
        }
    }
}

/// The title under which an article is shown: the one that the source gave
/// with the candidate, or else the one found in the document.
pub open spec fn shown_title(hint: Option<Seq<char>>, extracted: Seq<char>) -> Seq<char> {
    match hint {
        Some(title) => title,
        None => extracted,
    }
}

/// Whether the summariser ended well: it exited, with code 0.
pub open spec fn tool_succeeded(output: ToolOutputView) -> bool {
    output.exit_code == Some(0i32)
}

/// The first stage, once the address was normalised. An address without
/// canonical form ends the item at once.
pub open spec fn after_normalizing(
    candidate: CandidateView,
    summarize: bool,
    normal: Result<Seq<char>, Seq<char>>,
) -> ItemView {
    match normal {
        Ok(url) => ItemView::AwaitingFetch { url, hint: candidate.display_hint, summarize },
        Err(message) => ItemView::Done { outcome: Err(FailureView::InvalidUrl(message)) },
    }
}

/// The first stage.
pub open spec fn started(candidate: CandidateView, summarize: bool) -> ItemView {
    after_normalizing(candidate, summarize, parsed_url(candidate.source_url))
}

/// What extraction leads to: a document without an article ends the item; an
/// article ends it with success, unless a summary was asked for.
pub open spec fn after_extracting(
    url: Seq<char>,
    hint: Option<Seq<char>>,
    summarize: bool,
    article: Option<(Seq<char>, Seq<char>)>,
) -> ItemView {
    match article {
        None => ItemView::Done { outcome: Err(FailureView::ExtractionFailed) },
        Some((title, content)) => if summarize {
            ItemView::AwaitingSummary { url, title: shown_title(hint, title), content }
        } else {
            ItemView::Done {
                outcome: Ok(ArticleView { title: shown_title(hint, title), body_html: content }),
            }
        },
    }
}

/// What a fetched reply leads to: a failed fetch ends the item; a document is
/// handed to extraction.
pub open spec fn after_fetch(
    url: Seq<char>,
    hint: Option<Seq<char>>,
    summarize: bool,
    reply: FetchReplyView,
) -> ItemView {
    match document_of(reply) {
        Err(error) => ItemView::Done { outcome: Err(FailureView::FetchFailed(error)) },
        Ok(html) => after_extracting(
            url,
            hint,
            summarize,
            readable_article(html, Some(url), MAX_ELEMENTS),
        ),
    }
}

/// The item once the summariser's markup is rendered: the attributed summary
/// is the article's body.
pub open spec fn summarized(url: Seq<char>, title: Seq<char>, rendered: Seq<char>) -> ItemView {
    ItemView::Done {
        outcome: Ok(ArticleView { title, body_html: summary_body_text(url, rendered) }),
    }
}

/// What the summariser's output leads to: the summary, without the white
/// space around it, with its attribution as the article's body; or a failure
/// that carries what the summariser reported. The extracted content never
/// stands in for a summary that could not be made.
pub open spec fn after_summary(
    url: Seq<char>,
    title: Seq<char>,
    output: ToolOutputView,
) -> ItemView {
    if tool_succeeded(output) {
        summarized(url, title, markdown_html(trimmed(output.stdout)))
    } else {
        ItemView::Done { outcome: Err(FailureView::TransformFailed(trimmed(output.stderr))) }
    }
}

/// The item after an event. An event that is not the one due changes
/// nothing.
pub open spec fn item_step(state: ItemView, event: ItemEventView) -> ItemView {
    match state {
        ItemView::AwaitingFetch { url, hint, summarize } => match event {
            ItemEventView::Fetched(reply) => after_fetch(url, hint, summarize, reply),
            _ => state,
        },
        ItemView::AwaitingSummary { url, title, content } => match event {
            ItemEventView::Summarized(output) => after_summary(url, title, output),
            _ => state,
        },
        ItemView::Done { .. } => state,
    }
}

/// What is due in a state. A fetch follows ten redirects at most.
pub open spec fn item_action(state: ItemView) -> ItemActionView {
    match state {
        ItemView::AwaitingFetch { url, .. } => ItemActionView::Fetch {
            url,
            max_redirects: MAX_REDIRECTS,
        },
        ItemView::AwaitingSummary { content, .. } => ItemActionView::Summarize { content },
        ItemView::Done { .. } => ItemActionView::Finish,
    }
}

/// How many stages lie ahead of a state at most.
pub open spec fn stages_ahead(state: ItemView) -> nat {
    match state {
        ItemView::AwaitingFetch { .. } => 2,
        ItemView::AwaitingSummary { .. } => 1,
        ItemView::Done { .. } => 0,
    }
}

/// The outcome of an item that is done.
pub open spec fn item_outcome(state: ItemView) -> Option<Result<ArticleView, FailureView>> {
    match state {
        ItemView::Done { outcome } => Some(outcome),
        _ => None,
    }
}

/// The view of an outcome that may not be there yet.
pub open spec fn pending_outcome_view(outcome: Option<Result<ProcessedArticle, ItemFailure>>)
    -> Option<Result<ArticleView, FailureView>> {
    match outcome {
        Some(known) => Some(outcome_view(known)),
        None => None,
    }
}

impl ItemProcessor {
    /// The first stage for a candidate whose address was normalised with
    /// the given result.
    pub fn normalized(candidate: &CandidateItem, summarize: bool, normal: Result<String, String>)
        -> (item: ItemProcessor)
        ensures
            item@ == after_normalizing(candidate@, summarize, text_result_view(normal)),
    {
        match normal {
            Ok(url) => {
                let hint = match &candidate.display_hint {
                    Some(title) => Some(title.clone()),
                    None => None,
                };
                ItemProcessor::AwaitingFetch { url, hint, summarize }
            },
            Err(message) => ItemProcessor::Done { outcome: Err(ItemFailure::InvalidUrl(message)) },
        }
    }

    /// Takes up a candidate: its address is brought into canonical form.
    /// `summarize` says whether a summary is to take the article's place.
    pub fn start(candidate: &CandidateItem, summarize: bool) -> (item: ItemProcessor)
        ensures
            item@ == started(candidate@, summarize),
    {
        ItemProcessor::normalized(
            candidate,
            summarize,
            normalize_url(candidate.source_url.as_str()),
        )
    }

    /// The stage after extraction gave an article, or none, for the document
    /// at `url`.
    pub fn extracted(
        url: String,
        hint: Option<String>,
        summarize: bool,
        article: Option<ProcessedArticle>,
    ) -> (item: ItemProcessor)
        ensures
            item@ == after_extracting(url@, hint.deep_view(), summarize, article_pair(article)),
    {
        match article {
            None => ItemProcessor::Done { outcome: Err(ItemFailure::ExtractionFailed) },
            Some(found) => {
                let title = match hint {
                    Some(given) => given,
                    None => found.title,
                };
                if summarize {
                    ItemProcessor::AwaitingSummary { url, title, content: found.body_html }
                } else {
                    ItemProcessor::Done {
                        outcome: Ok(ProcessedArticle { title, body_html: found.body_html }),
                    }
                }
            },
        }
    }

    /// The last stage of a summarised item, from the rendered markup of the
    /// summary.
    pub fn rendered(url: &str, title: String, rendered: &str) -> (item: ItemProcessor)
        ensures
            item@ == summarized(url@, title@, rendered@),
    {
        let body_html = attributed_body(url, rendered);
        ItemProcessor::Done { outcome: Ok(ProcessedArticle { title, body_html }) }
    }

    /// What the caller is to do next.
    pub fn pending(&self) -> (action: ItemAction)
        ensures
            action@ == item_action(self@),
    {
        match self {
            ItemProcessor::AwaitingFetch { url, .. } => ItemAction::Fetch {
                url: url.clone(),
                max_redirects: MAX_REDIRECTS,
            },
            ItemProcessor::AwaitingSummary { content, .. } => ItemAction::Summarize {
                content: content.clone(),
            },
            ItemProcessor::Done { .. } => ItemAction::Finish,
        }
    }

    /// Takes what came of the action that was due and moves on.
    pub fn advance(self, event: ItemEvent) -> (next: ItemProcessor)
        ensures
            next@ == item_step(self@, event@),
    {
        match self {
            ItemProcessor::AwaitingFetch { url, hint, summarize } => match event {
                ItemEvent::Fetched(reply) => match fetched_document(reply) {
                    Err(error) => ItemProcessor::Done {
                        outcome: Err(ItemFailure::FetchFailed(error)),
                    },
                    Ok(html) => {
                        let article = extract_article(html.as_str(), Some(url.as_str()));
                        ItemProcessor::extracted(url, hint, summarize, article)
                    },
                },
                ItemEvent::Summarized(output) => ItemProcessor::AwaitingFetch {
                    url,
                    hint,
                    summarize,
                },
            },
            ItemProcessor::AwaitingSummary { url, title, content } => match event {
                ItemEvent::Summarized(output) => {
                    let succeeded = match output.exit_code {
                        Some(code) => code == 0,
                        None => false,
                    };
                    if succeeded {
                        let summary = trim(output.stdout.as_str());
                        let markup = markdown_to_html(summary.as_str());
                        ItemProcessor::rendered(url.as_str(), title, markup.as_str())
                    } else {
                        ItemProcessor::Done {
                            outcome: Err(
                                ItemFailure::TransformFailed(trim(output.stderr.as_str())),
                            ),
                        }
                    }
                },
                ItemEvent::Fetched(reply) => ItemProcessor::AwaitingSummary { url, title, content },
            },
            ItemProcessor::Done { outcome } => ItemProcessor::Done { outcome },
        }
    }

    /// The outcome, once the item is done: exactly one article, or the
    /// failure that ended it.
    pub fn outcome(self) -> (outcome: Option<Result<ProcessedArticle, ItemFailure>>)
        ensures
            pending_outcome_view(outcome) == item_outcome(self@),
    {
        match self {
            ItemProcessor::Done { outcome } => Some(outcome),
            _ => None,
        }
    }
}

/// The stages never go back: no event takes an item to an earlier stage,
/// the event that is due takes it to a later one, and an item that is done
/// stays as it is.
pub proof fn law_stages_never_go_back(state: ItemView, event: ItemEventView)
    ensures
        stages_ahead(item_step(state, event)) <= stages_ahead(state),
        (state is AwaitingFetch && event is Fetched) || (state is AwaitingSummary
            && event is Summarized) ==> stages_ahead(item_step(state, event)) < stages_ahead(
            state,
        ),
        state is Done ==> item_step(state, event) == state,
{
}

/// Where a summary was asked for, the item succeeds only with the summary:
/// whatever the summariser returns, the body of the article is the
/// attributed summary, never the extracted content.
pub proof fn law_summary_is_never_replaced(
    url: Seq<char>,
    title: Seq<char>,
    content: Seq<char>,
    event: ItemEventView,
)
    ensures
        match item_outcome(item_step(ItemView::AwaitingSummary { url, title, content }, event)) {
            Some(Ok(article)) => event matches ItemEventView::Summarized(output) && tool_succeeded(
                output,
            ) && article.body_html == summary_body_text(
                url,
                markdown_html(trimmed(output.stdout)),
            ),
            Some(Err(failure)) => failure is TransformFailed,
            None => !(event is Summarized),
        },
{
}

} // verus!
