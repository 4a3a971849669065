//! The values that travel through the pipeline: candidates, finished articles
//! and the ways in which one item can fail.

use crate::text::{decimal, push_decimal};
use vstd::prelude::*;
use vstd::string::*;

verus! {

/// A unit of content proposed for inclusion, before anything was fetched.
#[derive(Debug, PartialEq, Eq)]
pub struct CandidateItem {
    /// The stable key by which deliveries are told apart.
    pub identifier: String,
    /// Where the content is to be fetched from.
    pub source_url: String,
    /// A title that the source already knows, if any.
    pub display_hint: Option<String>,
}

/// What a `CandidateItem` holds, as mathematical text.
pub struct CandidateView {
    pub identifier: Seq<char>,
    pub source_url: Seq<char>,
    pub display_hint: Option<Seq<char>>,
}

impl View for CandidateItem {
    type V = CandidateView;

    open spec fn view(&self) -> CandidateView {
        CandidateView {
            identifier: self.identifier@,
            source_url: self.source_url@,
            display_hint: self.display_hint.deep_view(),
        }
    }
}

impl DeepView for CandidateItem {
    type V = CandidateView;

    open spec fn deep_view(&self) -> CandidateView {
        self.view()
    }
}

impl Clone for CandidateItem {
    fn clone(&self) -> (copy: Self)
        ensures
            copy == *self,
    {
        CandidateItem {
            identifier: self.identifier.clone(),
            source_url: self.source_url.clone(),
            display_hint: match &self.display_hint {
                Some(hint) => Some(hint.clone()),
                None => None,
            },
        }
    }
}

/// One successfully processed item: a title and trusted body markup.
#[derive(Debug, PartialEq, Eq)]
pub struct ProcessedArticle {
    pub title: String,
    pub body_html: String,
}

/// What a `ProcessedArticle` holds, as mathematical text.
pub struct ArticleView {
    pub title: Seq<char>,
    pub body_html: Seq<char>,
}

impl View for ProcessedArticle {
    type V = ArticleView;

    open spec fn view(&self) -> ArticleView {
        ArticleView { title: self.title@, body_html: self.body_html@ }
    }
}

impl DeepView for ProcessedArticle {
    type V = ArticleView;

    open spec fn deep_view(&self) -> ArticleView {
        self.view()
    }
}

impl Clone for ProcessedArticle {
    fn clone(&self) -> (copy: Self)
        ensures
            copy == *self,
    {
        ProcessedArticle { title: self.title.clone(), body_html: self.body_html.clone() }
    }
}

/// Why a document could not be retrieved.
#[derive(Debug, PartialEq, Eq)]
pub enum FetchError {
    /// The server answered 403.
    Forbidden,
    /// The server answered with another status outside 200..=299.
    Status(u16),
    /// No answer was received at all.
    Transport(String),
}

/// `FetchError` as mathematical text.
pub enum FetchErrorView {
    Forbidden,
    Status(u16),
    Transport(Seq<char>),
}

impl View for FetchError {
    type V = FetchErrorView;

    open spec fn view(&self) -> FetchErrorView {
        match self {
            FetchError::Forbidden => FetchErrorView::Forbidden,
            FetchError::Status(code) => FetchErrorView::Status(*code),
            FetchError::Transport(detail) => FetchErrorView::Transport(detail@),
        }
    }
}

impl DeepView for FetchError {
    type V = FetchErrorView;

    open spec fn deep_view(&self) -> FetchErrorView {
        self.view()
    }
}

/// The sentence that reports a fetch failure.
pub open spec fn fetch_error_text(error: FetchErrorView) -> Seq<char> {
    match error {
        FetchErrorView::Forbidden => "Request failed with status 403 (forbidden)"@,
        FetchErrorView::Status(code) => "Request failed with status "@ + decimal(code as nat),
        FetchErrorView::Transport(detail) => detail,
    }
}

impl FetchError {
    /// The sentence that reports this failure.
    pub fn describe(&self) -> (text: String)
        ensures
            text@ == fetch_error_text(self@),
    {
        match self {
            FetchError::Forbidden => String::from_str("Request failed with status 403 (forbidden)"),
            FetchError::Status(code) => {
                let mut text = String::from_str("Request failed with status ");
                push_decimal(&mut text, *code as u64);
                text
            },
            FetchError::Transport(detail) => detail.clone(),
        }
    }
}

/// The stage at which an item was dropped, and why.
#[derive(Debug, PartialEq, Eq)]
pub enum ItemFailure {
    /// The source URL has no canonical form.
    InvalidUrl(String),
    /// The document could not be retrieved.
    FetchFailed(FetchError),
    /// The document holds no readable article.
    ExtractionFailed,
    /// The requested summary could not be produced.
    TransformFailed(String),
}

/// `ItemFailure` as mathematical text.
pub enum FailureView {
    InvalidUrl(Seq<char>),
    FetchFailed(FetchErrorView),
    ExtractionFailed,
    TransformFailed(Seq<char>),
}

impl View for ItemFailure {
    type V = FailureView;

    open spec fn view(&self) -> FailureView {
        match self {
            ItemFailure::InvalidUrl(detail) => FailureView::InvalidUrl(detail@),
            ItemFailure::FetchFailed(error) => FailureView::FetchFailed(error@),
            ItemFailure::ExtractionFailed => FailureView::ExtractionFailed,
            ItemFailure::TransformFailed(detail) => FailureView::TransformFailed(detail@),
        }
    }
}

impl DeepView for ItemFailure {
    type V = FailureView;

    open spec fn deep_view(&self) -> FailureView {
        self.view()
    }
}

/// The sentence that reports why an item was dropped.
pub open spec fn failure_text(failure: FailureView) -> Seq<char> {
    match failure {
        FailureView::InvalidUrl(detail) => "invalid URL: "@ + detail,
        FailureView::FetchFailed(error) => "fetch failed: "@ + fetch_error_text(error),
        FailureView::ExtractionFailed => "no readable content"@,
        FailureView::TransformFailed(detail) => "summary failed: "@ + detail,
    }
}

impl ItemFailure {
    /// The sentence that reports this failure.
    pub fn describe(&self) -> (text: String)
        ensures
            text@ == failure_text(self@),
    {
        match self {
            ItemFailure::InvalidUrl(detail) => {
                let mut text = String::from_str("invalid URL: ");
                text.append(detail.as_str());
                text
            },
            ItemFailure::FetchFailed(error) => {
                let mut text = String::from_str("fetch failed: ");
                let reason = error.describe();
                text.append(reason.as_str());
                text
            },
            ItemFailure::ExtractionFailed => String::from_str("no readable content"),
            ItemFailure::TransformFailed(detail) => {
                let mut text = String::from_str("summary failed: ");
                text.append(detail.as_str());
                text
            },
        }
    }
}

/// The view of an item's outcome.
pub open spec fn outcome_view(outcome: Result<ProcessedArticle, ItemFailure>) -> Result<
    ArticleView,
    FailureView,
> {
    match outcome {
        Ok(article) => Ok(article@),
        Err(failure) => Err(failure@),
    }
}

} // verus!
