//! Canonical URLs and the classification of what a fetch brought back.
//! The request itself is made by the caller; this module says which URL to
//! ask for, how the client presents itself, and what a reply means.

use crate::item::{CandidateItem, CandidateView, FetchError, FetchErrorView};
use vstd::prelude::*;
use vstd::string::*;

verus! {

/// What `url::Url::parse` makes of a text: the serialisation of the parsed
/// URL, or the message of the parse error.
pub uninterp spec fn parsed_url(input: Seq<char>) -> Result<Seq<char>, Seq<char>>;

/// The view of a result whose two sides are both text.
pub open spec fn text_result_view(result: Result<String, String>) -> Result<Seq<char>, Seq<char>> {
    match result {
        Ok(text) => Ok(text@),
        Err(text) => Err(text@),
    }
}

/// Brings a URL into its canonical absolute form, with unsafe characters
/// percent-encoded; the error carries the parser's message.
///
/// Trusted: the body calls `url::Url::parse` and renders its result as text,
/// the parsed URL through its `Display` impl and a `url::ParseError` through
/// its own. Both are functions of the input alone; the contract names that
/// result and claims nothing else of it.
#[verifier::external_body]
pub fn normalize_url(input: &str) -> (normal: Result<String, String>)
    ensures
        text_result_view(normal) == parsed_url(input@),
{
    match url::Url::parse(input) {
        Ok(url) => Ok(url.to_string()),
        Err(error) => Err(error.to_string()),
    }
}

/// The largest number of redirects that one fetch may follow.
pub const MAX_REDIRECTS: usize = 10;

/// The signature by which the client identifies itself, for the operating
/// system named by `os`.
pub open spec fn user_agent_text(os: Seq<char>) -> Seq<char> {
    "rmfeeder/0.1 (+https://example.com; rust; "@ + os + ")"@
}

/// Builds the client signature for the operating system named by `os`.
pub fn default_user_agent(os: &str) -> (agent: String)
    ensures
        agent@ == user_agent_text(os@),
{
    let mut agent = String::from_str("rmfeeder/0.1 (+https://example.com; rust; ");
    agent.append(os);
    agent.append(")");
    agent
}

/// What came back from one attempt to fetch a document.
#[derive(Debug, PartialEq, Eq)]
pub enum FetchReply {
    /// The server answered.
    Response { status: u16, body: String },
    /// No answer: the transport's own message.
    Failed { detail: String },
}

/// `FetchReply` as mathematical text.
pub enum FetchReplyView {
    Response { status: u16, body: Seq<char> },
    Failed { detail: Seq<char> },
}

impl View for FetchReply {
    type V = FetchReplyView;

    open spec fn view(&self) -> FetchReplyView {
        match self {
            FetchReply::Response { status, body } => FetchReplyView::Response {
                status: *status,
                body: body@,
            },
            FetchReply::Failed { detail } => FetchReplyView::Failed { detail: detail@ },
        }
    }
}

impl DeepView for FetchReply {
    type V = FetchReplyView;

    open spec fn deep_view(&self) -> FetchReplyView {
        self.view()
    }
}

/// Whether a status code reports success.
pub open spec fn is_success(status: u16) -> bool {
    200 <= status <= 299
}

/// The document that a reply delivers, or the reason why it delivers none:
/// any status outside 200..=299 is a failure, and 403 is told apart from the
/// others.
pub open spec fn document_of(reply: FetchReplyView) -> Result<Seq<char>, FetchErrorView> {
    match reply {
        FetchReplyView::Response { status, body } => {
            if is_success(status) {
                Ok(body)
            } else if status == 403 {
                Err(FetchErrorView::Forbidden)
            } else {
                Err(FetchErrorView::Status(status))
            }
        },
        FetchReplyView::Failed { detail } => Err(FetchErrorView::Transport(detail)),
    }
}

/// The view of a fetched document or its failure.
pub open spec fn document_view(document: Result<String, FetchError>) -> Result<
    Seq<char>,
    FetchErrorView,
> {
    match document {
        Ok(body) => Ok(body@),
        Err(error) => Err(error@),
    }
}

/// Classifies a reply: the body of a successful response, or the failure.
pub fn fetched_document(reply: FetchReply) -> (document: Result<String, FetchError>)
    ensures
        document_view(document) == document_of(reply@),
{
    match reply {
        FetchReply::Response { status, body } => {
            if 200 <= status && status <= 299 {
                Ok(body)
            } else if status == 403 {
                Err(FetchError::Forbidden)
            } else {
                Err(FetchError::Status(status))
            }
        },
        FetchReply::Failed { detail } => Err(FetchError::Transport(detail)),
    }
}

/// The candidate for a plain address whose canonical form, or the lack of
/// it, is known. Its identifier is the canonical form, so that two spellings
/// of one address are one item; an address without canonical form is its own
/// identifier.
pub open spec fn keyed_candidate(url: Seq<char>, normal: Result<Seq<char>, Seq<char>>)
    -> CandidateView {
    CandidateView {
        identifier: match normal {
            Ok(canonical) => canonical,
            Err(message) => url,
        },
        source_url: url,
        display_hint: None,
    }
}

/// The candidate for a plain address.
pub open spec fn url_candidate(url: Seq<char>) -> CandidateView {
    keyed_candidate(url, parsed_url(url))
}

/// Makes the candidate for a plain address from the address and what
/// normalising it gave.
pub fn candidate_with_key(url: &str, normal: Result<String, String>) -> (candidate: CandidateItem)
    ensures
        candidate@ == keyed_candidate(url@, text_result_view(normal)),
{
    let identifier = match normal {
        Ok(canonical) => canonical,
        Err(message) => String::from_str(url),
    };
    CandidateItem { identifier, source_url: String::from_str(url), display_hint: None }
}

/// Makes the candidate for a plain address.
pub fn candidate_for_url(url: &str) -> (candidate: CandidateItem)
    ensures
        candidate@ == url_candidate(url@),
{
    candidate_with_key(url, normalize_url(url))
}

/// The candidates for a list of plain addresses, in its order.
pub open spec fn url_candidates(urls: Seq<Seq<char>>) -> Seq<CandidateView> {
    urls.map_values(|url: Seq<char>| url_candidate(url))
}

/// Makes the candidates for a list of plain addresses.
pub fn candidates_for_urls(urls: &Vec<String>) -> (candidates: Vec<CandidateItem>)
    ensures
        candidates.deep_view() == url_candidates(urls.deep_view()),
{
    let mut candidates: Vec<CandidateItem> = Vec::new();
    let mut i: usize = 0;
    while i < urls.len()
        invariant
            i <= urls.len(),
            candidates.len() == i,
            forall|j: int|
                0 <= j < i ==> (#[trigger] candidates[j])@ == url_candidate(urls.deep_view()[j]),
        decreases urls.len() - i,
    {
        let candidate = candidate_for_url(urls[i].as_str());
        candidates.push(candidate);
        i = i + 1;
    }
    candidates
}

} // verus!
