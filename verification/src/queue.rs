//! The queue variant of the source reader: one candidate for each entry of an
//! external listing, such as a watch-later playlist.

use crate::item::{CandidateItem, CandidateView};
use crate::text::{same_text, starts_with};
use vstd::prelude::*;
use vstd::string::*;

verus! {

/// One entry of the listing, with the fields as the lister wrote them.
#[derive(Debug, PartialEq, Eq)]
pub struct QueueEntry {
    pub title: Option<String>,
    pub webpage_url: Option<String>,
    pub url: Option<String>,
    pub id: Option<String>,
}

/// What a `QueueEntry` holds, as mathematical text.
pub struct QueueEntryView {
    pub title: Option<Seq<char>>,
    pub webpage_url: Option<Seq<char>>,
    pub url: Option<Seq<char>>,
    pub id: Option<Seq<char>>,
}

impl View for QueueEntry {
    type V = QueueEntryView;

    open spec fn view(&self) -> QueueEntryView {
        QueueEntryView {
            title: self.title.deep_view(),
            webpage_url: self.webpage_url.deep_view(),
            url: self.url.deep_view(),
            id: self.id.deep_view(),
        }
    }
}

impl DeepView for QueueEntry {
    type V = QueueEntryView;

    open spec fn deep_view(&self) -> QueueEntryView {
        self.view()
    }
}

/// Whether a text already looks like an absolute HTTP or HTTPS address.
pub open spec fn looks_absolute(text: Seq<char>) -> bool {
    "http://"@.is_prefix_of(text) || "https://"@.is_prefix_of(text)
}

/// The watch address for a bare video identifier.
pub open spec fn watch_url(id: Seq<char>) -> Seq<char> {
    "https://www.youtube.com/watch?v="@ + id
}

/// The address of an entry. The canonical page address wins; then the
/// playable address, taken as it is where it looks absolute and as a bare
/// identifier otherwise; then the identifier. An entry with none of the three
/// has no address.
pub open spec fn resolved_url(entry: QueueEntryView) -> Option<Seq<char>> {
    match entry.webpage_url {
        Some(page) => Some(page),
        None => match entry.url {
            Some(playable) => if looks_absolute(playable) {
                Some(playable)
            } else {
                Some(watch_url(playable))
            },
            None => match entry.id {
                Some(id) => Some(watch_url(id)),
                None => None,
            },
        },
    }
}

fn expand_id(id: &str) -> (url: String)
    ensures
        url@ == watch_url(id@),
{
    let mut url = String::from_str("https://www.youtube.com/watch?v=");
    url.append(id);
    url
}

/// Resolves the address of a queue entry.
pub fn resolve_video_url(entry: &QueueEntry) -> (url: Option<String>)
    ensures
        url.deep_view() == resolved_url(entry@),
{
    match &entry.webpage_url {
        Some(page) => Some(page.clone()),
        None => match &entry.url {
            Some(playable) => {
                if starts_with(playable.as_str(), "http://") || starts_with(
                    playable.as_str(),
                    "https://",
                ) {
                    Some(playable.clone())
                } else {
                    Some(expand_id(playable.as_str()))
                }
            },
            None => match &entry.id {
                Some(id) => Some(expand_id(id.as_str())),
                None => None,
            },
        },
    }
}

/// The key under which a queue item is remembered: its address within the
/// queue's own namespace, so that it cannot collide with a plain URL.
pub open spec fn queue_identifier(url: Seq<char>) -> Seq<char> {
    "yt::"@ + url
}

/// The title shown for an entry: its own, or a fixed one where it has none.
pub open spec fn queue_title(entry: QueueEntryView) -> Seq<char> {
    match entry.title {
        Some(title) => title,
        None => "Untitled Video"@,
    }
}

/// The candidate for an entry with the given address.
pub open spec fn queue_candidate(entry: QueueEntryView, url: Seq<char>) -> CandidateView {
    CandidateView {
        identifier: queue_identifier(url),
        source_url: url,
        display_hint: Some(queue_title(entry)),
    }
}

/// Whether a list of candidates holds one with the given identifier.
pub open spec fn has_identifier(candidates: Seq<CandidateView>, identifier: Seq<char>) -> bool {
    exists|i: int| 0 <= i < candidates.len() && #[trigger] candidates[i].identifier == identifier
}

/// The candidates of a listing, in its order: an entry without an address is
/// dropped, and so is an entry whose identifier an earlier entry already has.
pub open spec fn listed_candidates(entries: Seq<QueueEntryView>) -> Seq<CandidateView>
    decreases entries.len(),
{
    if entries.len() == 0 {
        Seq::<CandidateView>::empty()
    } else {
        let front = listed_candidates(entries.drop_last());
        match resolved_url(entries.last()) {
            None => front,
            Some(url) => if has_identifier(front, queue_identifier(url)) {
                front
            } else {
                front.push(queue_candidate(entries.last(), url))
            },
        }
    }
}

/// Tells whether a list of candidates holds one with the given identifier.
pub fn holds_identifier(candidates: &Vec<CandidateItem>, identifier: &str) -> (found: bool)
    ensures
        found == has_identifier(candidates.deep_view(), identifier@),
{
    let mut i: usize = 0;
    while i < candidates.len()
        invariant
            i <= candidates.len(),
            forall|j: int| 0 <= j < i ==> candidates.deep_view()[j].identifier != identifier@,
        decreases candidates.len() - i,
    {
        if same_text(candidates[i].identifier.as_str(), identifier) {
            assert(candidates.deep_view()[i as int].identifier == identifier@);
            return true;
        }
        i = i + 1;
    }
    false
}

/// Turns a listing into candidates, one for each entry that has an address
/// and whose identifier is new.
pub fn queue_candidates(entries: &Vec<QueueEntry>) -> (candidates: Vec<CandidateItem>)
    ensures
        candidates.deep_view() == listed_candidates(entries.deep_view()),
{
    let mut candidates: Vec<CandidateItem> = Vec::new();
    let mut i: usize = 0;
    while i < entries.len()
        invariant
            i <= entries.len(),
            candidates.deep_view() == listed_candidates(entries.deep_view().take(i as int)),
        decreases entries.len() - i,
    {
        let entry = &entries[i];
        proof {
            let upto = entries.deep_view().take(i as int + 1);
            assert(upto.drop_last() =~= entries.deep_view().take(i as int));
        }
        match resolve_video_url(entry) {
            None => {},
            Some(url) => {
                let mut identifier = String::from_str("yt::");
                identifier.append(url.as_str());
                if !holds_identifier(&candidates, identifier.as_str()) {
                    let title = match &entry.title {
                        Some(title) => title.clone(),
                        None => String::from_str("Untitled Video"),
                    };
                    let candidate = CandidateItem {
                        identifier,
                        source_url: url,
                        display_hint: Some(title),
                    };
                    candidates.push(candidate);
                }
            },
        }
        i = i + 1;
    }
    assert(entries.deep_view().take(entries.len() as int) =~= entries.deep_view());
    candidates
}

/// No two candidates of a listing have the same identifier.
pub proof fn law_listed_identifiers_differ(entries: Seq<QueueEntryView>)
    ensures
        forall|i: int, j: int|
            0 <= i < j < listed_candidates(entries).len() ==> #[trigger] listed_candidates(
                entries,
            )[i].identifier != #[trigger] listed_candidates(entries)[j].identifier,
    decreases entries.len(),
{
    if entries.len() > 0 {
        law_listed_identifiers_differ(entries.drop_last());
    }
}

} // verus!
