//! The feed-list variant of the source reader: the feeds that a subscription
//! list names, and the links of the newest entries of one feed. The feed
//! documents are fetched and parsed by the caller, who hands their entries in.

use crate::fetcher::{candidates_for_urls, url_candidates};
use crate::item::{CandidateItem, CandidateView};
use crate::text::{
    ascending, law_ascending_holds_each_once, lemma_ascending_list_is_unique,
    lemma_text_order_is_transitive, order_texts, same_text, text_before, TextOrder,
};
use vstd::prelude::*;

verus! {

/// One node of an XML document: its local tag name (empty for a node that is
/// no element) and the value of one attribute, if the node has it.
#[derive(Debug, PartialEq, Eq)]
pub struct XmlNode {
    pub name: String,
    pub attribute: Option<String>,
}

/// What an `XmlNode` holds, as mathematical text.
pub struct XmlNodeView {
    pub name: Seq<char>,
    pub attribute: Option<Seq<char>>,
}

impl View for XmlNode {
    type V = XmlNodeView;

    open spec fn view(&self) -> XmlNodeView {
        XmlNodeView { name: self.name@, attribute: self.attribute.deep_view() }
    }
}

impl DeepView for XmlNode {
    type V = XmlNodeView;

    open spec fn deep_view(&self) -> XmlNodeView {
        self.view()
    }
}

/// What `roxmltree` reads in a document: every node in document order, each
/// with its local tag name and with the value of its first attribute of the
/// given local name; or the message of the parse error.
pub uninterp spec fn xml_nodes(document: Seq<char>, attribute: Seq<char>) -> Result<
    Seq<XmlNodeView>,
    Seq<char>,
>;

/// The view of the nodes of a document or of the parser's message.
pub open spec fn nodes_view(nodes: Result<Vec<XmlNode>, String>) -> Result<
    Seq<XmlNodeView>,
    Seq<char>,
> {
    match nodes {
        Ok(list) => Ok(list.deep_view()),
        Err(message) => Err(message@),
    }
}

/// Parses a document with `roxmltree::Document::parse` and walks it with
/// `descendants`, which visits the root and every node below it in document
/// order. Of each node it keeps `tag_name().name()`, the local name, which is
/// empty for a node that is no element, and `attribute(..)` for the given
/// name, which is the value of the first attribute with that local name. A
/// parse error is kept as its message. All of this depends on the two
/// arguments alone; the contract names it.
#[verifier::external_body]
fn read_xml_nodes(document: &str, attribute: &str) -> (nodes: Result<Vec<XmlNode>, String>)
    ensures
        nodes_view(nodes) == xml_nodes(document@, attribute@),
{
    match roxmltree::Document::parse(document) {
        Ok(tree) => Ok(
            tree.descendants().map(
                |node|
                    XmlNode {
                        name: node.tag_name().name().to_string(),
                        attribute: node.attribute(attribute).map(|value| value.to_string()),
                    },
            ).collect(),
        ),
        Err(error) => Err(error.to_string()),
    }
}

/// The feed addresses that a list of nodes names: the attribute values of
/// the `outline` elements that have one, in document order.
pub open spec fn outline_urls(nodes: Seq<XmlNodeView>) -> Seq<Seq<char>>
    decreases nodes.len(),
{
    if nodes.len() == 0 {
        Seq::<Seq<char>>::empty()
    } else {
        let front = outline_urls(nodes.drop_last());
        match nodes.last().attribute {
            Some(url) => if nodes.last().name == "outline"@ {
                front.push(url)
            } else {
                front
            },
            None => front,
        }
    }
}

/// Whether a list is the feed list for parsed nodes: it holds the addresses
/// that the nodes name, and no other, in ascending order and so each of them
/// once. The addresses are taken as they are written.
pub open spec fn lists_feeds(urls: Seq<Seq<char>>, nodes: Seq<XmlNodeView>) -> bool {
    ascending(urls) && urls.to_set() == outline_urls(nodes).to_set()
}

/// The feed list for parsed nodes.
pub open spec fn feed_list(nodes: Seq<XmlNodeView>) -> Seq<Seq<char>> {
    choose|urls: Seq<Seq<char>>| lists_feeds(urls, nodes)
}

/// The feeds of a subscription list: the `xmlUrl` of every `outline`
/// element, each address once, in ascending order. A list that is no
/// well-formed XML gives the parser's message.
pub open spec fn listed_feeds(opml: Seq<char>) -> Result<Seq<Seq<char>>, Seq<char>> {
    match xml_nodes(opml, "xmlUrl"@) {
        Ok(nodes) => Ok(feed_list(nodes)),
        Err(message) => Err(message),
    }
}

/// The view of a list of texts or of a message.
pub open spec fn texts_view(texts: Result<Vec<String>, String>) -> Result<
    Seq<Seq<char>>,
    Seq<char>,
> {
    match texts {
        Ok(list) => Ok(list.deep_view()),
        Err(message) => Err(message@),
    }
}

/// Puts a text into an ascending list at its place, unless the list holds it
/// already.
fn insert_ascending(list: &mut Vec<String>, text: String)
    requires
        ascending(old(list).deep_view()),
    ensures
        ascending(final(list).deep_view()),
        final(list).deep_view().to_set() == old(list).deep_view().to_set().insert(text@),
{
    let ghost before = list.deep_view();
    let mut place: usize = 0;
    let mut stop = false;
    let mut present = false;
    while place < list.len() && !stop
        invariant
            place <= list.len(),
            before == list.deep_view(),
            forall|k: int| 0 <= k < place ==> text_before(#[trigger] before[k], text@),
            stop ==> place < list.len() && if present {
                before[place as int] == text@
            } else {
                text_before(text@, before[place as int])
            },
            !stop ==> !present,
        decreases list.len() - place + if stop { 0int } else { 1int },
    {
        match order_texts(list[place].as_str(), text.as_str()) {
            TextOrder::Before => {
                place = place + 1;
            },
            TextOrder::Same => {
                present = true;
                stop = true;
            },
            TextOrder::After => {
                stop = true;
            },
        }
    }
    if present {
        assert(before.to_set().insert(text@) =~= before.to_set()) by {
            assert(before.contains(text@));
        }
    } else {
        list.insert(place, text);
        proof {
            let after = list.deep_view();
            assert(after =~= before.insert(place as int, text@));
            assert forall|i: int, j: int| 0 <= i < j < after.len() implies text_before(
                #[trigger] after[i],
                #[trigger] after[j],
            ) by {
                if j < place {
                    assert(after[i] == before[i] && after[j] == before[j]);
                } else if j == place {
                    assert(after[i] == before[i]);
                } else if i < place {
                    assert(after[i] == before[i] && after[j] == before[j - 1]);
                } else if i == place {
                    assert(after[j] == before[j - 1]);
                    if j - 1 > place {
                        lemma_text_order_is_transitive(
                            text@,
                            before[place as int],
                            before[j - 1],
                        );
                    }
                } else {
                    assert(after[i] == before[i - 1] && after[j] == before[j - 1]);
                }
            }
            assert forall|item: Seq<char>| after.to_set().contains(item) == before.to_set().insert(
                text@,
            ).contains(item) by {
                if before.contains(item) {
                    let k = choose|k: int| 0 <= k < before.len() && before[k] == item;
                    if k < place {
                        assert(after[k] == item);
                    } else {
                        assert(after[k + 1] == item);
                    }
                }
                if item == text@ {
                    assert(after[place as int] == item);
                }
                if after.contains(item) {
                    let k = choose|k: int| 0 <= k < after.len() && after[k] == item;
                    if k < place {
                        assert(before[k] == item);
                    } else if k > place {
                        assert(before[k - 1] == item);
                    }
                }
            }
            assert(after.to_set() =~= before.to_set().insert(text@));
        }
    }
}

/// The feed addresses named by already parsed nodes: each once, in
/// ascending order.
pub fn feed_urls_of(nodes: &Vec<XmlNode>) -> (urls: Vec<String>)
    ensures
        ascending(urls.deep_view()),
        urls.deep_view().no_duplicates(),
        urls.deep_view().to_set() == outline_urls(nodes.deep_view()).to_set(),
        urls.deep_view() == feed_list(nodes.deep_view()),
{
    let mut urls: Vec<String> = Vec::new();
    let mut i: usize = 0;
    assert(nodes.deep_view().take(0) =~= Seq::<XmlNodeView>::empty());
    assert(urls.deep_view().to_set() =~= outline_urls(nodes.deep_view().take(0)).to_set());
    while i < nodes.len()
        invariant
            i <= nodes.len(),
            ascending(urls.deep_view()),
            urls.deep_view().to_set() == outline_urls(nodes.deep_view().take(i as int)).to_set(),
        decreases nodes.len() - i,
    {
        let node = &nodes[i];
        proof {
            let upto = nodes.deep_view().take(i as int + 1);
            assert(upto.drop_last() =~= nodes.deep_view().take(i as int));
            assert(upto.last() == node@);
            let front = outline_urls(upto.drop_last());
            if node@.attribute is Some && node@.name == "outline"@ {
                let url = node@.attribute->0;
                assert(outline_urls(upto) == front.push(url));
                assert forall|item: Seq<char>| front.push(url).to_set().contains(item)
                    == front.to_set().insert(url).contains(item) by {
                    if front.contains(item) {
                        let k = choose|k: int| 0 <= k < front.len() && front[k] == item;
                        assert(front.push(url)[k] == item);
                    }
                    if item == url {
                        assert(front.push(url)[front.len() as int] == item);
                    }
                }
                assert(front.push(url).to_set() =~= front.to_set().insert(url));
            }
        }
        match &node.attribute {
            Some(url) => {
                if same_text(node.name.as_str(), "outline") {
                    insert_ascending(&mut urls, url.clone());
                }
            },
            None => {},
        }
        i = i + 1;
    }
    proof {
        assert(nodes.deep_view().take(nodes.len() as int) =~= nodes.deep_view());
        let chosen = feed_list(nodes.deep_view());
        assert(lists_feeds(urls.deep_view(), nodes.deep_view()));
        lemma_ascending_list_is_unique(urls.deep_view(), chosen);
        law_ascending_holds_each_once(urls.deep_view());
    }
    urls
}

/// Reads the feeds that a subscription list names: the address of every
/// `outline` element that has one, at any depth, as it is written; each
/// address once, in ascending order.
pub fn load_opml_feed_urls(opml: &str) -> (urls: Result<Vec<String>, String>)
    ensures
        texts_view(urls) == listed_feeds(opml@),
        match xml_nodes(opml@, "xmlUrl"@) {
            Ok(nodes) => urls matches Ok(list) && ascending(list.deep_view())
                && list.deep_view().to_set() == outline_urls(nodes).to_set(),
            Err(message) => urls matches Err(error) && error@ == message,
        },
{
    match read_xml_nodes(opml, "xmlUrl") {
        Ok(nodes) => Ok(feed_urls_of(&nodes)),
        Err(message) => Err(message),
    }
}

/// One link of a feed entry.
#[derive(Debug, PartialEq, Eq)]
pub struct FeedLink {
    pub href: String,
    /// The relation that the feed states for the link, if any.
    pub rel: Option<String>,
}

/// What a `FeedLink` holds, as mathematical text.
pub struct FeedLinkView {
    pub href: Seq<char>,
    pub rel: Option<Seq<char>>,
}

impl View for FeedLink {
    type V = FeedLinkView;

    open spec fn view(&self) -> FeedLinkView {
        FeedLinkView { href: self.href@, rel: self.rel.deep_view() }
    }
}

impl DeepView for FeedLink {
    type V = FeedLinkView;

    open spec fn deep_view(&self) -> FeedLinkView {
        self.view()
    }
}

/// One entry of a feed: its times in seconds since the epoch, and its links
/// in the feed's order.
#[derive(Debug, PartialEq, Eq)]
pub struct FeedEntry {
    pub published: Option<i64>,
    pub updated: Option<i64>,
    pub links: Vec<FeedLink>,
}

/// What a `FeedEntry` holds, as mathematical values.
pub struct FeedEntryView {
    pub published: Option<i64>,
    pub updated: Option<i64>,
    pub links: Seq<FeedLinkView>,
}

impl View for FeedEntry {
    type V = FeedEntryView;

    open spec fn view(&self) -> FeedEntryView {
        FeedEntryView {
            published: self.published,
            updated: self.updated,
            links: self.links.deep_view(),
        }
    }
}

impl DeepView for FeedEntry {
    type V = FeedEntryView;

    open spec fn deep_view(&self) -> FeedEntryView {
        self.view()
    }
}

/// The time by which an entry is ordered: when it was published, else when
/// it was updated, else the epoch.
pub open spec fn timestamp_of(entry: FeedEntryView) -> i64 {
    match entry.published {
        Some(time) => time,
        None => match entry.updated {
            Some(time) => time,
            None => 0,
        },
    }
}

/// The time by which an entry is ordered.
pub fn entry_timestamp(entry: &FeedEntry) -> (time: i64)
    ensures
        time == timestamp_of(entry@),
{
    match entry.published {
        Some(time) => time,
        None => match entry.updated {
            Some(time) => time,
            None => 0,
        },
    }
}

/// The address of the first link that is marked as the alternate relation.
pub open spec fn first_alternate(links: Seq<FeedLinkView>) -> Option<Seq<char>>
    decreases links.len(),
{
    if links.len() == 0 {
        None
    } else if links[0].rel == Some("alternate"@) {
        Some(links[0].href)
    } else {
        first_alternate(links.drop_first())
    }
}

/// The link that stands for an entry: the first one marked as alternate, or
/// the first link where none is marked so; nothing for an entry without
/// links.
pub open spec fn representative_link(entry: FeedEntryView) -> Option<Seq<char>> {
    match first_alternate(entry.links) {
        Some(href) => Some(href),
        None => if entry.links.len() > 0 {
            Some(entry.links[0].href)
        } else {
            None
        },
    }
}

/// Picks the link that stands for an entry.
pub fn pick_entry_link(entry: &FeedEntry) -> (link: Option<String>)
    ensures
        link.deep_view() == representative_link(entry@),
{
    let mut i: usize = 0;
    assert(entry@.links.skip(0) =~= entry@.links);
    while i < entry.links.len()
        invariant
            i <= entry.links.len(),
            first_alternate(entry@.links) == first_alternate(entry@.links.skip(i as int)),
        decreases entry.links.len() - i,
    {
        let link = &entry.links[i];
        assert(entry@.links.skip(i as int)[0] == link@);
        assert(entry@.links.skip(i as int).drop_first() =~= entry@.links.skip(i as int + 1));
        let marked = match &link.rel {
            Some(rel) => same_text(rel.as_str(), "alternate"),
            None => false,
        };
        if marked {
            return Some(link.href.clone());
        }
        i = i + 1;
    }
    if entry.links.len() > 0 {
        Some(entry.links[0].href.clone())
    } else {
        None
    }
}

/// Whether the entry at place `i` of a feed is listed before the one at place
/// `j`: the later time first, and of two equal times the one that the feed
/// has first.
pub open spec fn comes_before(entries: Seq<FeedEntryView>, i: int, j: int) -> bool {
    timestamp_of(entries[i]) > timestamp_of(entries[j]) || (timestamp_of(entries[i])
        == timestamp_of(entries[j]) && i < j)
}

/// Whether `order` lists the first `count` places of a feed, each of them
/// once, newest first.
pub open spec fn lists_newest_first(entries: Seq<FeedEntryView>, order: Seq<usize>, count: int) -> bool {
    &&& order.len() == count
    &&& forall|k: int| 0 <= k < order.len() ==> 0 <= #[trigger] order[k] < count
    &&& forall|i: usize| i < count ==> #[trigger] order.contains(i)
    &&& forall|k: int, l: int|
        0 <= k < l < order.len() ==> comes_before(
            entries,
            #[trigger] order[k] as int,
            #[trigger] order[l] as int,
        )
}

/// The places of a feed's entries in the order in which they are selected:
/// by descending time, entries of equal time in the feed's own order.
pub open spec fn newest_first(entries: Seq<FeedEntryView>) -> Seq<usize> {
    choose|order: Seq<usize>| lists_newest_first(entries, order, entries.len() as int)
}

/// There is only one way to list the places newest first.
pub proof fn lemma_order_is_unique(
    entries: Seq<FeedEntryView>,
    first: Seq<usize>,
    second: Seq<usize>,
    count: int,
)
    requires
        lists_newest_first(entries, first, count),
        lists_newest_first(entries, second, count),
    ensures
        first == second,
{
    assert forall|k: int| 0 <= k < count implies first[k] == second[k] by {
        lemma_orders_agree_upto(entries, first, second, count, k);
    }
    assert(first =~= second);
}

proof fn lemma_orders_agree_upto(
    entries: Seq<FeedEntryView>,
    first: Seq<usize>,
    second: Seq<usize>,
    count: int,
    k: int,
)
    requires
        lists_newest_first(entries, first, count),
        lists_newest_first(entries, second, count),
        0 <= k < count,
    ensures
        forall|j: int| 0 <= j <= k ==> first[j] == second[j],
    decreases k,
{
    if k > 0 {
        lemma_orders_agree_upto(entries, first, second, count, k - 1);
    }
    let x = first[k];
    let y = second[k];
    if x != y {
        assert(second.contains(x));
        let l = choose|l: int| 0 <= l < second.len() && second[l] == x;
        assert(first.contains(y));
        let m = choose|m: int| 0 <= m < first.len() && first[m] == y;
        if l < k {
            assert(first[l] == x);
            assert(comes_before(entries, first[l] as int, first[k] as int));
        } else if m < k {
            assert(second[m] == y);
            assert(comes_before(entries, second[m] as int, second[k] as int));
        } else {
            assert(comes_before(entries, second[k] as int, second[l] as int));
            assert(comes_before(entries, first[k] as int, first[m] as int));
        }
    }
}

/// Lists the places of a feed's entries newest first. Entries of equal time
/// keep the feed's order.
pub fn newest_first_order(entries: &Vec<FeedEntry>) -> (order: Vec<usize>)
    ensures
        lists_newest_first(entries.deep_view(), order@, entries.len() as int),
        order@ == newest_first(entries.deep_view()),
{
    let ghost views = entries.deep_view();
    let mut order: Vec<usize> = Vec::new();
    let mut i: usize = 0;
    while i < entries.len()
        invariant
            i <= entries.len(),
            views == entries.deep_view(),
            lists_newest_first(views, order@, i as int),
        decreases entries.len() - i,
    {
        let time = entry_timestamp(&entries[i]);
        let mut place: usize = 0;
        while place < order.len() && entry_timestamp(&entries[order[place]]) >= time
            invariant
                place <= order.len(),
                i < entries.len(),
                views == entries.deep_view(),
                time == timestamp_of(views[i as int]),
                lists_newest_first(views, order@, i as int),
                forall|k: int| 0 <= k < place ==> timestamp_of(views[order@[k] as int]) >= time,
            decreases order.len() - place,
        {
            place = place + 1;
        }
        let ghost before = order@;
        order.insert(place, i);
        proof {
            let after = order@;
            assert(after == before.insert(place as int, i));
            assert forall|k: int| 0 <= k < after.len() implies 0 <= #[trigger] after[k] < i
                + 1 by {
                if k < place {
                    assert(after[k] == before[k]);
                } else if k > place {
                    assert(after[k] == before[k - 1]);
                }
            }
            assert forall|j: usize| j < i + 1 implies #[trigger] after.contains(j) by {
                if j < i {
                    assert(before.contains(j));
                    let k = choose|k: int| 0 <= k < before.len() && before[k] == j;
                    if k < place {
                        assert(after[k] == before[k]);
                    } else {
                        assert(after[k + 1] == before[k]);
                    }
                } else {
                    assert(after[place as int] == i);
                }
            }
            assert forall|k: int, l: int| 0 <= k < l < after.len() implies comes_before(
                views,
                #[trigger] after[k] as int,
                #[trigger] after[l] as int,
            ) by {
                if l < place {
                    assert(after[k] == before[k] && after[l] == before[l]);
                } else if l == place {
                    assert(after[k] == before[k]);
                    assert(before[k] < i);
                } else if k < place {
                    assert(after[k] == before[k] && after[l] == before[l - 1]);
                } else if k == place {
                    assert(after[l] == before[l - 1]);
                    if l - 1 > place {
                        assert(comes_before(views, before[place as int] as int, before[l - 1] as int));
                    }
                } else {
                    assert(after[k] == before[k - 1] && after[l] == before[l - 1]);
                }
            }
        }
        i = i + 1;
    }
    proof {
        let chosen = newest_first(views);
        assert(lists_newest_first(views, chosen, views.len() as int));
        lemma_order_is_unique(views, order@, chosen, views.len() as int);
    }
    order
}

/// The links of the entries at the given places, in that order; an entry
/// without links gives none.
pub open spec fn picked_links(entries: Seq<FeedEntryView>, places: Seq<usize>) -> Seq<Seq<char>>
    decreases places.len(),
{
    if places.len() == 0 {
        Seq::<Seq<char>>::empty()
    } else {
        let front = picked_links(entries, places.drop_last());
        match representative_link(entries[places.last() as int]) {
            Some(link) => front.push(link),
            None => front,
        }
    }
}

/// How many entries are looked at: the limit, or all where there are fewer.
pub open spec fn selection_size(entries: Seq<FeedEntryView>, limit: usize) -> int {
    if limit <= entries.len() {
        limit as int
    } else {
        entries.len() as int
    }
}

/// The links selected from a feed: of the `limit` newest entries, in the
/// order newest first, the representative link of each that has one.
pub open spec fn selected_links(entries: Seq<FeedEntryView>, limit: usize) -> Seq<Seq<char>> {
    picked_links(entries, newest_first(entries).take(selection_size(entries, limit)))
}

/// Selects the links of the newest entries of a feed.
pub fn select_links(entries: &Vec<FeedEntry>, limit: usize) -> (links: Vec<String>)
    ensures
        links.deep_view() == selected_links(entries.deep_view(), limit),
{
    let order = newest_first_order(entries);
    let size = if limit <= entries.len() {
        limit
    } else {
        entries.len()
    };
    let ghost views = entries.deep_view();
    let mut links: Vec<String> = Vec::new();
    let mut k: usize = 0;
    assert(order@.take(0) =~= Seq::<usize>::empty());
    assert(links.deep_view() =~= Seq::<Seq<char>>::empty());
    while k < size
        invariant
            k <= size <= order.len(),
            order.len() == entries.len(),
            views == entries.deep_view(),
            forall|j: int| 0 <= j < order.len() ==> 0 <= #[trigger] order@[j] < entries.len(),
            links.deep_view() == picked_links(views, order@.take(k as int)),
        decreases size - k,
    {
        let ghost before = links.deep_view();
        proof {
            let upto = order@.take(k as int + 1);
            assert(upto.drop_last() =~= order@.take(k as int));
            assert(upto.last() == order@[k as int]);
        }
        match pick_entry_link(&entries[order[k]]) {
            Some(link) => {
                links.push(link);
                assert(links.deep_view() =~= before.push(link@));
            },
            None => {},
        }
        k = k + 1;
    }
    links
}

/// The candidates after one more feed was read. A feed that could be read
/// adds one candidate for each selected link, behind those that are there; a
/// feed that could not be read adds nothing and takes nothing away.
pub open spec fn with_feed(
    candidates: Seq<CandidateView>,
    feed: Result<Seq<FeedEntryView>, Seq<char>>,
    limit: usize,
) -> Seq<CandidateView> {
    match feed {
        Ok(entries) => candidates + url_candidates(selected_links(entries, limit)),
        Err(message) => candidates,
    }
}

/// What is to be reported of a feed: the message of one that could not be
/// read.
pub open spec fn feed_warning(feed: Result<Seq<FeedEntryView>, Seq<char>>) -> Option<Seq<char>> {
    match feed {
        Ok(entries) => None,
        Err(message) => Some(message),
    }
}

/// The view of the entries of a feed or of the message of its failure.
pub open spec fn feed_view(feed: Result<Vec<FeedEntry>, String>) -> Result<
    Seq<FeedEntryView>,
    Seq<char>,
> {
    match feed {
        Ok(entries) => Ok(entries.deep_view()),
        Err(message) => Err(message@),
    }
}

/// The candidates that the entries of one feed offer.
pub fn feed_candidates(entries: &Vec<FeedEntry>, limit: usize) -> (candidates: Vec<CandidateItem>)
    ensures
        candidates.deep_view() == url_candidates(selected_links(entries.deep_view(), limit)),
{
    let links = select_links(entries, limit);
    candidates_for_urls(&links)
}

/// Takes in what fetching and parsing one feed gave: the entries in the
/// feed's order, or the message of the failure. The candidates of a feed that
/// was read are added; a failure is handed back as a warning and the
/// candidates of the other feeds stay as they are.
pub fn add_feed(
    candidates: &mut Vec<CandidateItem>,
    feed: Result<Vec<FeedEntry>, String>,
    limit: usize,
) -> (warning: Option<String>)
    ensures
        final(candidates).deep_view() == with_feed(
            old(candidates).deep_view(),
            feed_view(feed),
            limit,
        ),
        warning.deep_view() == feed_warning(feed_view(feed)),
{
    match feed {
        Ok(entries) => {
            let ghost before = candidates.deep_view();
            let mut more = feed_candidates(&entries, limit);
            let ghost added = more.deep_view();
            candidates.append(&mut more);
            assert(candidates.deep_view() =~= before + added);
            None
        },
        Err(message) => Some(message),
    }
}

} // verus!
