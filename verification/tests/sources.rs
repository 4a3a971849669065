use rmfeeder::feeds::{
    add_feed, entry_timestamp, feed_candidates, feed_urls_of, load_opml_feed_urls,
    newest_first_order, pick_entry_link, select_links, FeedEntry, FeedLink, XmlNode,
};
use rmfeeder::fetcher::{candidate_for_url, candidate_with_key, candidates_for_urls};
use rmfeeder::item::CandidateItem;
use rmfeeder::queue::{queue_candidates, resolve_video_url, QueueEntry};

fn link(href: &str, rel: Option<&str>) -> FeedLink {
    FeedLink { href: href.to_string(), rel: rel.map(|r| r.to_string()) }
}

fn entry(published: Option<i64>, updated: Option<i64>, links: Vec<FeedLink>) -> FeedEntry {
    FeedEntry { published, updated, links }
}

fn queued(title: Option<&str>, page: Option<&str>, url: Option<&str>, id: Option<&str>) -> QueueEntry {
    QueueEntry {
        title: title.map(|s| s.to_string()),
        webpage_url: page.map(|s| s.to_string()),
        url: url.map(|s| s.to_string()),
        id: id.map(|s| s.to_string()),
    }
}

const OPML: &str = "<?xml version=\"1.0\"?>\n<opml version=\"2.0\"><head><title>Feeds</title></head><body>\
<outline text=\"News\">\
<outline type=\"rss\" text=\"B\" xmlUrl=\"https://b.example/feed\"/>\
<outline type=\"rss\" text=\"A\" xmlUrl=\"https://a.example/feed\"/>\
</outline>\
<outline type=\"rss\" text=\"B again\" xmlUrl=\"https://b.example/feed\"/>\
<other xmlUrl=\"https://not-an-outline.example/\"/>\
<outline text=\"no address\"/>\
</body></opml>";

#[test]
fn opml_gives_each_feed_once_in_ascending_order() {
    assert_eq!(
        load_opml_feed_urls(OPML),
        Ok(vec!["https://a.example/feed".to_string(), "https://b.example/feed".to_string()])
    );
}

#[test]
fn feed_addresses_are_ordered_as_strings_and_taken_literally() {
    let node = |name: &str, url: Option<&str>| XmlNode {
        name: name.to_string(),
        attribute: url.map(|u| u.to_string()),
    };
    let nodes = vec![
        node("outline", Some("https://b.example/feed/")),
        node("outline", Some("https://b.example/feed")),
        node("outline", Some("https://\u{e9}.example/")),
        node("outline", Some("HTTPS://B.example/feed")),
        node("outline", None),
        node("item", Some("https://0.example/")),
        node("outline", Some("https://b.example/feed")),
        node("outline", Some("")),
        node("outline", Some("https://b.example/Feed")),
    ];
    let mut expected: Vec<String> = vec![
        "https://b.example/feed/",
        "https://b.example/feed",
        "https://\u{e9}.example/",
        "HTTPS://B.example/feed",
        "",
        "https://b.example/Feed",
    ]
    .into_iter()
    .map(|s| s.to_string())
    .collect();
    expected.sort();
    assert_eq!(feed_urls_of(&nodes), expected);
    assert_eq!(
        feed_urls_of(&nodes),
        vec![
            "",
            "HTTPS://B.example/feed",
            "https://b.example/Feed",
            "https://b.example/feed",
            "https://b.example/feed/",
            "https://\u{e9}.example/"
        ]
    );
    assert_eq!(feed_urls_of(&Vec::new()), Vec::<String>::new());
}

#[test]
fn opml_without_feeds_gives_none() {
    assert_eq!(load_opml_feed_urls("<opml><body/></opml>"), Ok(Vec::new()));
}

#[test]
fn malformed_opml_is_reported() {
    let error = load_opml_feed_urls("<opml><body></opml>").unwrap_err();
    assert!(!error.is_empty());
    assert!(load_opml_feed_urls("").is_err());
}

#[test]
fn timestamp_prefers_published() {
    assert_eq!(entry_timestamp(&entry(Some(5), Some(9), vec![])), 5);
    assert_eq!(entry_timestamp(&entry(None, Some(9), vec![])), 9);
    assert_eq!(entry_timestamp(&entry(None, None, vec![])), 0);
    assert_eq!(entry_timestamp(&entry(Some(-3), None, vec![])), -3);
}

#[test]
fn link_prefers_alternate() {
    let e = entry(None, None, vec![link("first", Some("self")), link("second", Some("alternate")), link("third", Some("alternate"))]);
    assert_eq!(pick_entry_link(&e), Some("second".to_string()));
    let e = entry(None, None, vec![link("first", None), link("second", Some("enclosure"))]);
    assert_eq!(pick_entry_link(&e), Some("first".to_string()));
    assert_eq!(pick_entry_link(&entry(None, None, vec![])), None);
}

#[test]
fn order_is_newest_first_and_stable() {
    let entries = vec![
        entry(Some(10), None, vec![]),
        entry(Some(30), None, vec![]),
        entry(None, None, vec![]),
        entry(Some(30), None, vec![]),
        entry(None, Some(20), vec![]),
        entry(Some(10), None, vec![]),
    ];
    assert_eq!(newest_first_order(&entries), vec![1, 3, 4, 0, 5, 2]);
    assert_eq!(newest_first_order(&Vec::new()), Vec::<usize>::new());
}

#[test]
fn selection_takes_the_limit_before_it_picks_links() {
    let entries = vec![
        entry(Some(1), None, vec![link("old", None)]),
        entry(Some(3), None, vec![]),
        entry(Some(2), None, vec![link("mid", None)]),
    ];
    assert_eq!(select_links(&entries, 2), vec!["mid".to_string()]);
    assert_eq!(select_links(&entries, 3), vec!["mid".to_string(), "old".to_string()]);
    assert_eq!(select_links(&entries, 10), vec!["mid".to_string(), "old".to_string()]);
    assert_eq!(select_links(&entries, 0), Vec::<String>::new());
}

fn sample_feed() -> Vec<FeedEntry> {
    vec![
        entry(None, Some(100), vec![link("https://example.com/self/1", Some("self")), link("https://example.com/post/1", Some("alternate"))]),
        entry(Some(300), Some(50), vec![link("https://Example.com/post/2", None)]),
        entry(None, Some(200), vec![link("https://example.com/post/3", Some("alternate"))]),
    ]
}

#[test]
fn feed_candidates_are_keyed_by_canonical_address() {
    let candidates = feed_candidates(&sample_feed(), 2);
    assert_eq!(
        candidates,
        vec![
            CandidateItem {
                identifier: "https://example.com/post/2".to_string(),
                source_url: "https://Example.com/post/2".to_string(),
                display_hint: None,
            },
            CandidateItem {
                identifier: "https://example.com/post/3".to_string(),
                source_url: "https://example.com/post/3".to_string(),
                display_hint: None,
            },
        ]
    );
}

#[test]
fn broken_feed_warns_and_leaves_the_others() {
    let mut candidates = Vec::new();
    assert_eq!(add_feed(&mut candidates, Ok(sample_feed()), 1), None);
    assert_eq!(candidates.len(), 1);
    let warning = add_feed(&mut candidates, Err("unable to parse feed".to_string()), 3);
    assert_eq!(warning, Some("unable to parse feed".to_string()));
    assert_eq!(candidates.len(), 1);
    assert_eq!(add_feed(&mut candidates, Ok(sample_feed()), 3), None);
    let urls: Vec<&str> = candidates.iter().map(|c| c.source_url.as_str()).collect();
    assert_eq!(
        urls,
        vec![
            "https://Example.com/post/2",
            "https://Example.com/post/2",
            "https://example.com/post/3",
            "https://example.com/post/1"
        ]
    );
}

#[test]
fn url_candidate_uses_the_canonical_form_as_key() {
    let candidate = candidate_for_url("HTTPS://Example.com/a b");
    assert_eq!(candidate.identifier, "https://example.com/a%20b");
    assert_eq!(candidate.source_url, "HTTPS://Example.com/a b");
    assert_eq!(candidate.display_hint, None);
    let broken = candidate_for_url("no url");
    assert_eq!(broken.identifier, "no url");
    let many = candidates_for_urls(&vec!["https://a.example".to_string(), "x".to_string()]);
    assert_eq!(many.len(), 2);
    assert_eq!(many[0].identifier, "https://a.example/");
    assert_eq!(many[1].identifier, "x");
}

#[test]
fn candidate_key_follows_the_normalisation() {
    let keyed = candidate_with_key("Raw", Ok("canonical".to_string()));
    assert_eq!(
        keyed,
        CandidateItem {
            identifier: "canonical".to_string(),
            source_url: "Raw".to_string(),
            display_hint: None
        }
    );
    let unkeyed = candidate_with_key("Raw", Err("empty host".to_string()));
    assert_eq!(unkeyed.identifier, "Raw");
    assert_eq!(unkeyed.source_url, "Raw");
}

#[test]
fn video_url_precedence() {
    let all = queued(None, Some("https://page"), Some("https://play"), Some("ID"));
    assert_eq!(resolve_video_url(&all), Some("https://page".to_string()));
    let playable = queued(None, None, Some("http://play"), Some("ID"));
    assert_eq!(resolve_video_url(&playable), Some("http://play".to_string()));
    let secure = queued(None, None, Some("https://play"), None);
    assert_eq!(resolve_video_url(&secure), Some("https://play".to_string()));
    let bare = queued(None, None, Some("abc123"), Some("ID"));
    assert_eq!(resolve_video_url(&bare), Some("https://www.youtube.com/watch?v=abc123".to_string()));
    let id_only = queued(None, None, None, Some("ID"));
    assert_eq!(resolve_video_url(&id_only), Some("https://www.youtube.com/watch?v=ID".to_string()));
    assert_eq!(resolve_video_url(&queued(Some("t"), None, None, None)), None);
    let odd = queued(None, None, Some("httpx://play"), None);
    assert_eq!(resolve_video_url(&odd), Some("https://www.youtube.com/watch?v=httpx://play".to_string()));
}

#[test]
fn queue_candidates_are_namespaced_and_distinct() {
    let entries = vec![
        queued(Some("First"), Some("https://v/1"), None, None),
        queued(None, None, None, None),
        queued(None, None, None, Some("two")),
        queued(Some("First again"), None, Some("https://v/1"), None),
    ];
    assert_eq!(
        queue_candidates(&entries),
        vec![
            CandidateItem {
                identifier: "yt::https://v/1".to_string(),
                source_url: "https://v/1".to_string(),
                display_hint: Some("First".to_string()),
            },
            CandidateItem {
                identifier: "yt::https://www.youtube.com/watch?v=two".to_string(),
                source_url: "https://www.youtube.com/watch?v=two".to_string(),
                display_hint: Some("Untitled Video".to_string()),
            },
        ]
    );
    assert_eq!(queue_candidates(&Vec::new()), Vec::new());
}
