use feedparser::entry::{Entry, Link};
use feedparser::feed::Feed;
use feedparser::parser::{attr, classify, parse, strip_rdf_prefix, text, uuid_gen, walk, Dialect};
use feedparser::rss2::{enclosure, handle_item, image_url};
use feedparser::time::{rfc2822_from_str, rfc3339_from_str, timestamp_from_str, Timestamp};
use feedparser::tree::{Attribute, NodeData, Tree};

const ATOM: &str = "http://www.w3.org/2005/Atom";

fn at(name: &str, value: &str) -> Attribute {
    Attribute { name: name.to_string(), value: value.to_string() }
}

fn leaf(t: &mut Tree, parent: usize, name: &str, body: &str) -> usize {
    let e = t.add_element(parent, "", name, vec![]);
    t.add_text(e, body);
    e
}

/// A document `<rss version=..><channel>..</channel></rss>`; returns the tree
/// and the channel's index.
fn rss_doc(version: &str) -> (Tree, usize) {
    let mut t = Tree::new();
    let rss = t.add_element(0, "", "rss", vec![at("version", version)]);
    let channel = t.add_element(rss, "", "channel", vec![]);
    (t, channel)
}

fn one_feed(t: &Tree) -> Feed {
    parse(t).expect("a feed")
}

#[test]
fn one_channel_one_item_gives_one_entry() {
    let (mut t, ch) = rss_doc("2.0");
    leaf(&mut t, ch, "title", "News");
    let item = t.add_element(ch, "", "item", vec![]);
    leaf(&mut t, item, "title", "First");
    leaf(&mut t, item, "guid", "id-1");
    let feed = one_feed(&t);
    assert_eq!(feed.entries.len(), 1);
    assert_eq!(feed.title.as_deref(), Some("News"));
    assert_eq!(feed.entries[0].title.as_deref(), Some("First"));
    assert_eq!(feed.entries[0].id, "id-1");
    assert_eq!(feed.entries[0].fingerprint, "");
    assert!(feed.entries[0].content.is_none());
}

#[test]
fn version_091_is_not_rss2() {
    let (mut t, ch) = rss_doc("0.91");
    t.add_element(ch, "", "item", vec![]);
    assert!(parse(&t).is_none());
    assert_eq!(classify(&t, 1), None);
    let (t2, _) = rss_doc("2");
    assert!(parse(&t2).is_none());
}

#[test]
fn rss_without_version_is_not_rss2() {
    let mut t = Tree::new();
    t.add_element(0, "", "rss", vec![]);
    assert!(parse(&t).is_none());
}

#[test]
fn missing_guid_gives_fresh_ids() {
    let (mut t, ch) = rss_doc("2.0");
    let item = t.add_element(ch, "", "item", vec![]);
    leaf(&mut t, item, "title", "No id");
    let a = one_feed(&t);
    let b = one_feed(&t);
    let ia = &a.entries[0].id;
    let ib = &b.entries[0].id;
    assert_ne!(ia, ib);
    assert_eq!(ia.len(), 36);
    assert_eq!(ib.len(), 36);
    for id in [ia, ib] {
        for (k, c) in id.chars().enumerate() {
            if k == 8 || k == 13 || k == 18 || k == 23 {
                assert_eq!(c, '-');
            } else {
                assert!(c.is_ascii_hexdigit());
            }
        }
    }
}

#[test]
fn guid_without_text_gives_fresh_id() {
    let (mut t, ch) = rss_doc("2.0");
    let item = t.add_element(ch, "", "item", vec![]);
    t.add_element(item, "", "guid", vec![]);
    let feed = one_feed(&t);
    assert_eq!(feed.entries[0].id.len(), 36);
}

#[test]
fn uuid_gen_draws_anew() {
    let a = uuid_gen();
    let b = uuid_gen();
    assert_eq!(a.len(), 36);
    assert_ne!(a, b);
}

#[test]
fn enclosure_without_length_is_dropped() {
    let (mut t, ch) = rss_doc("2.0");
    let item = t.add_element(ch, "", "item", vec![]);
    t.add_element(item, "", "enclosure", vec![at("type", "audio/ogg"), at("url", "http://x/a.ogg")]);
    let feed = one_feed(&t);
    assert_eq!(feed.entries[0].enclosure.len(), 0);
}

#[test]
fn enclosure_with_bad_length_is_dropped() {
    let (mut t, ch) = rss_doc("2.0");
    let item = t.add_element(ch, "", "item", vec![]);
    t.add_element(
        item,
        "",
        "enclosure",
        vec![at("type", "audio/ogg"), at("length", "12k"), at("url", "http://x/a.ogg")],
    );
    t.add_element(item, "", "enclosure", vec![at("length", "5"), at("url", "http://x/b.ogg")]);
    let feed = one_feed(&t);
    assert_eq!(feed.entries[0].enclosure.len(), 0);
}

#[test]
fn complete_enclosures_are_kept_in_order() {
    let (mut t, ch) = rss_doc("2.0");
    let item = t.add_element(ch, "", "item", vec![]);
    t.add_element(
        item,
        "",
        "enclosure",
        vec![at("url", "http://x/a.ogg"), at("length", "1234"), at("type", "audio/ogg")],
    );
    let second = t.add_element(
        item,
        "",
        "enclosure",
        vec![at("type", "video/webm"), at("length", "+7"), at("url", "http://x/b.webm")],
    );
    let feed = one_feed(&t);
    let encs = &feed.entries[0].enclosure;
    assert_eq!(encs.len(), 2);
    assert_eq!(encs[0].href, "http://x/a.ogg");
    assert_eq!(encs[0].mime_type, "audio/ogg");
    assert_eq!(encs[0].length, Some(1234));
    assert_eq!(encs[1].length, Some(7));
    let direct = enclosure(&t, second).expect("an enclosure");
    assert_eq!(direct.href, "http://x/b.webm");
}

#[test]
fn bare_link_sets_website() {
    let (mut t, ch) = rss_doc("2.0");
    leaf(&mut t, ch, "link", "http://example.com");
    let feed = one_feed(&t);
    assert_eq!(feed.website.as_deref(), Some("http://example.com"));
}

#[test]
fn atom_self_link_sets_website() {
    let (mut t, ch) = rss_doc("2.0");
    let l = t.add_element(ch, ATOM, "link", vec![at("rel", "self"), at("href", "http://x/feed")]);
    t.add_text(l, "http://ignored.example");
    let feed = one_feed(&t);
    assert_eq!(feed.website.as_deref(), Some("http://x/feed"));
}

#[test]
fn atom_link_of_other_rel_keeps_website() {
    let (mut t, ch) = rss_doc("2.0");
    leaf(&mut t, ch, "link", "http://example.com");
    let l = t.add_element(ch, ATOM, "link", vec![at("rel", "hub"), at("href", "http://hub")]);
    t.add_text(l, "http://ignored.example");
    let feed = one_feed(&t);
    assert_eq!(feed.website.as_deref(), Some("http://example.com"));
}

#[test]
fn combined_timestamps() {
    let when = Some(Timestamp { secs: 1136214245, nanos: 0 });
    assert_eq!(timestamp_from_str("Mon, 02 Jan 2006 15:04:05 GMT"), when);
    assert_eq!(rfc2822_from_str("Mon, 02 Jan 2006 15:04:05 GMT"), when);
    assert_eq!(rfc3339_from_str("Mon, 02 Jan 2006 15:04:05 GMT"), None);
    assert_eq!(timestamp_from_str("2006-01-02T15:04:05Z"), when);
    assert_eq!(rfc3339_from_str("2006-01-02T15:04:05Z"), when);
    assert_eq!(rfc2822_from_str("2006-01-02T15:04:05Z"), None);
    assert_eq!(timestamp_from_str("garbage"), None);
    assert_eq!(rfc2822_from_str("garbage"), None);
    assert_eq!(rfc3339_from_str("garbage"), None);
}

#[test]
fn timestamps_are_trimmed_and_made_utc() {
    assert_eq!(
        timestamp_from_str("  2006-01-02T16:04:05+01:00\n"),
        Some(Timestamp { secs: 1136214245, nanos: 0 })
    );
    assert_eq!(
        timestamp_from_str(" Mon, 02 Jan 2006 10:04:05 -0500 "),
        Some(Timestamp { secs: 1136214245, nanos: 0 })
    );
}

#[test]
fn empty_document_gives_no_feed() {
    let t = Tree::new();
    assert!(parse(&t).is_none());
    assert!(walk(&t, 0).is_none());
    assert!(strip_rdf_prefix(&[]).is_empty());
}

#[test]
fn records_read_alike_twice() {
    let (mut t, ch) = rss_doc("2.0");
    leaf(&mut t, ch, "title", "T");
    let item = t.add_element(ch, "", "item", vec![]);
    leaf(&mut t, item, "category", "rust");
    let feed = one_feed(&t);
    let e: &Entry = &feed.entries[0];
    assert_eq!(feed.title, feed.title);
    assert_eq!(e.id, e.id);
    assert_eq!(e.published, e.published);
    assert_eq!(e.keywords, e.keywords);
    let copy = feed.clone();
    assert_eq!(copy.entries[0].id, feed.entries[0].id);
    assert_eq!(copy.entries[0].published, feed.entries[0].published);
}

#[test]
fn item_fields_are_mapped() {
    let (mut t, ch) = rss_doc("2.0");
    let item = t.add_element(ch, "", "item", vec![]);
    leaf(&mut t, item, "title", "Old");
    leaf(&mut t, item, "title", "New");
    leaf(&mut t, item, "description", "Short");
    leaf(&mut t, item, "link", "http://x/post");
    leaf(&mut t, item, "author", "someone@example.com (Some One)");
    leaf(&mut t, item, "category", "a");
    leaf(&mut t, item, "category", "b");
    leaf(&mut t, item, "category", "a");
    leaf(&mut t, item, "comments", "http://x/c");
    leaf(&mut t, item, "source", "Elsewhere");
    leaf(&mut t, item, "pubDate", "Mon, 02 Jan 2006 15:04:05 GMT");
    let e = handle_item(&t, item).expect("an entry");
    assert_eq!(e.title.as_deref(), Some("New"));
    assert_eq!(e.summary.as_deref(), Some("Short"));
    assert!(e.content.is_none());
    assert_eq!(e.author.as_deref(), Some("someone@example.com (Some One)"));
    assert_eq!(e.keywords, vec!["a".to_string(), "b".to_string(), "a".to_string()]);
    assert_eq!(e.alternate.len(), 1);
    assert_eq!(e.alternate[0].href, "http://x/post");
    assert_eq!(e.alternate[0].mime_type, "text/html");
    assert_eq!(e.alternate[0].length, None);
    assert_eq!(e.published, Timestamp { secs: 1136214245, nanos: 0 });
    assert!(e.updated.is_none());
}

#[test]
fn item_without_link_has_no_alternate() {
    let (mut t, ch) = rss_doc("2.0");
    let item = t.add_element(ch, "", "item", vec![]);
    leaf(&mut t, item, "pubDate", "not a date");
    let e = handle_item(&t, item).expect("an entry");
    assert!(e.alternate.is_empty());
    assert!(e.title.is_none());
}

#[test]
fn channel_fields_are_mapped() {
    let (mut t, ch) = rss_doc("2.0");
    leaf(&mut t, ch, "description", "About");
    leaf(&mut t, ch, "language", "en-us");
    leaf(&mut t, ch, "lastBuildDate", "2006-01-02T15:04:05Z");
    leaf(&mut t, ch, "ttl", "60");
    leaf(&mut t, ch, "category", "news");
    let image = t.add_element(ch, "", "image", vec![]);
    leaf(&mut t, image, "title", "Logo");
    leaf(&mut t, image, "url", "http://x/logo.png");
    leaf(&mut t, image, "url", "http://x/other.png");
    let feed = one_feed(&t);
    assert_eq!(feed.description.as_deref(), Some("About"));
    assert_eq!(feed.language.as_deref(), Some("en-us"));
    assert_eq!(feed.last_updated, Some(Timestamp { secs: 1136214245, nanos: 0 }));
    assert_eq!(feed.visual_url.as_deref(), Some("http://x/logo.png"));
    assert_eq!(image_url(&t, image).as_deref(), Some("http://x/logo.png"));
    assert!(feed.title.is_none());
    assert!(feed.entries.is_empty());
}

#[test]
fn later_channel_overwrites_earlier() {
    let mut t = Tree::new();
    let rss = t.add_element(0, "", "rss", vec![at("version", "2.0")]);
    let c1 = t.add_element(rss, "", "channel", vec![]);
    leaf(&mut t, c1, "title", "One");
    leaf(&mut t, c1, "language", "en");
    let i1 = t.add_element(c1, "", "item", vec![]);
    leaf(&mut t, i1, "guid", "a");
    let c2 = t.add_element(rss, "", "channel", vec![]);
    leaf(&mut t, c2, "title", "Two");
    let i2 = t.add_element(c2, "", "item", vec![]);
    leaf(&mut t, i2, "guid", "b");
    let feed = one_feed(&t);
    assert_eq!(feed.title.as_deref(), Some("Two"));
    assert_eq!(feed.language.as_deref(), Some("en"));
    assert_eq!(feed.entries.len(), 2);
    assert_eq!(feed.entries[0].id, "a");
    assert_eq!(feed.entries[1].id, "b");
}

#[test]
fn root_is_found_under_wrappers() {
    let mut t = Tree::new();
    let outer = t.add_element(0, "", "wrapper", vec![]);
    t.add_element(outer, "", "note", vec![]);
    let rss = t.add_element(outer, "", "rss", vec![at("version", "2.0")]);
    let ch = t.add_element(rss, "", "channel", vec![]);
    leaf(&mut t, ch, "title", "Deep");
    assert_eq!(walk(&t, 0), Some((Dialect::Rss2, rss)));
    assert_eq!(one_feed(&t).title.as_deref(), Some("Deep"));
}

#[test]
fn atom_and_rdf_roots_are_classified() {
    let mut t = Tree::new();
    let feed = t.add_element(0, ATOM, "feed", vec![]);
    assert_eq!(walk(&t, 0), Some((Dialect::Atom, feed)));
    assert!(parse(&t).is_none());
    let mut r = Tree::new();
    let rdf = r.add_element(0, "", "RDF", vec![at("version", "2.0")]);
    assert_eq!(walk(&r, 0), Some((Dialect::Rss1, rdf)));
    let mut first = Tree::new();
    first.add_element(0, "", "feed", vec![]);
    first.add_element(0, "", "rss", vec![at("version", "2.0")]);
    assert_eq!(walk(&first, 0), Some((Dialect::Atom, 1)));
}

#[test]
fn rdf_prefix_is_stripped() {
    let out = strip_rdf_prefix(b"<rdf:RDF xmlns:rdf=\"u\"><li rdf:resource=\"r\"/> rdf rdf:x</rdf:RDF>");
    assert_eq!(out, b"<rdf:RDF xmlns:rdf=\"u\"><li resource=\"r\"/> rdf x</rdf:RDF>".to_vec());
    assert_eq!(strip_rdf_prefix(b"  rdf: rdf:"), b"   ".to_vec());
}

#[test]
fn attr_and_text_read_first_match() {
    let attrs = vec![at("rel", "self"), at("href", "a"), at("href", "b")];
    assert_eq!(attr("href", &attrs).as_deref(), Some("a"));
    assert_eq!(attr("type", &attrs), None);
    let mut t = Tree::new();
    let e = t.add_element(0, "", "p", vec![]);
    let inner = t.add_element(e, "", "b", vec![]);
    t.add_text(inner, "nested");
    t.add_text(e, "first");
    t.add_text(e, "second");
    assert_eq!(text(&t, e).as_deref(), Some("first"));
    assert_eq!(text(&t, 0), None);
}

#[test]
fn links_are_built() {
    let l = Link::new("text/html", "http://x".to_string());
    assert_eq!((l.href.as_str(), l.mime_type.as_str(), l.length), ("http://x", "text/html", None));
    let e = Link::enc("audio/ogg".to_string(), 99, "http://y".to_string());
    assert_eq!((e.href.as_str(), e.mime_type.as_str(), e.length), ("http://y", "audio/ogg", Some(99)));
}

#[test]
fn new_records_are_empty() {
    let e = Entry::new();
    assert_eq!(e.id, "");
    assert!(e.title.is_none() && e.keywords.is_empty() && e.enclosure.is_empty());
    let f = Feed::new();
    assert!(f.title.is_none() && f.website.is_none() && f.entries.is_empty());
}

#[test]
fn tree_well_formedness_is_checked() {
    let mut t = Tree::new();
    t.add_element(0, "", "a", vec![]);
    assert!(t.is_wf());
    t.nodes.push(feedparser::tree::Node { parent: 5, data: NodeData::Other });
    assert!(!t.is_wf());
}
