//! The RSS 2.0 extractor: a `rss` root, its channels and their items.
use vstd::prelude::*;
use crate::entry::{links_view, strings_view, Entry, Link, LinkView};
use crate::feed::{empty_info, Feed, FeedInfo};
use crate::parser::{attr, same_text, text, timestamp, uuid_gen};
use crate::time::{now, opt_either_spec, Timestamp};
use crate::tree::{opt_view, NodeData, Tree};

verus! {

/// The namespace of Atom, whose `link` may stand in an RSS 2.0 channel.
pub open spec fn atom_ns() -> Seq<char> {
    "http://www.w3.org/2005/Atom"@
}

/// The value of a string of decimal digits.
pub open spec fn digits_value(s: Seq<char>) -> int
    decreases s.len(),
{
    if s.len() == 0 {
        0
    } else {
        digits_value(s.drop_last()) * 10 + (s.last() as int - '0' as int)
    }
}

pub open spec fn is_digits(s: Seq<char>) -> bool {
    s.len() > 0 && forall|k: int| 0 <= k < s.len() ==> '0' <= #[trigger] s[k] <= '9'
}

/// A decimal integer with an optional sign, as `i64` reads it; `None` where the
/// text is not one or the value does not fit.
pub open spec fn i64_parse_spec(s: Seq<char>) -> Option<i64> {
    let neg = s.len() > 0 && s[0] == '-';
    let body = if s.len() > 0 && (s[0] == '-' || s[0] == '+') {
        s.subrange(1, s.len() as int)
    } else {
        s
    };
    let v = if neg {
        -digits_value(body)
    } else {
        digits_value(body)
    };
    if is_digits(body) && i64::MIN <= v <= i64::MAX {
        Some(v as i64)
    } else {
        None
    }
}

/// Relies on `<i64 as FromStr>::from_str`: an optional `+` or `-` and decimal
/// digits, refused where the value does not fit.
#[verifier::external_body]
fn parse_i64(s: &str) -> (r: Option<i64>)
    ensures
        r == i64_parse_spec(s@),
{
    s.parse::<i64>().ok()
}

/// The index held by an optional index.
pub open spec fn idx(o: Option<usize>) -> Option<int> {
    match o {
        Some(c) => Some(c as int),
        None => None,
    }
}

/// The text of the node at an optional index.
pub open spec fn text_at_spec(t: Tree, o: Option<int>) -> Option<Seq<char>> {
    match o {
        Some(c) => t.text_spec(c),
        None => None,
    }
}

/// The enclosure that element `c` describes: it needs `type`, `length` and
/// `url`, and a `length` that reads as an integer.
pub open spec fn enclosure_spec(t: Tree, c: int) -> Option<LinkView> {
    match (t.attr_of(c, "type"@), t.attr_of(c, "length"@), t.attr_of(c, "url"@)) {
        (Some(m), Some(l), Some(u)) => match i64_parse_spec(l) {
            Some(n) => Some((u, m, Some(n))),
            None => None,
        },
        _ => None,
    }
}

/// The texts of the `category` children of `i` before index `j`.
pub open spec fn keywords_before(t: Tree, i: int, j: int) -> Seq<Seq<char>>
    decreases j - i,
{
    if j <= i + 1 {
        Seq::empty()
    } else {
        let p = keywords_before(t, i, j - 1);
        if t.is_child(i, j - 1) && t.tag_is(j - 1, "category"@) {
            match t.text_spec(j - 1) {
                Some(s) => p.push(s),
                None => p,
            }
        } else {
            p
        }
    }
}

/// The enclosures of the `enclosure` children of `i` before index `j`.
pub open spec fn enclosures_before(t: Tree, i: int, j: int) -> Seq<LinkView>
    decreases j - i,
{
    if j <= i + 1 {
        Seq::empty()
    } else {
        let p = enclosures_before(t, i, j - 1);
        if t.is_child(i, j - 1) && t.tag_is(j - 1, "enclosure"@) {
            match enclosure_spec(t, j - 1) {
                Some(l) => p.push(l),
                None => p,
            }
        } else {
            p
        }
    }
}

/// The alternate link of item `i`: the text of its last `link`, as HTML.
pub open spec fn alternate_spec(t: Tree, i: int) -> Seq<LinkView> {
    match t.last_text(i, "link"@) {
        Some(s) => seq![(s, "text/html"@, None::<i64>)],
        None => Seq::empty(),
    }
}

/// The native id of item `i`: the text of its last `guid`, where not empty.
pub open spec fn guid_spec(t: Tree, i: int) -> Option<Seq<char>> {
    match t.last_text(i, "guid"@) {
        Some(s) => if s.len() > 0 {
            Some(s)
        } else {
            None
        },
        None => None,
    }
}

/// The publication date of item `i`, read from its last `pubDate`.
pub open spec fn published_spec(t: Tree, i: int) -> Option<Timestamp> {
    match t.last_tagged(i, "pubDate"@, t.len()) {
        Some(c) => opt_either_spec(t.text_spec(c)),
        None => None,
    }
}

/// `e` is what item `i` yields. Where the item has no id, `e` carries a
/// generated one; where it has no readable date, `e` carries the time of
/// extraction.
pub open spec fn entry_matches(t: Tree, i: int, e: Entry) -> bool {
    &&& opt_view(e.title) == t.last_text(i, "title"@)
    &&& opt_view(e.summary) == t.last_text(i, "description"@)
    &&& opt_view(e.author) == t.last_text(i, "author"@)
    &&& e.content is None
    &&& e.updated is None
    &&& e.fingerprint@.len() == 0
    &&& links_view(e.alternate@) == alternate_spec(t, i)
    &&& strings_view(e.keywords@) == keywords_before(t, i, t.len())
    &&& links_view(e.enclosure@) == enclosures_before(t, i, t.len())
    &&& match guid_spec(t, i) {
        Some(g) => e.id@ == g,
        None => e.id@.len() == 36,
    }
    &&& match published_spec(t, i) {
        Some(p) => e.published == p,
        None => true,
    }
}

/// The text of the node at an optional index.
fn text_at(t: &Tree, o: Option<usize>) -> (r: Option<String>)
    requires
        t.wf(),
        match o {
            Some(c) => c < t.len(),
            None => true,
        },
    ensures
        opt_view(r) == text_at_spec(*t, idx(o)),
{
    match o {
        Some(c) => text(t, c),
        None => None,
    }
}

/// The enclosure that element `c` describes, if it is complete.
pub fn enclosure(t: &Tree, c: usize) -> (r: Option<Link>)
    requires
        t.wf(),
        c < t.len(),
    ensures
        match r {
            Some(l) => enclosure_spec(*t, c as int) == Some(l@),
            None => enclosure_spec(*t, c as int) is None,
        },
{
    match &t.nodes[c].data {
        NodeData::Element { attrs, .. } => {
            let mime_type = attr("type", attrs.as_slice());
            let length = match attr("length", attrs.as_slice()) {
                Some(s) => parse_i64(s.as_str()),
                None => None,
            };
            let url = attr("url", attrs.as_slice());
            match (mime_type, length, url) {
                (Some(m), Some(n), Some(u)) => Some(Link::enc(m, n, u)),
                _ => None,
            }
        },
        _ => None,
    }
}

/// The last tagged child found before `j` stands between `i` and `j`.
pub proof fn lemma_last_tagged_bound(t: Tree, i: int, tag: Seq<char>, j: int)
    ensures
        match t.last_tagged(i, tag, j) {
            Some(c) => i < c < j && t.is_child(i, c),
            None => true,
        },
    decreases j - i,
{
    if j > i + 1 {
        lemma_last_tagged_bound(t, i, tag, j - 1);
    }
}

/// Extracts the entry that item `i` describes. Where the item has no `guid`
/// with text, the entry gets a fresh generated id; where it has no readable
/// `pubDate`, it is published now.
pub fn handle_item(t: &Tree, i: usize) -> (r: Option<Entry>)
    requires
        t.wf(),
        i < t.len(),
    ensures
        r is Some,
        entry_matches(*t, i as int, r->Some_0),
{
    let n = t.nodes.len();
    let mut title: Option<usize> = None;
    let mut description: Option<usize> = None;
    let mut link: Option<usize> = None;
    let mut author: Option<usize> = None;
    let mut guid: Option<usize> = None;
    let mut pub_date: Option<usize> = None;
    let mut keywords: Vec<String> = Vec::new();
    let mut enclosures: Vec<Link> = Vec::new();
    let mut j: usize = i + 1;
    while j < n
        invariant
            i < j <= n,
            n == t.len(),
            t.wf(),
            idx(title) == t.last_tagged(i as int, "title"@, j as int),
            idx(description) == t.last_tagged(i as int, "description"@, j as int),
            idx(link) == t.last_tagged(i as int, "link"@, j as int),
            idx(author) == t.last_tagged(i as int, "author"@, j as int),
            idx(guid) == t.last_tagged(i as int, "guid"@, j as int),
            idx(pub_date) == t.last_tagged(i as int, "pubDate"@, j as int),
            strings_view(keywords@) == keywords_before(*t, i as int, j as int),
            links_view(enclosures@) == enclosures_before(*t, i as int, j as int),
        decreases n - j,
    {
        if t.nodes[j].parent == i {
            match &t.nodes[j].data {
                NodeData::Element { name, .. } => {
                    if same_text(name, "title") {
                        title = Some(j);
                    }
                    if same_text(name, "description") {
                        description = Some(j);
                    }
                    if same_text(name, "link") {
                        link = Some(j);
                    }
                    if same_text(name, "author") {
                        author = Some(j);
                    }
                    if same_text(name, "guid") {
                        guid = Some(j);
                    }
                    if same_text(name, "pubDate") {
                        pub_date = Some(j);
                    }
                    if same_text(name, "category") {
                        match text(t, j) {
                            Some(s) => {
                                let ghost before = keywords@;
                                keywords.push(s);
                                assert(strings_view(keywords@) =~= strings_view(before).push(s@));
                            },
                            None => {},
                        }
                    }
                    if same_text(name, "enclosure") {
                        match enclosure(t, j) {
                            Some(l) => {
                                let ghost before = enclosures@;
                                enclosures.push(l);
                                assert(links_view(enclosures@) =~= links_view(before).push(l@));
                            },
                            None => {},
                        }
                    }
                },
                _ => {},
            }
        }
        j += 1;
    }
    proof {
        lemma_last_tagged_bound(*t, i as int, "title"@, n as int);
        lemma_last_tagged_bound(*t, i as int, "description"@, n as int);
        lemma_last_tagged_bound(*t, i as int, "link"@, n as int);
        lemma_last_tagged_bound(*t, i as int, "author"@, n as int);
        lemma_last_tagged_bound(*t, i as int, "guid"@, n as int);
        lemma_last_tagged_bound(*t, i as int, "pubDate"@, n as int);
    }
    let alternate = match text_at(t, link) {
        Some(s) => {
            let v = vec![Link::new("text/html", s)];
            assert(links_view(v@) =~= alternate_spec(*t, i as int));
            v
        },
        None => {
            let v: Vec<Link> = Vec::new();
            assert(links_view(v@) =~= alternate_spec(*t, i as int));
            v
        },
    };
    let id = match text_at(t, guid) {
        Some(s) => if s.as_str().is_empty() {
            uuid_gen()
        } else {
            s
        },
        None => uuid_gen(),
    };
    let published = match pub_date {
        Some(c) => timestamp(t, c),
        None => None,
    };
    let published = match published {
        Some(p) => p,
        None => now(),
    };
    Some(
        Entry {
            id,
            title: text_at(t, title),
            content: None,
            summary: text_at(t, description),
            author: text_at(t, author),
            published,
            updated: None,
            alternate,
            keywords,
            enclosure: enclosures,
            fingerprint: String::new(),
        },
    )
}

/// The picture of an `image` element: the text of its first `url` child.
pub open spec fn image_url_spec(t: Tree, c: int) -> Option<Seq<char>> {
    match t.first_tagged(c, "url"@, c + 1) {
        Some(u) => t.text_spec(u),
        None => None,
    }
}

/// The website after channel child `c`, a `link`, is read. An Atom `link`
/// counts only with `rel="self"` and an `href`; a bare one counts by its text.
pub open spec fn website_step(t: Tree, c: int, w: Option<Seq<char>>) -> Option<Seq<char>> {
    if t.ns_of(c) == atom_ns() {
        match (t.attr_of(c, "href"@), t.attr_of(c, "rel"@)) {
            (Some(h), Some(r)) => if r == "self"@ {
                Some(h)
            } else {
                w
            },
            _ => w,
        }
    } else {
        match t.text_spec(c) {
            Some(s) => Some(s),
            None => w,
        }
    }
}

/// What the feed says of itself after channel child `c` is read.
pub open spec fn channel_step(t: Tree, f: FeedInfo, c: int) -> FeedInfo {
    if t.tag_is(c, "title"@) {
        FeedInfo { title: t.text_spec(c), ..f }
    } else if t.tag_is(c, "description"@) {
        FeedInfo { description: t.text_spec(c), ..f }
    } else if t.tag_is(c, "link"@) {
        FeedInfo { website: website_step(t, c, f.website), ..f }
    } else if t.tag_is(c, "language"@) {
        FeedInfo { language: t.text_spec(c), ..f }
    } else if t.tag_is(c, "lastBuildDate"@) {
        FeedInfo { last_updated: opt_either_spec(t.text_spec(c)), ..f }
    } else if t.tag_is(c, "image"@) {
        FeedInfo { visual_url: image_url_spec(t, c), ..f }
    } else {
        f
    }
}

/// What the feed says of itself after the children of channel `i` before
/// index `j` are read, starting from `f`: each field keeps its last write.
pub open spec fn channel_before(t: Tree, i: int, j: int, f: FeedInfo) -> FeedInfo
    decreases j - i,
{
    if j <= i + 1 {
        f
    } else {
        let p = channel_before(t, i, j - 1, f);
        if t.is_child(i, j - 1) {
            channel_step(t, p, j - 1)
        } else {
            p
        }
    }
}

/// The `item` children of `i` before index `j`, in document order.
pub open spec fn items_before(t: Tree, i: int, j: int) -> Seq<int>
    decreases j - i,
{
    if j <= i + 1 {
        Seq::empty()
    } else {
        let p = items_before(t, i, j - 1);
        if t.is_child(i, j - 1) && t.tag_is(j - 1, "item"@) {
            p.push(j - 1)
        } else {
            p
        }
    }
}

/// Item indices stand between the channel and `j`.
pub proof fn lemma_items_bound(t: Tree, i: int, j: int)
    ensures
        forall|k: int| 0 <= k < items_before(t, i, j).len() ==> i < #[trigger] items_before(t, i, j)[k] < j,
    decreases j - i,
{
    if j > i + 1 {
        lemma_items_bound(t, i, j - 1);
        let p = items_before(t, i, j - 1);
        if t.is_child(i, j - 1) && t.tag_is(j - 1, "item"@) {
            assert forall|k: int| 0 <= k < p.len() + 1 implies i < #[trigger] p.push(j - 1)[k] < j by {
                if k < p.len() {
                    assert(p.push(j - 1)[k] == p[k]);
                }
            }
        }
    }
}

/// The picture of an `image` element: the text of its first `url` child.
pub fn image_url(t: &Tree, c: usize) -> (r: Option<String>)
    requires
        t.wf(),
        c < t.len(),
    ensures
        opt_view(r) == image_url_spec(*t, c as int),
{
    let n = t.nodes.len();
    let mut j: usize = c + 1;
    while j < n
        invariant
            c < j <= n,
            n == t.len(),
            t.wf(),
            t.first_tagged(c as int, "url"@, j as int) == t.first_tagged(c as int, "url"@, c + 1),
        decreases n - j,
    {
        if t.nodes[j].parent == c {
            match &t.nodes[j].data {
                NodeData::Element { name, .. } => {
                    if same_text(name, "url") {
                        return text(t, j);
                    }
                },
                _ => {},
            }
        }
        j += 1;
    }
    None
}

/// The channel tags that are told apart differ from one another.
proof fn lemma_channel_tags_distinct()
    ensures
        "title"@ != "item"@,
        "description"@ != "item"@,
        "link"@ != "item"@,
        "language"@ != "item"@,
        "lastBuildDate"@ != "item"@,
        "image"@ != "item"@,
        "image"@ != "title"@,
{
    reveal_strlit("title");
    reveal_strlit("description");
    reveal_strlit("link");
    reveal_strlit("language");
    reveal_strlit("lastBuildDate");
    reveal_strlit("image");
    reveal_strlit("item");
    assert("link"@ != "item"@) by {
        assert("link"@[0] != "item"@[0]);
    }
    assert("title"@ != "item"@) by {
        assert("title"@[0] != "item"@[0]);
    }
    assert("description"@ != "item"@) by {
        assert("description"@[0] != "item"@[0]);
    }
    assert("language"@ != "item"@) by {
        assert("language"@[0] != "item"@[0]);
    }
    assert("lastBuildDate"@ != "item"@) by {
        assert("lastBuildDate"@[0] != "item"@[0]);
    }
    assert("image"@ != "item"@) by {
        assert("image"@[1] != "item"@[1]);
    }
    assert("image"@ != "title"@) by {
        assert("image"@[0] != "title"@[0]);
    }
}

/// Reads channel `i` into `feed`: each field it sets replaces the one before,
/// and each of its items is appended, in document order.
pub fn handle_channel(t: &Tree, i: usize, feed: &mut Feed)
    requires
        t.wf(),
        i < t.len(),
    ensures
        final(feed).info() == channel_before(*t, i as int, t.len(), old(feed).info()),
        final(feed).entries@.len() == old(feed).entries@.len() + items_before(*t, i as int, t.len()).len(),
        forall|k: int| 0 <= k < old(feed).entries@.len() ==> final(feed).entries@[k] == old(feed).entries@[k],
        forall|k: int|
            0 <= k < items_before(*t, i as int, t.len()).len() ==> entry_matches(
                *t,
                #[trigger] items_before(*t, i as int, t.len())[k],
                final(feed).entries@[old(feed).entries@.len() + k],
            ),
{
    let n = t.nodes.len();
    let ghost base = old(feed).entries@.len();
    let mut j: usize = i + 1;
    while j < n
        invariant
            i < j <= n,
            n == t.len(),
            t.wf(),
            base == old(feed).entries@.len(),
            feed.info() == channel_before(*t, i as int, j as int, old(feed).info()),
            feed.entries@.len() == base + items_before(*t, i as int, j as int).len(),
            forall|k: int| 0 <= k < base ==> feed.entries@[k] == old(feed).entries@[k],
            forall|k: int|
                0 <= k < items_before(*t, i as int, j as int).len() ==> entry_matches(
                    *t,
                    #[trigger] items_before(*t, i as int, j as int)[k],
                    feed.entries@[base + k],
                ),
        decreases n - j,
    {
        proof {
            lemma_channel_tags_distinct();
        }
        if t.nodes[j].parent == i {
            match &t.nodes[j].data {
                NodeData::Element { name, ns, attrs } => {
                    if same_text(name, "title") {
                        feed.title = text(t, j);
                    } else if same_text(name, "description") {
                        feed.description = text(t, j);
                    } else if same_text(name, "link") {
                        if same_text(ns, "http://www.w3.org/2005/Atom") {
                            let href = attr("href", attrs.as_slice());
                            let rel = attr("rel", attrs.as_slice());
                            match (href, rel) {
                                (Some(h), Some(r)) => {
                                    if same_text(&r, "self") {
                                        feed.website = Some(h);
                                    }
                                },
                                _ => {},
                            }
                        } else {
                            match text(t, j) {
                                Some(url) => {
                                    feed.website = Some(url);
                                },
                                None => {},
                            }
                        }
                    } else if same_text(name, "language") {
                        feed.language = text(t, j);
                    } else if same_text(name, "lastBuildDate") {
                        feed.last_updated = timestamp(t, j);
                    } else if same_text(name, "image") {
                        feed.visual_url = image_url(t, j);
                    } else if same_text(name, "item") {
                        match handle_item(t, j) {
                            Some(e) => {
                                feed.entries.push(e);
                            },
                            None => {},
                        }
                    }
                },
                _ => {},
            }
        }
        j += 1;
    }
}

/// What root `r` says of the feed, and the items it holds, after its children
/// before index `j` are read: the root is read as a channel first, then each
/// `channel` child in turn, later fields replacing earlier ones.
pub open spec fn rss2_before(t: Tree, r: int, j: int) -> (FeedInfo, Seq<int>)
    decreases j - r,
{
    if j <= r + 1 {
        (channel_before(t, r, t.len(), empty_info()), items_before(t, r, t.len()))
    } else {
        let p = rss2_before(t, r, j - 1);
        if t.is_child(r, j - 1) && t.tag_is(j - 1, "channel"@) {
            (channel_before(t, j - 1, t.len(), p.0), p.1 + items_before(t, j - 1, t.len()))
        } else {
            p
        }
    }
}

/// `f` is what the RSS 2.0 root `r` yields.
pub open spec fn feed_matches(t: Tree, r: int, f: Feed) -> bool {
    let items = rss2_before(t, r, t.len()).1;
    &&& f.info() == rss2_before(t, r, t.len()).0
    &&& f.entries@.len() == items.len()
    &&& forall|k: int| 0 <= k < items.len() ==> entry_matches(t, #[trigger] items[k], f.entries@[k])
}

/// Extracts the feed under the RSS 2.0 root `r`: the root's own children are
/// read as a channel, then each `channel` child.
pub fn handle_rss2(t: &Tree, r: usize) -> (res: Option<Feed>)
    requires
        t.wf(),
        r < t.len(),
    ensures
        res is Some,
        feed_matches(*t, r as int, res->Some_0),
{
    let n = t.nodes.len();
    let mut feed = Feed::new();
    handle_channel(t, r, &mut feed);
    let mut j: usize = r + 1;
    while j < n
        invariant
            r < j <= n,
            n == t.len(),
            t.wf(),
            feed.info() == rss2_before(*t, r as int, j as int).0,
            feed.entries@.len() == rss2_before(*t, r as int, j as int).1.len(),
            forall|k: int|
                0 <= k < rss2_before(*t, r as int, j as int).1.len() ==> entry_matches(
                    *t,
                    #[trigger] rss2_before(*t, r as int, j as int).1[k],
                    feed.entries@[k],
                ),
        decreases n - j,
    {
        if t.nodes[j].parent == r {
            match &t.nodes[j].data {
                NodeData::Element { name, .. } => {
                    if same_text(name, "channel") {
                        let ghost before = feed;
                        let ghost p = rss2_before(*t, r as int, j as int);
                        handle_channel(t, j, &mut feed);
                        let ghost q = rss2_before(*t, r as int, j + 1);
                        let ghost extra = items_before(*t, j as int, t.len());
                        assert(q.1 == p.1 + extra);
                        assert forall|k: int| 0 <= k < q.1.len() implies entry_matches(
                            *t,
                            #[trigger] q.1[k],
                            feed.entries@[k],
                        ) by {
                            if k < p.1.len() {
                                assert(q.1[k] == p.1[k]);
                                assert(feed.entries@[k] == before.entries@[k]);
                            } else {
                                assert(q.1[k] == extra[k - p.1.len()]);
                            }
                        }
                    }
                },
                _ => {},
            }
        }
        j += 1;
    }
    Some(feed)
}

/// An enclosure element that lacks `type`, `length` or `url`, or whose
/// `length` is no integer, describes no enclosure.
pub proof fn lemma_enclosure_needs_all(t: Tree, c: int)
    requires
        t.attr_of(c, "type"@) is None || t.attr_of(c, "length"@) is None || t.attr_of(c, "url"@) is None
            || i64_parse_spec(t.attr_of(c, "length"@)->Some_0) is None,
    ensures
        enclosure_spec(t, c) is None,
{
}

/// Where no `enclosure` child of item `i` has a `length`, the item's entry has
/// no enclosures.
pub proof fn lemma_no_length_no_enclosures(t: Tree, i: int, j: int)
    requires
        forall|c: int| t.is_child(i, c) && #[trigger] t.tag_is(c, "enclosure"@) ==> t.attr_of(c, "length"@) is None,
    ensures
        enclosures_before(t, i, j).len() == 0,
    decreases j - i,
{
    if j > i + 1 {
        lemma_no_length_no_enclosures(t, i, j - 1);
        if t.is_child(i, j - 1) && t.tag_is(j - 1, "enclosure"@) {
            lemma_enclosure_needs_all(t, j - 1);
        }
    }
}

/// A channel `link` outside the Atom namespace sets the website to its text.
pub proof fn lemma_bare_link_gives_website(t: Tree, c: int, w: Option<Seq<char>>, s: Seq<char>)
    requires
        t.ns_of(c) != atom_ns(),
        t.text_spec(c) == Some(s),
    ensures
        website_step(t, c, w) == Some(s),
{
}

/// An Atom `link` with `rel="self"` sets the website to its `href`, whatever
/// text it holds.
pub proof fn lemma_atom_self_link_gives_website(t: Tree, c: int, w: Option<Seq<char>>, h: Seq<char>)
    requires
        t.ns_of(c) == atom_ns(),
        t.attr_of(c, "href"@) == Some(h),
        t.attr_of(c, "rel"@) == Some("self"@),
    ensures
        website_step(t, c, w) == Some(h),
{
}

/// An Atom `link` without `rel="self"` leaves the website as it was, whatever
/// text it holds.
pub proof fn lemma_other_atom_link_keeps_website(t: Tree, c: int, w: Option<Seq<char>>)
    requires
        t.ns_of(c) == atom_ns(),
        t.attr_of(c, "rel"@) != Some("self"@),
    ensures
        website_step(t, c, w) == w,
{
}

} // verus!
