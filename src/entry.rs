//! One item of a feed, and the links it carries.
use vstd::prelude::*;
use crate::time::{now, Timestamp};

verus! {

/// A link to a resource: its address, its MIME type and, where known, its
/// length in bytes.
#[derive(Clone, Debug)]
pub struct Link {
    pub href: String,
    pub mime_type: String,
    pub length: Option<i64>,
}

/// One item of a feed.
#[derive(Clone, Debug)]
pub struct Entry {
    pub id: String,
    pub title: Option<String>,
    pub content: Option<String>,
    pub summary: Option<String>,
    pub author: Option<String>,
    pub published: Timestamp,
    pub updated: Option<Timestamp>,
    pub alternate: Vec<Link>,
    pub keywords: Vec<String>,
    pub enclosure: Vec<Link>,
    pub fingerprint: String,
}

/// A link as (address, MIME type, length).
pub type LinkView = (Seq<char>, Seq<char>, Option<i64>);

impl View for Link {
    type V = LinkView;

    open spec fn view(&self) -> LinkView {
        (self.href@, self.mime_type@, self.length)
    }
}

pub open spec fn links_view(v: Seq<Link>) -> Seq<LinkView> {
    v.map_values(|l: Link| l@)
}

pub open spec fn strings_view(v: Seq<String>) -> Seq<Seq<char>> {
    v.map_values(|s: String| s@)
}

impl Link {
    /// A link of the given type, with no length.
    pub fn new(mime_type: &str, href: String) -> (r: Link)
        ensures
            r@ == (href@, mime_type@, None::<i64>),
    {
        Link { mime_type: mime_type.to_owned(), href, length: None }
    }

    /// An enclosure: a link of the given type and length.
    pub fn enc(mime_type: String, length: i64, href: String) -> (r: Link)
        ensures
            r@ == (href@, mime_type@, Some(length)),
    {
        Link { mime_type, href, length: Some(length) }
    }
}

impl Entry {
    /// An entry with an empty id, published now, and nothing else set.
    pub fn new() -> (r: Entry)
        ensures
            r.id@.len() == 0,
            r.title is None,
            r.content is None,
            r.summary is None,
            r.author is None,
            r.updated is None,
            r.alternate@.len() == 0,
            r.keywords@.len() == 0,
            r.enclosure@.len() == 0,
            r.fingerprint@.len() == 0,
    {
        Entry {
            id: String::new(),
            title: None,
            content: None,
            summary: None,
            author: None,
            published: now(),
            updated: None,
            alternate: Vec::new(),
            keywords: Vec::new(),
            enclosure: Vec::new(),
            fingerprint: String::new(),
        }
    }
}

} // verus!
