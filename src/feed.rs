//! A whole feed: what its channel says of itself, and its entries.
use vstd::prelude::*;
use crate::entry::Entry;
use crate::time::Timestamp;

verus! {

/// One parsed feed document.
#[derive(Clone, Debug)]
pub struct Feed {
    pub title: Option<String>,
    pub description: Option<String>,
    pub website: Option<String>,
    pub language: Option<String>,
    pub last_updated: Option<Timestamp>,
    pub visual_url: Option<String>,
    pub entries: Vec<Entry>,
}

/// What a feed says of itself, apart from its entries.
pub struct FeedInfo {
    pub title: Option<Seq<char>>,
    pub description: Option<Seq<char>>,
    pub website: Option<Seq<char>>,
    pub language: Option<Seq<char>>,
    pub last_updated: Option<Timestamp>,
    pub visual_url: Option<Seq<char>>,
}

pub open spec fn empty_info() -> FeedInfo {
    FeedInfo {
        title: None,
        description: None,
        website: None,
        language: None,
        last_updated: None,
        visual_url: None,
    }
}

impl Feed {
    pub open spec fn info(&self) -> FeedInfo {
        FeedInfo {
            title: crate::tree::opt_view(self.title),
            description: crate::tree::opt_view(self.description),
            website: crate::tree::opt_view(self.website),
            language: crate::tree::opt_view(self.language),
            last_updated: self.last_updated,
            visual_url: crate::tree::opt_view(self.visual_url),
        }
    }

    /// A feed with nothing set and no entries.
    pub fn new() -> (r: Feed)
        ensures
            r.info() == empty_info(),
            r.entries@.len() == 0,
    {
        Feed {
            title: None,
            description: None,
            website: None,
            language: None,
            last_updated: None,
            visual_url: None,
            entries: Vec::new(),
        }
    }
}

} // verus!
