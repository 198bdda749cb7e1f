//! Reads RSS 2.0 syndication documents, given as a tree of XML nodes, into one
//! feed record; classifies RSS 1.0 and Atom roots as well.
use vstd::prelude::*;

pub mod entry;
pub mod feed;
pub mod parser;
pub mod rss2;
pub mod time;
pub mod tree;

verus! {

pub use crate::entry::{Entry, Link};
pub use crate::feed::Feed;

} // verus!
