//! Shared readers of the node tree, and the choice of dialect by root element.
use vstd::prelude::*;
use crate::feed::Feed;
use crate::time::{either_spec, opt_either_spec, rfc2822_spec, rfc3339_spec, Timestamp};
use crate::time::{rfc2822_from_str, rfc3339_from_str, timestamp_from_str};
use crate::rss2::{feed_matches, handle_rss2};
use crate::tree::{attr_from, attr_spec, opt_view, Attribute, NodeData, Tree};

verus! {

/// Relies on uuid's `Uuid::new_v4` and its `Display`, which writes the
/// hyphenated form: 32 hex digits and four hyphens. Each call draws anew.
#[verifier::external_body]
pub fn uuid_gen() -> (r: String)
    ensures
        r@.len() == 36,
{
    uuid::Uuid::new_v4().to_string()
}

/// Whether `s` holds exactly the characters of `lit`.
pub fn same_text(s: &String, lit: &str) -> (r: bool)
    ensures
        r == (s@ == lit@),
{
    let l = lit.to_owned();
    *s == l
}

/// The value of the first attribute whose local name is `attr_name`.
pub fn attr(attr_name: &str, attrs: &[Attribute]) -> (r: Option<String>)
    ensures
        opt_view(r) == attr_spec(attrs@, attr_name@),
{
    let mut k: usize = 0;
    while k < attrs.len()
        invariant
            k <= attrs@.len(),
            attr_from(attrs@, attr_name@, k as int) == attr_spec(attrs@, attr_name@),
        decreases attrs@.len() - k,
    {
        if same_text(&attrs[k].name, attr_name) {
            return Some(attrs[k].value.clone());
        }
        k += 1;
    }
    None
}

/// The contents of the first text node directly under node `i`.
pub fn text(t: &Tree, i: usize) -> (r: Option<String>)
    requires
        t.wf(),
        i < t.len(),
    ensures
        opt_view(r) == t.text_spec(i as int),
{
    let n = t.nodes.len();
    let mut j: usize = i + 1;
    while j < n
        invariant
            i < j <= t.len(),
            n == t.len(),
            t.text_from(i as int, j as int) == t.text_spec(i as int),
        decreases t.len() - j,
    {
        if t.nodes[j].parent == i {
            match &t.nodes[j].data {
                NodeData::Text { contents } => {
                    return Some(contents.clone());
                },
                _ => {},
            }
        }
        j += 1;
    }
    None
}

/// The text under node `i`, read as an RFC 3339 date.
pub fn timestamp_from_rfc3339(t: &Tree, i: usize) -> (r: Option<Timestamp>)
    requires
        t.wf(),
        i < t.len(),
    ensures
        r == (match t.text_spec(i as int) {
            Some(s) => rfc3339_spec(s),
            None => None,
        }),
{
    match text(t, i) {
        Some(s) => rfc3339_from_str(s.as_str()),
        None => None,
    }
}

/// The text under node `i`, read as an RFC 2822 date.
pub fn timestamp_from_rfc2822(t: &Tree, i: usize) -> (r: Option<Timestamp>)
    requires
        t.wf(),
        i < t.len(),
    ensures
        r == (match t.text_spec(i as int) {
            Some(s) => rfc2822_spec(s),
            None => None,
        }),
{
    match text(t, i) {
        Some(s) => rfc2822_from_str(s.as_str()),
        None => None,
    }
}

/// The text under node `i`, read as an RFC 2822 date or failing that as an
/// RFC 3339 date.
pub fn timestamp(t: &Tree, i: usize) -> (r: Option<Timestamp>)
    requires
        t.wf(),
        i < t.len(),
    ensures
        r == opt_either_spec(t.text_spec(i as int)),
{
    match text(t, i) {
        Some(s) => timestamp_from_str(s.as_str()),
        None => None,
    }
}

/// The three dialects of feed that a root element can announce.
#[derive(Clone, Copy, Debug, PartialEq, Eq, Structural)]
pub enum Dialect {
    Atom,
    Rss2,
    Rss1,
}

/// The `version` attribute of node `i`, empty where it has none.
pub open spec fn version_of(t: Tree, i: int) -> Seq<char> {
    match t.attr_of(i, "version"@) {
        Some(v) => v,
        None => Seq::empty(),
    }
}

/// The dialect that node `i` announces as a root: `feed` for Atom, `rss`
/// with version exactly `2.0` for RSS 2.0, `RDF` for RSS 1.0.
pub open spec fn dialect_spec(t: Tree, i: int) -> Option<Dialect> {
    if t.tag_is(i, "feed"@) {
        Some(Dialect::Atom)
    } else if t.tag_is(i, "rss"@) && version_of(t, i) == "2.0"@ {
        Some(Dialect::Rss2)
    } else if t.tag_is(i, "RDF"@) {
        Some(Dialect::Rss1)
    } else {
        None
    }
}

/// The first root found in a depth-first, left-to-right walk from node `i`.
pub open spec fn find_root(t: Tree, i: int) -> Option<(Dialect, int)>
    decreases t.len() - i, 0int,
{
    if i < 0 || i >= t.len() {
        None
    } else {
        match dialect_spec(t, i) {
            Some(d) => Some((d, i)),
            None => find_in_children(t, i, i + 1),
        }
    }
}

/// The first root found under the children of `i` at or after index `j`.
pub open spec fn find_in_children(t: Tree, i: int, j: int) -> Option<(Dialect, int)>
    decreases t.len() - i - 1, t.len() - j,
{
    if i < 0 || j <= i || j >= t.len() {
        None
    } else if t.is_child(i, j) {
        match find_root(t, j) {
            Some(r) => Some(r),
            None => find_in_children(t, i, j + 1),
        }
    } else {
        find_in_children(t, i, j + 1)
    }
}

/// The dialect that node `i` announces as a root, if any.
pub fn classify(t: &Tree, i: usize) -> (r: Option<Dialect>)
    requires
        t.wf(),
        i < t.len(),
    ensures
        r == dialect_spec(*t, i as int),
{
    match &t.nodes[i].data {
        NodeData::Element { name, attrs, .. } => {
            let version = match attr("version", attrs.as_slice()) {
                Some(v) => v,
                None => String::new(),
            };
            if same_text(name, "feed") {
                Some(Dialect::Atom)
            } else if same_text(name, "rss") && same_text(&version, "2.0") {
                Some(Dialect::Rss2)
            } else if same_text(name, "RDF") {
                Some(Dialect::Rss1)
            } else {
                None
            }
        },
        _ => None,
    }
}

/// Finds the first root in a depth-first, left-to-right walk from node `i`:
/// its dialect and its index.
pub fn walk(t: &Tree, i: usize) -> (r: Option<(Dialect, usize)>)
    requires
        t.wf(),
        i < t.len(),
    ensures
        match r {
            Some((d, k)) => find_root(*t, i as int) == Some((d, k as int)) && k < t.len(),
            None => find_root(*t, i as int) is None,
        },
    decreases t.len() - i, 0int,
{
    let n = t.nodes.len();
    match classify(t, i) {
        Some(d) => Some((d, i)),
        None => walk_children(t, i, i + 1),
    }
}

/// Finds the first root under the children of `i` at or after index `j`.
fn walk_children(t: &Tree, i: usize, j: usize) -> (r: Option<(Dialect, usize)>)
    requires
        t.wf(),
        i < j,
        i < t.len(),
    ensures
        match r {
            Some((d, k)) => find_in_children(*t, i as int, j as int) == Some((d, k as int)) && k < t.len(),
            None => find_in_children(*t, i as int, j as int) is None,
        },
    decreases t.len() - i - 1, t.len() - j,
{
    if j >= t.nodes.len() {
        return None;
    }
    if t.nodes[j].parent == i {
        match walk(t, j) {
            Some(r) => Some(r),
            None => walk_children(t, i, j + 1),
        }
    } else {
        walk_children(t, i, j + 1)
    }
}

/// The feed that a document tree holds: the first root found in a
/// depth-first walk decides the dialect. Only RSS 2.0 has an extractor here,
/// so a tree whose first root is Atom or RSS 1.0, or that has no root, yields
/// `None`.
pub fn parse(t: &Tree) -> (r: Option<Feed>)
    requires
        t.wf(),
    ensures
        match find_root(*t, 0) {
            Some((Dialect::Rss2, k)) => r is Some && feed_matches(*t, k, r->Some_0),
            _ => r is None,
        },
{
    match walk(t, 0) {
        Some((Dialect::Rss2, k)) => handle_rss2(t, k),
        _ => None,
    }
}

/// The bytes of ` rdf:`.
pub open spec fn rdf_pattern() -> Seq<u8> {
    seq![32u8, 114u8, 100u8, 102u8, 58u8]
}

/// `s` with each ` rdf:`, found left to right without overlap, replaced by a
/// single space.
pub open spec fn strip_rdf(s: Seq<u8>) -> Seq<u8>
    decreases s.len(),
{
    if s.len() >= 5 && s.subrange(0, 5) == rdf_pattern() {
        seq![32u8] + strip_rdf(s.subrange(5, s.len() as int))
    } else if s.len() == 0 {
        Seq::empty()
    } else {
        seq![s[0]] + strip_rdf(s.subrange(1, s.len() as int))
    }
}

/// Replaces each ` rdf:` in a document by a single space, before the document
/// is handed to the XML reader, which does not take that prefix as written.
pub fn strip_rdf_prefix(input: &[u8]) -> (r: Vec<u8>)
    ensures
        r@ == strip_rdf(input@),
{
    let n = input.len();
    let mut out: Vec<u8> = Vec::new();
    let mut i: usize = 0;
    proof {
        assert(input@.subrange(0, n as int) =~= input@);
        assert(out@ + strip_rdf(input@) =~= strip_rdf(input@));
    }
    while i < n
        invariant
            i <= n,
            n == input@.len(),
            out@ + strip_rdf(input@.subrange(i as int, n as int)) == strip_rdf(input@),
        decreases n - i,
    {
        let ghost rest = input@.subrange(i as int, n as int);
        if n - i >= 5 && input[i] == 32 && input[i + 1] == 114 && input[i + 2] == 100 && input[i + 3]
            == 102 && input[i + 4] == 58 {
            proof {
                assert(rest.subrange(0, 5) =~= rdf_pattern());
                assert(rest.subrange(5, rest.len() as int) =~= input@.subrange(i + 5, n as int));
                assert(out@.push(32u8) + strip_rdf(input@.subrange(i + 5, n as int)) =~= out@ + (seq![32u8]
                    + strip_rdf(input@.subrange(i + 5, n as int))));
            }
            out.push(32);
            i += 5;
        } else {
            proof {
                if rest.len() >= 5 && rest.subrange(0, 5) == rdf_pattern() {
                    assert(rest.subrange(0, 5)[0] == input@[i as int]);
                    assert(rest.subrange(0, 5)[1] == input@[i + 1]);
                    assert(rest.subrange(0, 5)[2] == input@[i + 2]);
                    assert(rest.subrange(0, 5)[3] == input@[i + 3]);
                    assert(rest.subrange(0, 5)[4] == input@[i + 4]);
                }
                assert(rest.subrange(1, rest.len() as int) =~= input@.subrange(i + 1, n as int));
                assert(out@.push(input@[i as int]) + strip_rdf(input@.subrange(i + 1, n as int)) =~= out@
                    + (seq![input@[i as int]] + strip_rdf(input@.subrange(i + 1, n as int))));
            }
            out.push(input[i]);
            i += 1;
        }
    }
    proof {
        assert(input@.subrange(n as int, n as int) =~= Seq::<u8>::empty());
        assert(out@ + Seq::<u8>::empty() =~= out@);
    }
    out
}

/// An `rss` element whose `version` is anything but exactly `2.0` (`0.91`,
/// `2`, `2.0.1`, or none at all) is no root of any dialect.
pub proof fn lemma_rss_version_is_exact(t: Tree, i: int)
    requires
        t.tag_is(i, "rss"@),
        version_of(t, i) != "2.0"@,
    ensures
        dialect_spec(t, i) is None,
{
    reveal_strlit("rss");
    reveal_strlit("feed");
    reveal_strlit("RDF");
    assert("rss"@ != "RDF"@) by {
        assert("rss"@[0] != "RDF"@[0]);
    }
    assert("rss"@ != "feed"@) by {
        assert("rss"@[0] != "feed"@[0]);
    }
}

/// A tree that holds nothing but the document node, as an empty document
/// gives, has no root, so no feed.
pub proof fn lemma_empty_document_has_no_root(t: Tree)
    requires
        t.wf(),
        t.len() == 1,
        t.nodes@[0].data is Document,
    ensures
        find_root(t, 0) is None,
{
    assert(find_in_children(t, 0, 1) is None);
}

} // verus!
