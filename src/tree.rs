//! An XML document as an arena of nodes. Every node but the document node
//! names its parent, which always stands at a smaller index; the children of a
//! node are the nodes that name it, in index order (which is document order).
use vstd::prelude::*;

verus! {

/// An attribute of an element, by its local name (its namespace dropped).
pub struct Attribute {
    pub name: String,
    pub value: String,
}

pub enum NodeData {
    Document,
    Element { ns: String, name: String, attrs: Vec<Attribute> },
    Text { contents: String },
    Other,
}

pub struct Node {
    pub parent: usize,
    pub data: NodeData,
}

pub struct Tree {
    pub nodes: Vec<Node>,
}

/// The contents of an optional string.
pub open spec fn opt_view(o: Option<String>) -> Option<Seq<char>> {
    match o {
        Some(s) => Some(s@),
        None => None,
    }
}

/// The first attribute at or after `k` whose local name is `name`.
pub open spec fn attr_from(attrs: Seq<Attribute>, name: Seq<char>, k: int) -> Option<Seq<char>>
    decreases attrs.len() - k,
{
    if k < 0 || k >= attrs.len() {
        None
    } else if attrs[k].name@ == name {
        Some(attrs[k].value@)
    } else {
        attr_from(attrs, name, k + 1)
    }
}

/// The value of the first attribute whose local name is `name`.
pub open spec fn attr_spec(attrs: Seq<Attribute>, name: Seq<char>) -> Option<Seq<char>> {
    attr_from(attrs, name, 0)
}

impl Tree {
    pub open spec fn len(&self) -> int {
        self.nodes@.len() as int
    }

    /// Each node but the first names a parent before it.
    pub open spec fn wf(&self) -> bool {
        &&& self.nodes@.len() >= 1
        &&& forall|j: int| 0 < j < self.nodes@.len() ==> (#[trigger] self.nodes@[j]).parent < j
    }

    pub open spec fn is_child(&self, i: int, j: int) -> bool {
        i < j < self.len() && self.nodes@[j].parent == i
    }

    /// Node `j` is an element whose local name is `tag`.
    pub open spec fn tag_is(&self, j: int, tag: Seq<char>) -> bool {
        match self.nodes@[j].data {
            NodeData::Element { name, .. } => name@ == tag,
            _ => false,
        }
    }

    pub open spec fn ns_of(&self, j: int) -> Seq<char> {
        match self.nodes@[j].data {
            NodeData::Element { ns, .. } => ns@,
            _ => Seq::empty(),
        }
    }

    pub open spec fn attrs_of(&self, j: int) -> Seq<Attribute> {
        match self.nodes@[j].data {
            NodeData::Element { attrs, .. } => attrs@,
            _ => Seq::empty(),
        }
    }

    /// The value of attribute `name` on node `j`.
    pub open spec fn attr_of(&self, j: int, name: Seq<char>) -> Option<Seq<char>> {
        attr_spec(self.attrs_of(j), name)
    }

    /// The contents of the first text node among the children of `i` at or
    /// after index `j`.
    pub open spec fn text_from(&self, i: int, j: int) -> Option<Seq<char>>
        decreases self.len() - j,
    {
        if j < 0 || j >= self.len() {
            None
        } else if self.is_child(i, j) && self.nodes@[j].data is Text {
            Some(self.nodes@[j].data->Text_contents@)
        } else {
            self.text_from(i, j + 1)
        }
    }

    /// The contents of the first text node directly under `i`.
    pub open spec fn text_spec(&self, i: int) -> Option<Seq<char>> {
        self.text_from(i, i + 1)
    }

    /// The first child of `i` at or after index `j` that is an element `tag`.
    pub open spec fn first_tagged(&self, i: int, tag: Seq<char>, j: int) -> Option<int>
        decreases self.len() - j,
    {
        if j < 0 || j >= self.len() {
            None
        } else if self.is_child(i, j) && self.tag_is(j, tag) {
            Some(j)
        } else {
            self.first_tagged(i, tag, j + 1)
        }
    }

    /// The last child of `i` before index `j` that is an element `tag`.
    pub open spec fn last_tagged(&self, i: int, tag: Seq<char>, j: int) -> Option<int>
        decreases j - i,
    {
        if j <= i + 1 {
            None
        } else if self.is_child(i, j - 1) && self.tag_is(j - 1, tag) {
            Some(j - 1)
        } else {
            self.last_tagged(i, tag, j - 1)
        }
    }

    /// The text of the last child element `tag` of `i`, if it has any.
    pub open spec fn last_text(&self, i: int, tag: Seq<char>) -> Option<Seq<char>> {
        match self.last_tagged(i, tag, self.len()) {
            Some(c) => self.text_spec(c),
            None => None,
        }
    }

    /// A tree that holds the document node alone.
    pub fn new() -> (r: Tree)
        ensures
            r.wf(),
            r.len() == 1,
            r.nodes@[0].data is Document,
    {
        let mut nodes: Vec<Node> = Vec::new();
        nodes.push(Node { parent: 0, data: NodeData::Document });
        Tree { nodes }
    }

    /// Appends a node under `parent` and returns its index.
    pub fn push_node(&mut self, parent: usize, data: NodeData) -> (r: usize)
        requires
            old(self).wf(),
            parent < old(self).len(),
        ensures
            final(self).wf(),
            r == old(self).len(),
            final(self).nodes@ == old(self).nodes@.push(Node { parent, data }),
    {
        let r = self.nodes.len();
        self.nodes.push(Node { parent, data });
        assert forall|j: int| 0 < j < self.nodes@.len() implies (#[trigger] self.nodes@[j]).parent < j by {
            if j < r {
                assert(self.nodes@[j] == old(self).nodes@[j]);
            }
        }
        r
    }

    /// Appends an element under `parent` and returns its index.
    pub fn add_element(&mut self, parent: usize, ns: &str, name: &str, attrs: Vec<Attribute>) -> (r: usize)
        requires
            old(self).wf(),
            parent < old(self).len(),
        ensures
            final(self).wf(),
            r == old(self).len(),
            final(self).len() == old(self).len() + 1,
            forall|j: int| 0 <= j < old(self).len() ==> final(self).nodes@[j] == old(self).nodes@[j],
            final(self).nodes@[r as int].parent == parent,
            final(self).tag_is(r as int, name@),
            final(self).ns_of(r as int) == ns@,
            final(self).attrs_of(r as int) == attrs@,
    {
        self.push_node(parent, NodeData::Element { ns: ns.to_owned(), name: name.to_owned(), attrs })
    }

    /// Appends a text node under `parent` and returns its index.
    pub fn add_text(&mut self, parent: usize, contents: &str) -> (r: usize)
        requires
            old(self).wf(),
            parent < old(self).len(),
        ensures
            final(self).wf(),
            r == old(self).len(),
            final(self).len() == old(self).len() + 1,
            forall|j: int| 0 <= j < old(self).len() ==> final(self).nodes@[j] == old(self).nodes@[j],
            final(self).nodes@[r as int].parent == parent,
            final(self).nodes@[r as int].data is Text,
            final(self).nodes@[r as int].data->Text_contents@ == contents@,
    {
        self.push_node(parent, NodeData::Text { contents: contents.to_owned() })
    }

    /// Whether every node but the first names a parent before it.
    pub fn is_wf(&self) -> (r: bool)
        ensures
            r == self.wf(),
    {
        if self.nodes.len() == 0 {
            return false;
        }
        let mut j: usize = 1;
        while j < self.nodes.len()
            invariant
                1 <= j <= self.nodes@.len(),
                forall|k: int| 0 < k < j ==> (#[trigger] self.nodes@[k]).parent < k,
            decreases self.nodes@.len() - j,
        {
            if self.nodes[j].parent >= j {
                return false;
            }
            j += 1;
        }
        true
    }
}

} // verus!
