use vstd::prelude::*;

use crate::model::{lemma_rep_nodes_congruence, rep_attrs, rep_node, rep_nodes};

verus! {

/// One entry in the parsed tree: a tagged container, a run of raw character
/// data, or the text between comment delimiters.
#[derive(Debug, PartialEq)]
pub enum Node {
    Element(Element),
    Text(String),
    Comment(String),
}

/// A tagged container node: a name captured verbatim, attributes in document
/// order (duplicates kept), and children in document order.
#[derive(Debug, PartialEq)]
pub struct Element {
    pub tag_name: String,
    pub attributes: Vec<(String, String)>,
    pub children: Vec<Node>,
}

impl Element {
    /// An element with the given name and no attributes or children.
    pub fn new(tag_name: String) -> (e: Element)
        ensures
            e.tag_name == tag_name,
            e.attributes@ == Seq::<(String, String)>::empty(),
            e.children@ == Seq::<Node>::empty(),
    {
        Element { tag_name, attributes: Vec::new(), children: Vec::new() }
    }

    /// An element with the given name and attributes, and no children.
    pub fn with_attributes(tag_name: String, attributes: Vec<(String, String)>) -> (e: Element)
        ensures
            e.tag_name == tag_name,
            e.attributes == attributes,
            e.children@ == Seq::<Node>::empty(),
    {
        Element { tag_name, attributes, children: Vec::new() }
    }
}

impl Clone for Node {
    /// A deep copy: the copy holds the same tree as the original.
    fn clone(&self) -> (res: Self)
        ensures
            rep_node(res) == rep_node(*self),
        decreases *self,
    {
        match self {
            Node::Text(t) => Node::Text(t.clone()),
            Node::Comment(c) => Node::Comment(c.clone()),
            Node::Element(e) => Node::Element(e.clone()),
        }
    }
}

impl Clone for Element {
    /// A deep copy: the copy holds the same tag, attributes and children.
    fn clone(&self) -> (res: Self)
        ensures
            res.tag_name@ == self.tag_name@,
            rep_attrs(res.attributes@) == rep_attrs(self.attributes@),
            rep_nodes(res.children@) == rep_nodes(self.children@),
        decreases *self,
    {
        let tag_name = self.tag_name.clone();
        let mut attributes: Vec<(String, String)> = Vec::new();
        let mut i: usize = 0;
        while i < self.attributes.len()
            invariant
                i <= self.attributes.len(),
                attributes@ == self.attributes@.subrange(0, i as int),
            decreases self.attributes.len() - i,
        {
            let pair = (self.attributes[i].0.clone(), self.attributes[i].1.clone());
            attributes.push(pair);
            proof {
                assert(attributes@ =~= self.attributes@.subrange(0, i + 1));
            }
            i = i + 1;
        }
        proof {
            assert(attributes@ =~= self.attributes@);
        }
        let mut children: Vec<Node> = Vec::new();
        let mut j: usize = 0;
        while j < self.children.len()
            invariant
                j <= self.children.len(),
                children@.len() == j as int,
                forall|k: int| 0 <= k < j ==> rep_node(#[trigger] children@[k]) == rep_node(
                    self.children@[k],
                ),
            decreases self.children.len() - j,
        {
            let child = self.children[j].clone();
            children.push(child);
            j = j + 1;
        }
        proof {
            lemma_rep_nodes_congruence(children@, self.children@);
        }
        Element { tag_name, attributes, children }
    }
}

} // verus!
