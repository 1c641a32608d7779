//! The builders that the element-building macros call: a tag's required attributes
//! give a builder, optional attributes are set on it, children are added, and the
//! builder turns into a node.
use vstd::prelude::*;

verus! {

/// Hands out a builder for each tag.
pub struct Builder {}

/// The required attributes of the `div` tag.
#[allow(non_camel_case_types)]
pub struct div {
    pub a: String,
    pub b: String,
}

/// A `div` element: its required and optional attributes.
pub struct Div {
    pub a: String,
    pub b: String,
    pub c: Option<String>,
    pub d: Option<u32>,
}

/// A custom element.
pub struct Cust {}

/// The builder of a `div`: required attributes, optional ones not yet set, children.
pub struct DivBuilder {
    pub reqs: div,
    pub c: Option<String>,
    pub d: Option<u32>,
    pub _children: Vec<Node>,
}

pub enum Node {
    Div(Div),
    Custom(Cust),
}

impl Builder {
    /// A builder for a `div` with the required attributes and nothing else set.
    pub fn div(reqs: div) -> (r: DivBuilder)
        ensures
            r.reqs == reqs,
            r.c is None,
            r.d is None,
            r._children@.len() == 0,
    {
        DivBuilder { reqs, c: None, d: None, _children: Vec::new() }
    }

    /// A builder for a custom tag: built as a `div` builder.
    pub fn custom(reqs: div) -> (r: DivBuilder)
        ensures
            r.reqs == reqs,
            r.c is None,
            r.d is None,
            r._children@.len() == 0,
    {
        DivBuilder { reqs, c: None, d: None, _children: Vec::new() }
    }
}

impl DivBuilder {
    /// Adds a child at the end.
    pub fn add_child(&mut self, node: Node)
        ensures
            final(self)._children@ == old(self)._children@.push(node),
            final(self).reqs == old(self).reqs,
            final(self).c == old(self).c,
            final(self).d == old(self).d,
    {
        self._children.push(node);
    }

    /// The `div` node with the builder's attributes; the children are not kept.
    pub fn to_node(self) -> (r: Node)
        ensures
            r == Node::Div(Div { a: self.reqs.a, b: self.reqs.b, c: self.c, d: self.d }),
    {
        Node::Div(Div { a: self.reqs.a, b: self.reqs.b, c: self.c, d: self.d })
    }
}

/// An empty marker type.
pub struct TestStruct {}

} // verus!
