//! Plain trees and their diff.
use vstd::prelude::*;
use crate::ast::{
    Button, ButtonDiff, ButtonDiffV, ButtonV, Cont, ContDiff, Div, DivDiff, DivDiffV, DivV, Input,
    InputDiff, InputDiffV, InputV, P, PDiff, PDiffV, PV,
};
use crate::change::{ChildChange, Diffable, NodeChange};

verus! {

/// A plain tree: what a render looks like once the components are gone.
#[derive(Debug, PartialEq)]
pub enum Node {
    Div(Div, Vec<Node>),
    Cont(Cont, Box<Node>),
    P(P),
    Button(Button),
    Input(Input),
}

/// How a node differs from an older node of the same kind.
#[derive(Debug, PartialEq)]
pub enum NodeDiff {
    Div(DivDiff, Vec<ChildChange<Node, NodeDiff>>),
    Cont(ContDiff, Box<NodeChange<Node, NodeDiff>>),
    P(PDiff),
    Button(ButtonDiff),
    Input(InputDiff),
}

/// A plain tree as a mathematical value.
pub enum NodeV {
    Div(DivV, Seq<NodeV>),
    Cont(Cont, Box<NodeV>),
    P(PV),
    Button(ButtonV),
    Input(InputV),
}

/// A node diff as a mathematical value.
pub enum NodeDiffV {
    Div(DivDiffV, Seq<ChildChange<NodeV, NodeDiffV>>),
    Cont(ContDiff, Box<NodeChange<NodeV, NodeDiffV>>),
    P(PDiffV),
    Button(ButtonDiffV),
    Input(InputDiffV),
}

pub open spec fn node_view(n: Node) -> NodeV
    decreases n,
{
    match n {
        Node::Div(p, ch) => NodeV::Div(p@, nodes_view(ch@)),
        Node::Cont(p, c) => NodeV::Cont(p, Box::new(node_view(*c))),
        Node::P(p) => NodeV::P(p@),
        Node::Button(p) => NodeV::Button(p@),
        Node::Input(p) => NodeV::Input(p@),
    }
}

pub open spec fn nodes_view(s: Seq<Node>) -> Seq<NodeV>
    decreases s,
{
    if s.len() == 0 {
        Seq::empty()
    } else {
        nodes_view(s.drop_last()).push(node_view(s.last()))
    }
}

pub open spec fn diff_view(d: NodeDiff) -> NodeDiffV
    decreases d,
{
    match d {
        NodeDiff::Div(p, ch) => NodeDiffV::Div(p@, child_changes_view(ch@)),
        NodeDiff::Cont(p, c) => NodeDiffV::Cont(p, Box::new(change_view(*c))),
        NodeDiff::P(p) => NodeDiffV::P(p@),
        NodeDiff::Button(p) => NodeDiffV::Button(p@),
        NodeDiff::Input(p) => NodeDiffV::Input(p@),
    }
}

pub open spec fn change_view(c: NodeChange<Node, NodeDiff>) -> NodeChange<NodeV, NodeDiffV>
    decreases c,
{
    match c {
        NodeChange::Swapped(n, o) => NodeChange::Swapped(node_view(n), node_view(o)),
        NodeChange::Changed(d) => NodeChange::Changed(diff_view(d)),
        NodeChange::Identical => NodeChange::Identical,
    }
}

pub open spec fn child_change_view(c: ChildChange<Node, NodeDiff>) -> ChildChange<NodeV, NodeDiffV>
    decreases c,
{
    match c {
        ChildChange::Removed(i, n) => ChildChange::Removed(i, node_view(n)),
        ChildChange::Inserted(i, n) => ChildChange::Inserted(i, node_view(n)),
        ChildChange::Changed(i, d) => ChildChange::Changed(i, diff_view(d)),
    }
}

pub open spec fn child_changes_view(s: Seq<ChildChange<Node, NodeDiff>>) -> Seq<
    ChildChange<NodeV, NodeDiffV>,
>
    decreases s,
{
    if s.len() == 0 {
        Seq::empty()
    } else {
        child_changes_view(s.drop_last()).push(child_change_view(s.last()))
    }
}

impl View for Node {
    type V = NodeV;

    open spec fn view(&self) -> NodeV {
        node_view(*self)
    }
}

pub proof fn lemma_nodes_view(s: Seq<Node>)
    ensures
        nodes_view(s) == s.map_values(|n: Node| node_view(n)),
    decreases s.len(),
{
    if s.len() > 0 {
        lemma_nodes_view(s.drop_last());
    }
    assert(nodes_view(s) =~= s.map_values(|n: Node| node_view(n)));
}

pub proof fn lemma_child_changes_view(s: Seq<ChildChange<Node, NodeDiff>>)
    ensures
        child_changes_view(s) == s.map_values(|c: ChildChange<Node, NodeDiff>| child_change_view(c)),
    decreases s.len(),
{
    if s.len() > 0 {
        lemma_child_changes_view(s.drop_last());
    }
    assert(child_changes_view(s) =~= s.map_values(
        |c: ChildChange<Node, NodeDiff>| child_change_view(c),
    ));
}

/// The entries that one compared child contributes to the list of child changes.
pub open spec fn child_changes_at(i: usize, c: NodeChange<NodeV, NodeDiffV>) -> Seq<
    ChildChange<NodeV, NodeDiffV>,
> {
    match c {
        NodeChange::Identical => Seq::empty(),
        NodeChange::Swapped(n, o) => seq![ChildChange::Removed(i, o), ChildChange::Inserted(i, n)],
        NodeChange::Changed(d) => seq![ChildChange::Changed(i, d)],
    }
}

/// How the tree `new` differs from the tree `old`.
pub open spec fn spec_node_diff(new: NodeV, old: NodeV) -> NodeChange<NodeV, NodeDiffV>
    decreases new, 0nat,
{
    match new {
        NodeV::Div(p, ch) => match old {
            NodeV::Div(op, och) => {
                let c = spec_compare_prefix(och, ch, shorter_len(och, ch));
                if c.len() == 0 && p == op {
                    NodeChange::Identical
                } else {
                    NodeChange::Changed(NodeDiffV::Div(p.spec_diff(op), c))
                }
            },
            _ => NodeChange::Swapped(new, old),
        },
        NodeV::Cont(p, c) => match old {
            NodeV::Cont(op, oc) => NodeChange::Changed(
                NodeDiffV::Cont(p.spec_diff(op), Box::new(spec_node_diff(*c, *oc))),
            ),
            _ => NodeChange::Swapped(new, old),
        },
        NodeV::P(p) => match old {
            NodeV::P(op) => if p == op {
                NodeChange::Identical
            } else {
                NodeChange::Changed(NodeDiffV::P(p.spec_diff(op)))
            },
            _ => NodeChange::Swapped(new, old),
        },
        NodeV::Button(p) => match old {
            NodeV::Button(op) => if p == op {
                NodeChange::Identical
            } else {
                NodeChange::Changed(NodeDiffV::Button(p.spec_diff(op)))
            },
            _ => NodeChange::Swapped(new, old),
        },
        NodeV::Input(p) => match old {
            NodeV::Input(op) => if p == op {
                NodeChange::Identical
            } else {
                NodeChange::Changed(NodeDiffV::Input(p.spec_diff(op)))
            },
            _ => NodeChange::Swapped(new, old),
        },
    }
}

/// The smaller of the two lengths.
pub open spec fn shorter_len<A, B>(a: Seq<A>, b: Seq<B>) -> nat {
    if a.len() < b.len() {
        a.len()
    } else {
        b.len()
    }
}

/// The child changes of the first `n` positions, each child of `new` against the
/// child of `old` at the same position.
pub open spec fn spec_compare_prefix(old: Seq<NodeV>, new: Seq<NodeV>, n: nat) -> Seq<
    ChildChange<NodeV, NodeDiffV>,
>
    decreases new, n,
{
    if n == 0 || n > new.len() || n > old.len() {
        Seq::empty()
    } else {
        spec_compare_prefix(old, new, (n - 1) as nat) + child_changes_at(
            (n - 1) as usize,
            spec_node_diff(new[n - 1], old[n - 1]),
        )
    }
}

/// The child changes of `new` against `old`: positions past the shorter list
/// give no change.
pub open spec fn spec_compare_children(old: Seq<NodeV>, new: Seq<NodeV>) -> Seq<
    ChildChange<NodeV, NodeDiffV>,
> {
    spec_compare_prefix(old, new, shorter_len(old, new))
}

impl Clone for Node {
    fn clone(&self) -> (r: Self)
        ensures
            node_view(r) == node_view(*self),
        decreases self,
    {
        match self {
            Node::Div(p, ch) => {
                let mut out: Vec<Node> = Vec::new();
                let n = ch.len();
                let mut i: usize = 0;
                while i < n
                    invariant
                        n == ch.len(),
                        i <= n,
                        out.len() == i,
                        forall|j: int| 0 <= j < i ==> node_view(#[trigger] out@[j]) == node_view(ch@[j]),
                        *self == Node::Div(*p, *ch),
                    decreases n - i,
                {
                    proof {
                        assert(decreases_to!(*self => self->Div_1));
                        assert(decreases_to!(self->Div_1 => self->Div_1@));
                        assert(decreases_to!(self->Div_1@ => self->Div_1@[i as int]));
                    }
                    let c = ch[i].clone();
                    out.push(c);
                    i = i + 1;
                }
                proof {
                    lemma_nodes_view(out@);
                    lemma_nodes_view(ch@);
                    assert(nodes_view(out@) =~= nodes_view(ch@));
                }
                Node::Div(p.clone(), out)
            },
            Node::Cont(p, c) => Node::Cont(p.clone(), Box::new((**c).clone())),
            Node::P(p) => Node::P(p.clone()),
            Node::Button(p) => Node::Button(p.clone()),
            Node::Input(p) => Node::Input(p.clone()),
        }
    }
}

/// Appends to `changes` the entries that the change `c` of the child at `i` gives.
pub(crate) fn push_child_changes(
    changes: &mut Vec<ChildChange<Node, NodeDiff>>,
    i: usize,
    c: NodeChange<Node, NodeDiff>,
)
    ensures
        child_changes_view(final(changes)@) == child_changes_view(old(changes)@) + child_changes_at(
            i,
            change_view(c),
        ),
{
    let ghost before = changes@;
    proof {
        lemma_child_changes_view(before);
    }
    match c {
        NodeChange::Identical => {},
        NodeChange::Swapped(new_swap, old_swap) => {
            changes.push(ChildChange::Removed(i, old_swap));
            changes.push(ChildChange::Inserted(i, new_swap));
        },
        NodeChange::Changed(diff) => {
            changes.push(ChildChange::Changed(i, diff));
        },
    }
    proof {
        lemma_child_changes_view(changes@);
        assert(child_changes_view(changes@) =~= child_changes_view(before) + child_changes_at(
            i,
            change_view(c),
        ));
    }
}

/// Compares the children of `new` with those of `old` position by position.
/// Only positions that both lists have are compared: a child that only one of the
/// lists has gives no change.
pub fn compare_children(old: Vec<Node>, new: &Vec<Node>) -> (r: Vec<ChildChange<Node, NodeDiff>>)
    ensures
        child_changes_view(r@) == spec_compare_children(nodes_view(old@), nodes_view(new@)),
    decreases new,
{
    let ghost oldv = nodes_view(old@);
    let ghost newv = nodes_view(new@);
    proof {
        lemma_nodes_view(old@);
        lemma_nodes_view(new@);
    }
    let ghost orig = old@;
    let mut rest = old;
    let mut changes: Vec<ChildChange<Node, NodeDiff>> = Vec::new();
    let m = if rest.len() < new.len() {
        rest.len()
    } else {
        new.len()
    };
    let mut i: usize = 0;
    while i < m
        invariant
            i <= m,
            m == shorter_len(orig, new@),
            rest@ == orig.skip(i as int),
            oldv == orig.map_values(|n: Node| node_view(n)),
            newv == new@.map_values(|n: Node| node_view(n)),
            child_changes_view(changes@) == spec_compare_prefix(oldv, newv, i as nat),
        decreases m - i,
    {
        let old_node = rest.remove(0);
        proof {
            assert(old_node == orig[i as int]);
            assert(decreases_to!(new => new@));
            assert(decreases_to!(new@ => new@[i as int]));
        }
        let c = new[i].diff(old_node);
        push_child_changes(&mut changes, i, c);
        i = i + 1;
        proof {
            assert(rest@ =~= orig.skip(i as int));
        }
    }
    changes
}

impl Diffable for Node {
    type Diff = NodeDiff;

    fn diff(&self, old: Node) -> (r: NodeChange<Node, NodeDiff>)
        ensures
            change_view(r) == spec_node_diff(node_view(*self), node_view(old)),
        decreases self,
    {
        match self {
            Node::Div(props, children) => match old {
                Node::Div(old_props, old_children) => {
                    proof {
                        assert(decreases_to!(*self => self->Div_1));
                    }
                    let compared = compare_children(old_children, children);
                    if compared.len() == 0 && *props == old_props {
                        proof {
                            lemma_child_changes_view(compared@);
                        }
                        NodeChange::Identical
                    } else {
                        proof {
                            lemma_child_changes_view(compared@);
                        }
                        NodeChange::Changed(NodeDiff::Div(props.diff(old_props), compared))
                    }
                },
                _ => NodeChange::Swapped(self.clone(), old),
            },
            Node::Cont(props, child) => match old {
                Node::Cont(old_props, old_child) => {
                    let d = child.diff(*old_child);
                    NodeChange::Changed(NodeDiff::Cont(props.diff(old_props), Box::new(d)))
                },
                _ => NodeChange::Swapped(self.clone(), old),
            },
            Node::P(props) => match old {
                Node::P(old_props) => {
                    if *props == old_props {
                        NodeChange::Identical
                    } else {
                        NodeChange::Changed(NodeDiff::P(props.diff(old_props)))
                    }
                },
                _ => NodeChange::Swapped(self.clone(), old),
            },
            Node::Button(props) => match old {
                Node::Button(old_props) => {
                    if *props == old_props {
                        NodeChange::Identical
                    } else {
                        NodeChange::Changed(NodeDiff::Button(props.diff(old_props)))
                    }
                },
                _ => NodeChange::Swapped(self.clone(), old),
            },
            Node::Input(props) => match old {
                Node::Input(old_props) => {
                    if *props == old_props {
                        NodeChange::Identical
                    } else {
                        NodeChange::Changed(NodeDiff::Input(props.diff(old_props)))
                    }
                },
                _ => NodeChange::Swapped(self.clone(), old),
            },
        }
    }
}

} // verus!
