//! What a diff means: the change that a diff reports, applied to the old tree,
//! gives the new tree. Field diffs replace a field where they hold a value; child
//! changes edit the list of children in order.
use vstd::prelude::*;
use crate::ast::{ButtonDiffV, ButtonV, DivDiffV, DivV, InputDiffV, InputV, PDiffV, PV};
use crate::change::{ChildChange, NodeChange};
use crate::node::{NodeDiffV, NodeV};

verus! {

/// A field after its field diff: the value the diff holds, else the old value.
pub open spec fn apply_field<T>(old: T, d: Option<T>) -> T {
    match d {
        Some(v) => v,
        None => old,
    }
}

pub open spec fn patch_div(old: DivV, d: DivDiffV) -> DivV {
    DivV { name: apply_field(old.name, d.name) }
}

pub open spec fn patch_p(old: PV, d: PDiffV) -> PV {
    PV { text: apply_field(old.text, d.text) }
}

pub open spec fn patch_button(old: ButtonV, d: ButtonDiffV) -> ButtonV {
    ButtonV { text: apply_field(old.text, d.text) }
}

pub open spec fn patch_input(old: InputV, d: InputDiffV) -> InputV {
    InputV { prompt: apply_field(old.prompt, d.prompt), value: apply_field(old.value, d.value) }
}

/// The tree that the change `c` turns `old` into: unchanged for `Identical`, the
/// new node for `Swapped(new, _)`, the old node patched for `Changed`.
pub open spec fn apply_change(old: NodeV, c: NodeChange<NodeV, NodeDiffV>) -> NodeV
    decreases c,
{
    match c {
        NodeChange::Identical => old,
        NodeChange::Swapped(n, _) => n,
        NodeChange::Changed(d) => apply_diff(old, d),
    }
}

/// The node `old` patched by the diff `d` of a node of its kind.
pub open spec fn apply_diff(old: NodeV, d: NodeDiffV) -> NodeV
    decreases d,
{
    match d {
        NodeDiffV::Div(pd, cs) => match old {
            NodeV::Div(op, och) => NodeV::Div(patch_div(op, pd), apply_children(och, cs)),
            _ => old,
        },
        NodeDiffV::Cont(_, inner) => match old {
            NodeV::Cont(op, oc) => NodeV::Cont(op, Box::new(apply_change(*oc, *inner))),
            _ => old,
        },
        NodeDiffV::P(pd) => match old {
            NodeV::P(op) => NodeV::P(patch_p(op, pd)),
            _ => old,
        },
        NodeDiffV::Button(pd) => match old {
            NodeV::Button(op) => NodeV::Button(patch_button(op, pd)),
            _ => old,
        },
        NodeDiffV::Input(pd) => match old {
            NodeV::Input(op) => NodeV::Input(patch_input(op, pd)),
            _ => old,
        },
    }
}

/// The children after the child changes, applied one after the other.
pub open spec fn apply_children(s: Seq<NodeV>, cs: Seq<ChildChange<NodeV, NodeDiffV>>) -> Seq<
    NodeV,
>
    decreases cs,
{
    if cs.len() == 0 {
        s
    } else {
        apply_child_change(apply_children(s, cs.drop_last()), cs.last())
    }
}

/// One child change: `Changed(i, d)` patches child `i`, `Removed(i, _)` removes it,
/// `Inserted(i, n)` puts `n` at position `i`.
pub open spec fn apply_child_change(s: Seq<NodeV>, c: ChildChange<NodeV, NodeDiffV>) -> Seq<NodeV>
    decreases c,
{
    match c {
        ChildChange::Changed(i, d) => if i < s.len() {
            s.update(i as int, apply_diff(s[i as int], d))
        } else {
            s
        },
        ChildChange::Removed(i, _) => if i < s.len() {
            s.remove(i as int)
        } else {
            s
        },
        ChildChange::Inserted(i, n) => if i <= s.len() {
            s.insert(i as int, n)
        } else {
            s
        },
    }
}

/// Whether the lists of children of `new` and `old` have the same lengths, no
/// longer than a `Vec` can be, wherever both trees hold a `Div` at the same place. With `strict`, a `Div`
/// or `Cont` of `new` must also stand where `old` has one.
pub open spec fn shapes_match(new: NodeV, old: NodeV, strict: bool) -> bool
    decreases new,
{
    match new {
        NodeV::Div(_, ch) => match old {
            NodeV::Div(_, och) => ch.len() == och.len() && ch.len() <= usize::MAX
                && all_shapes_match(ch, och, strict),
            _ => !strict,
        },
        NodeV::Cont(_, c) => match old {
            NodeV::Cont(_, oc) => shapes_match(*c, *oc, strict),
            _ => !strict,
        },
        _ => true,
    }
}

pub open spec fn all_shapes_match(ch: Seq<NodeV>, och: Seq<NodeV>, strict: bool) -> bool
    decreases ch,
{
    ch.len() == 0 || (shapes_match(ch.last(), och[ch.len() - 1], strict) && all_shapes_match(
        ch.drop_last(),
        och,
        strict,
    ))
}

pub proof fn lemma_all_shapes_match_index(ch: Seq<NodeV>, och: Seq<NodeV>, strict: bool, i: int)
    requires
        all_shapes_match(ch, och, strict),
        0 <= i < ch.len(),
    ensures
        shapes_match(ch[i], och[i], strict),
    decreases ch.len(),
{
    if i < ch.len() - 1 {
        lemma_all_shapes_match_index(ch.drop_last(), och, strict, i);
    }
}

} // verus!
