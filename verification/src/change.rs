use vstd::prelude::*;
use vstd::std_specs::cmp::PartialEqSpec;

verus! {

/// What became of one node when a new tree is compared with an old one.
#[derive(Debug, PartialEq)]
pub enum NodeChange<N, D> {
    /// The node was replaced by one of another kind: `Swapped(new, old)`.
    Swapped(N, N),
    /// The node kept its kind; the diff says what changed in it.
    Changed(D),
    /// Nothing changed.
    Identical,
}

impl<N, D> NodeChange<N, D> {
    /// Whether the change is `Identical`.
    pub fn is_identical(&self) -> (b: bool)
        ensures
            b == (*self is Identical),
    {
        if let NodeChange::Identical = self {
            true
        } else {
            false
        }
    }
}

/// A change in a list of children, with the position it applies to.
#[derive(Debug, PartialEq)]
pub enum ChildChange<N, D> {
    Removed(usize, N),
    Inserted(usize, N),
    Changed(usize, D),
}

/// `None` when `new` equals `old`, else a clone of `new`.
pub fn diff<T: PartialEq + Clone>(new: &T, old: &T) -> (r: Option<T>)
    ensures
        T::obeys_eq_spec() ==> (r is None <==> old.eq_spec(new)),
        r matches Some(c) ==> cloned(*new, c),
{
    if old == new {
        None
    } else {
        Some(new.clone())
    }
}

} // verus!

verus! {

/// A tree whose nodes can be compared, newest first.
pub trait Diffable where Self: Sized + Clone {
    type Diff;

    /// How `self` (the new node) differs from `old`.
    fn diff(&self, old: Self) -> NodeChange<Self, Self::Diff>;
}

/// Turns a rendered tree into its plain form.
pub trait ToPlain<T> {
    fn to_plain(&self) -> T;
}

/// What an update gives back: the new render and how it differs from the old one.
pub struct RenderResult<Render, Node, Diff> {
    pub render: Render,
    pub diff: NodeChange<Node, Diff>,
}

/// To be implemented on the request type: builds a render, fresh or from an old one.
pub trait ToRender<Render, Node, Diff> where Self: Sized {
    /// Whether updating `old` to `self` is a case that the implementation supports.
    spec fn update_supported(&self, old: &Render, compatible: bool) -> bool;

    fn render_new(self) -> Render;

    fn render_update(self, old: Render, compatible: bool) -> RenderResult<Render, Node, Diff>
        requires
            self.update_supported(&old, compatible),
    ;
}

} // verus!
