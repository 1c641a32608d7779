//! Requests, renders and custom components.
use vstd::prelude::*;
use crate::ast::{Button, ButtonV, Cont, Div, DivV, Input, InputV, P, PV};
use crate::change::{ChildChange, NodeChange, RenderResult, ToPlain, ToRender};
use crate::node::{
    Node, NodeDiff, NodeDiffV, NodeV, change_view, child_changes_at, child_changes_view, shorter_len,
    child_change_view, lemma_child_changes_view, lemma_nodes_view, node_view, nodes_view,
    push_child_changes,
    spec_node_diff,
};
use crate::change::Diffable;

verus! {

/// The tree that a render function asks for. `Custom` holds a component that is
/// rendered in its turn.
#[derive(Debug)]
pub enum Request<K> {
    Div(Div, Vec<Request<K>>),
    Cont(Cont, Box<Request<K>>),
    P(P),
    Button(Button),
    Input(Input),
    Custom(Box<RequestedComponentImpl<K>>),
}

/// The tree that was built from a request; a custom component keeps what it rendered.
#[derive(Debug)]
pub enum Render<K> {
    Div(Div, Vec<Render<K>>),
    Cont(Cont, Box<Render<K>>),
    P(P),
    Button(Button),
    Input(Input),
    Custom(Box<RenderedComponent<K>>),
}

/// A component as requested: its renderer together with its props.
#[derive(Debug)]
pub struct RequestedComponentImpl<K> {
    pub component: K,
}

/// A component in use: rendered with its initial state.
#[derive(Debug)]
pub struct ComponentImpl<K> {
    pub component: K,
}

/// A component together with what it rendered.
#[derive(Debug)]
pub struct RenderedComponent<K> {
    pub renderer: ComponentImpl<K>,
    pub rendered: Render<K>,
}

/// What a component is updated from.
pub enum PreviousRender<K> {
    OfComponent(RenderedComponent<K>),
    OfRender(Render<K>),
}

/// The result of updating a component: the component with its new render, and the diff.
pub struct UpdateResult<K> {
    pub rendered_component: RenderedComponent<K>,
    pub diff: NodeChange<Node, NodeDiff>,
}

/// A request as a mathematical value.
pub enum RequestV<K> {
    Div(DivV, Seq<RequestV<K>>),
    Cont(Cont, Box<RequestV<K>>),
    P(PV),
    Button(ButtonV),
    Input(InputV),
    Custom(K),
}

/// A render as a mathematical value; `Custom` holds the component and what it rendered.
pub enum RenderV<K> {
    Div(DivV, Seq<RenderV<K>>),
    Cont(Cont, Box<RenderV<K>>),
    P(PV),
    Button(ButtonV),
    Input(InputV),
    Custom(K, Box<RenderV<K>>),
}

/// A custom component: renders the request that it stands for. Implemented by the
/// application for its components.
pub trait Renderer: Sized + View {
    /// The components that `render` asks for all have a smaller rank, so that
    /// rendering comes to an end.
    spec fn rank(c: Self::V) -> nat;

    /// The request that the component renders with its props and initial state.
    spec fn spec_render(c: Self::V) -> RequestV<Self::V>;

    /// Whether two components are of one type: same renderer, props and state types.
    spec fn spec_same_component(c: Self::V, other: Self::V) -> bool;

    /// Whether two components of one type have equal props.
    spec fn spec_same_props(c: Self::V, other: Self::V) -> bool;

    proof fn lemma_render_rank(c: Self::V)
        ensures
            request_rank(Self::spec_render(c), |d: Self::V| Self::rank(d)) < Self::rank(c),
    ;

    fn render(&self) -> (r: Request<Self>)
        ensures
            r@ == Self::spec_render(self@),
    ;

    fn same_component(&self, other: &Self) -> (b: bool)
        ensures
            b == Self::spec_same_component(self@, other@),
    ;

    fn same_props(&self, other: &Self) -> (b: bool)
        ensures
            b == Self::spec_same_props(self@, other@),
    ;
}

pub open spec fn max(a: nat, b: nat) -> nat {
    if a < b {
        b
    } else {
        a
    }
}

/// The largest rank of a component in the request, by the ranking `f`.
pub open spec fn request_rank<K>(r: RequestV<K>, f: spec_fn(K) -> nat) -> nat
    decreases r,
{
    match r {
        RequestV::Div(_, s) => requests_rank(s, f),
        RequestV::Cont(_, c) => request_rank(*c, f),
        RequestV::Custom(k) => f(k),
        _ => 0,
    }
}

pub open spec fn requests_rank<K>(s: Seq<RequestV<K>>, f: spec_fn(K) -> nat) -> nat
    decreases s,
{
    if s.len() == 0 {
        0
    } else {
        max(request_rank(s.last(), f), requests_rank(s.drop_last(), f))
    }
}

/// The ranking of the components.
pub open spec fn rank_of<K: Renderer>() -> spec_fn(K::V) -> nat {
    |c: K::V| K::rank(c)
}

pub proof fn lemma_requests_rank_ge<K>(s: Seq<RequestV<K>>, f: spec_fn(K) -> nat, i: int)
    requires
        0 <= i < s.len(),
    ensures
        request_rank(s[i], f) <= requests_rank(s, f),
    decreases s.len(),
{
    if i < s.len() - 1 {
        lemma_requests_rank_ge(s.drop_last(), f, i);
    }
}

/// A list whose requests all rank below `b > 0` ranks below `b`.
pub proof fn lemma_requests_rank_below<K>(s: Seq<RequestV<K>>, f: spec_fn(K) -> nat, b: nat)
    requires
        b > 0,
        forall|i: int| 0 <= i < s.len() ==> request_rank(#[trigger] s[i], f) < b,
    ensures
        requests_rank(s, f) < b,
    decreases s.len(),
{
    if s.len() > 0 {
        assert(request_rank(s[s.len() - 1], f) < b);
        lemma_requests_rank_below(s.drop_last(), f, b);
    }
}

pub proof fn lemma_render_rank<K: Renderer>(c: K::V)
    ensures
        request_rank(K::spec_render(c), rank_of::<K>()) < K::rank(c),
{
    K::lemma_render_rank(c);
    assert((|d: K::V| K::rank(d)) =~= rank_of::<K>());
}

pub open spec fn request_view<K: View>(r: Request<K>) -> RequestV<K::V>
    decreases r,
{
    match r {
        Request::Div(p, ch) => RequestV::Div(p@, requests_view(ch@)),
        Request::Cont(p, c) => RequestV::Cont(p, Box::new(request_view(*c))),
        Request::P(p) => RequestV::P(p@),
        Request::Button(p) => RequestV::Button(p@),
        Request::Input(p) => RequestV::Input(p@),
        Request::Custom(c) => RequestV::Custom(c.component@),
    }
}

pub open spec fn requests_view<K: View>(s: Seq<Request<K>>) -> Seq<RequestV<K::V>>
    decreases s,
{
    if s.len() == 0 {
        Seq::empty()
    } else {
        requests_view(s.drop_last()).push(request_view(s.last()))
    }
}

pub open spec fn render_view<K: View>(r: Render<K>) -> RenderV<K::V>
    decreases r,
{
    match r {
        Render::Div(p, ch) => RenderV::Div(p@, renders_view(ch@)),
        Render::Cont(p, c) => RenderV::Cont(p, Box::new(render_view(*c))),
        Render::P(p) => RenderV::P(p@),
        Render::Button(p) => RenderV::Button(p@),
        Render::Input(p) => RenderV::Input(p@),
        Render::Custom(c) => RenderV::Custom(
            c.renderer.component@,
            Box::new(render_view(c.rendered)),
        ),
    }
}

pub open spec fn renders_view<K: View>(s: Seq<Render<K>>) -> Seq<RenderV<K::V>>
    decreases s,
{
    if s.len() == 0 {
        Seq::empty()
    } else {
        renders_view(s.drop_last()).push(render_view(s.last()))
    }
}

impl<K: View> View for Request<K> {
    type V = RequestV<K::V>;

    open spec fn view(&self) -> RequestV<K::V> {
        request_view(*self)
    }
}

impl<K: View> View for Render<K> {
    type V = RenderV<K::V>;

    open spec fn view(&self) -> RenderV<K::V> {
        render_view(*self)
    }
}

pub proof fn lemma_requests_view<K: View>(s: Seq<Request<K>>)
    ensures
        requests_view(s) == s.map_values(|r: Request<K>| request_view(r)),
    decreases s.len(),
{
    if s.len() > 0 {
        lemma_requests_view(s.drop_last());
    }
    assert(requests_view(s) =~= s.map_values(|r: Request<K>| request_view(r)));
}

pub proof fn lemma_renders_view<K: View>(s: Seq<Render<K>>)
    ensures
        renders_view(s) == s.map_values(|r: Render<K>| render_view(r)),
    decreases s.len(),
{
    if s.len() > 0 {
        lemma_renders_view(s.drop_last());
    }
    assert(renders_view(s) =~= s.map_values(|r: Render<K>| render_view(r)));
}

/// The plain tree of a render: each custom component gives way to what it rendered.
pub open spec fn spec_to_plain<K>(r: RenderV<K>) -> NodeV
    decreases r,
{
    match r {
        RenderV::Div(p, ch) => NodeV::Div(p, spec_to_plain_seq(ch)),
        RenderV::Cont(p, c) => NodeV::Cont(p, Box::new(spec_to_plain(*c))),
        RenderV::P(p) => NodeV::P(p),
        RenderV::Button(p) => NodeV::Button(p),
        RenderV::Input(p) => NodeV::Input(p),
        RenderV::Custom(_, c) => spec_to_plain(*c),
    }
}

pub open spec fn spec_to_plain_seq<K>(s: Seq<RenderV<K>>) -> Seq<NodeV>
    decreases s,
{
    if s.len() == 0 {
        Seq::empty()
    } else {
        spec_to_plain_seq(s.drop_last()).push(spec_to_plain(s.last()))
    }
}

pub proof fn lemma_to_plain_seq<K>(s: Seq<RenderV<K>>)
    ensures
        spec_to_plain_seq(s) == s.map_values(|r: RenderV<K>| spec_to_plain(r)),
    decreases s.len(),
{
    if s.len() > 0 {
        lemma_to_plain_seq(s.drop_last());
    }
    assert(spec_to_plain_seq(s) =~= s.map_values(|r: RenderV<K>| spec_to_plain(r)));
}

/// The render built from scratch for a request.
pub open spec fn spec_render_new<K: Renderer>(r: RequestV<K::V>) -> RenderV<K::V>
    decreases request_rank(r, rank_of::<K>()), r,
{
    match r {
        RequestV::Div(p, s) => RenderV::Div(p, spec_render_new_seq::<K>(s)),
        RequestV::Cont(p, c) => RenderV::Cont(p, Box::new(spec_render_new::<K>(*c))),
        RequestV::P(p) => RenderV::P(p),
        RequestV::Button(p) => RenderV::Button(p),
        RequestV::Input(p) => RenderV::Input(p),
        RequestV::Custom(k) => {
            proof {
                lemma_render_rank::<K>(k);
            }
            RenderV::Custom(k, Box::new(spec_render_new::<K>(K::spec_render(k))))
        },
    }
}

pub open spec fn spec_render_new_seq<K: Renderer>(s: Seq<RequestV<K::V>>) -> Seq<RenderV<K::V>>
    decreases requests_rank(s, rank_of::<K>()), s,
{
    if s.len() == 0 {
        Seq::empty()
    } else {
        spec_render_new_seq::<K>(s.drop_last()).push(spec_render_new::<K>(s.last()))
    }
}

pub proof fn lemma_render_new_seq<K: Renderer>(s: Seq<RequestV<K::V>>)
    ensures
        spec_render_new_seq::<K>(s) == s.map_values(|r: RequestV<K::V>| spec_render_new::<K>(r)),
    decreases s.len(),
{
    if s.len() > 0 {
        lemma_render_new_seq::<K>(s.drop_last());
    }
    assert(spec_render_new_seq::<K>(s) =~= s.map_values(|r: RequestV<K::V>| spec_render_new::<K>(r)));
}

/// The change entries of the children that only the new list has.
pub open spec fn spec_inserted_changes<K>(added: Seq<RenderV<K>>, start: nat) -> Seq<
    ChildChange<NodeV, NodeDiffV>,
> {
    Seq::new(
        added.len(),
        |i: int| ChildChange::Inserted((i + start) as usize, spec_to_plain(added[i])),
    )
}

/// The change entries of the children that only the old list has.
pub open spec fn spec_removed_changes<K>(removed: Seq<RenderV<K>>, start: nat) -> Seq<
    ChildChange<NodeV, NodeDiffV>,
> {
    Seq::new(
        removed.len(),
        |i: int| ChildChange::Removed((i + start) as usize, spec_to_plain(removed[i])),
    )
}

/// The render and the diff that updating the render `old` to the request `req` gives.
/// `compatible` says that custom components are rendered afresh and compared by
/// their plain trees.
pub open spec fn spec_render_update<K: Renderer>(
    req: RequestV<K::V>,
    old: RenderV<K::V>,
    compatible: bool,
) -> (RenderV<K::V>, NodeChange<NodeV, NodeDiffV>)
    decreases request_rank(req, rank_of::<K>()), req, 0nat,
{
    match req {
        RequestV::Div(p, ch) => match old {
            RenderV::Div(op, och) => {
                let (rs, cs) = spec_compare_render_children::<K>(ch, och, compatible);
                let diff = if p == op && cs.len() == 0 {
                    NodeChange::Identical
                } else {
                    NodeChange::Changed(NodeDiffV::Div(p.spec_diff(op), cs))
                };
                (RenderV::Div(p, rs), diff)
            },
            _ => {
                let r = RenderV::Div(p, spec_render_new_seq::<K>(ch));
                (r, spec_node_diff(spec_to_plain(old), spec_to_plain(r)))
            },
        },
        RequestV::Cont(p, c) => match old {
            RenderV::Cont(op, oc) => {
                let (cr, cd) = spec_render_update::<K>(*c, *oc, false);
                let diff = if p == op && cd is Identical {
                    NodeChange::Identical
                } else {
                    NodeChange::Changed(NodeDiffV::Cont(p.spec_diff(op), Box::new(cd)))
                };
                (RenderV::Cont(p, Box::new(cr)), diff)
            },
            _ => {
                let r = RenderV::Cont(p, Box::new(spec_render_new::<K>(*c)));
                (r, spec_node_diff(spec_to_plain(old), spec_to_plain(r)))
            },
        },
        RequestV::P(p) => (
            RenderV::P(p),
            match old {
                RenderV::P(op) => if p == op {
                    NodeChange::Identical
                } else {
                    NodeChange::Changed(NodeDiffV::P(p.spec_diff(op)))
                },
                _ => NodeChange::Swapped(NodeV::P(p), spec_to_plain(old)),
            },
        ),
        RequestV::Button(p) => (
            RenderV::Button(p),
            match old {
                RenderV::Button(op) => if p == op {
                    NodeChange::Identical
                } else {
                    NodeChange::Changed(NodeDiffV::Button(p.spec_diff(op)))
                },
                _ => NodeChange::Swapped(NodeV::Button(p), spec_to_plain(old)),
            },
        ),
        RequestV::Input(p) => (
            RenderV::Input(p),
            match old {
                RenderV::Input(op) => if p == op {
                    NodeChange::Identical
                } else {
                    NodeChange::Changed(NodeDiffV::Input(p.spec_diff(op)))
                },
                _ => NodeChange::Swapped(NodeV::Input(p), spec_to_plain(old)),
            },
        ),
        RequestV::Custom(k) => {
            proof {
                lemma_render_rank::<K>(k);
            }
            if compatible {
                let rendered = spec_render_new::<K>(K::spec_render(k));
                (
                    RenderV::Custom(k, Box::new(rendered)),
                    spec_node_diff(spec_to_plain(rendered), spec_to_plain(old)),
                )
            } else {
                match old {
                    RenderV::Custom(ok, orendered) => {
                        if K::spec_same_component(ok, k) {
                            // equal props keep the old component and render
                            (old, NodeChange::Identical)
                        } else {
                            let (r, d) = spec_render_update::<K>(K::spec_render(k), *orendered, true);
                            (RenderV::Custom(k, Box::new(r)), d)
                        }
                    },
                    _ => {
                        let (r, d) = spec_render_update::<K>(K::spec_render(k), old, false);
                        (RenderV::Custom(k, Box::new(r)), d)
                    },
                }
            }
        },
    }
}

/// The renders and child changes of the first `n` positions that both lists have.
pub open spec fn spec_update_prefix<K: Renderer>(
    new: Seq<RequestV<K::V>>,
    old: Seq<RenderV<K::V>>,
    compatible: bool,
    n: nat,
) -> (Seq<RenderV<K::V>>, Seq<ChildChange<NodeV, NodeDiffV>>)
    decreases requests_rank(new, rank_of::<K>()), new, n,
{
    if n == 0 || n > new.len() || n > old.len() {
        (Seq::empty(), Seq::empty())
    } else {
        proof {
            lemma_requests_rank_ge(new, rank_of::<K>(), n - 1);
        }
        let (rs, cs) = spec_update_prefix::<K>(new, old, compatible, (n - 1) as nat);
        let (r, d) = spec_render_update::<K>(new[n - 1], old[n - 1], compatible);
        (rs.push(r), cs + child_changes_at((n - 1) as usize, d))
    }
}

/// The new renders and the child changes of a list of requests against the old
/// renders: positions in both are updated, requests past the old list are rendered
/// afresh and inserted, renders past the new list are removed. The changes list the
/// updated positions first, then the insertions, then the removals.
pub open spec fn spec_compare_render_children<K: Renderer>(
    new: Seq<RequestV<K::V>>,
    old: Seq<RenderV<K::V>>,
    compatible: bool,
) -> (Seq<RenderV<K::V>>, Seq<ChildChange<NodeV, NodeDiffV>>)
    decreases requests_rank(new, rank_of::<K>()), new, new.len() + 1,
{
    let m = shorter_len(new, old);
    let (rs, cs) = spec_update_prefix::<K>(new, old, compatible, m);
    let added = spec_render_new_seq::<K>(new.skip(m as int));
    (
        rs + added,
        cs + spec_inserted_changes(added, m) + spec_removed_changes(old.skip(m as int), m),
    )
}

/// Whether updating `old` to `req` stays clear of the case that is not supported:
/// a custom component updated, not compatibly, from a component of its own type
/// with other props.
pub open spec fn spec_update_ok<K: Renderer>(
    req: RequestV<K::V>,
    old: RenderV<K::V>,
    compatible: bool,
) -> bool
    decreases request_rank(req, rank_of::<K>()), req, 0nat,
{
    match req {
        RequestV::Div(_, ch) => match old {
            RenderV::Div(_, och) => spec_children_update_ok::<K>(ch, och, compatible),
            _ => true,
        },
        RequestV::Cont(_, c) => match old {
            RenderV::Cont(_, oc) => spec_update_ok::<K>(*c, *oc, false),
            _ => true,
        },
        RequestV::Custom(k) => {
            proof {
                lemma_render_rank::<K>(k);
            }
            if compatible {
                true
            } else {
                match old {
                    RenderV::Custom(ok, orendered) => if K::spec_same_component(ok, k) {
                        K::spec_same_props(ok, k)
                    } else {
                        spec_update_ok::<K>(K::spec_render(k), *orendered, true)
                    },
                    _ => spec_update_ok::<K>(K::spec_render(k), old, false),
                }
            }
        },
        _ => true,
    }
}

pub open spec fn spec_update_prefix_ok<K: Renderer>(
    new: Seq<RequestV<K::V>>,
    old: Seq<RenderV<K::V>>,
    compatible: bool,
    n: nat,
) -> bool
    decreases requests_rank(new, rank_of::<K>()), new, n,
{
    if n == 0 || n > new.len() || n > old.len() {
        true
    } else {
        proof {
            lemma_requests_rank_ge(new, rank_of::<K>(), n - 1);
        }
        spec_update_prefix_ok::<K>(new, old, compatible, (n - 1) as nat) && spec_update_ok::<K>(
            new[n - 1],
            old[n - 1],
            compatible,
        )
    }
}

pub open spec fn spec_children_update_ok<K: Renderer>(
    new: Seq<RequestV<K::V>>,
    old: Seq<RenderV<K::V>>,
    compatible: bool,
) -> bool
    decreases requests_rank(new, rank_of::<K>()), new, new.len() + 1,
{
    spec_update_prefix_ok::<K>(new, old, compatible, shorter_len(new, old))
}

/// What a component is updated from, as a mathematical value.
pub enum PreviousRenderV<K> {
    OfComponent(K, RenderV<K>),
    OfRender(RenderV<K>),
}

pub open spec fn previous_view<K: View>(p: PreviousRender<K>) -> PreviousRenderV<K::V> {
    match p {
        PreviousRender::OfComponent(c) => PreviousRenderV::OfComponent(
            c.renderer.component@,
            render_view(c.rendered),
        ),
        PreviousRender::OfRender(r) => PreviousRenderV::OfRender(render_view(r)),
    }
}

/// The component, its render and the diff that updating the component `k` from
/// `prev` gives. A component of the same type with equal props is kept with its old
/// render; any other is rendered with its initial state and compared.
pub open spec fn spec_component_update<K: Renderer>(k: K::V, prev: PreviousRenderV<K::V>) -> (
    K::V,
    RenderV<K::V>,
    NodeChange<NodeV, NodeDiffV>,
) {
    match prev {
        PreviousRenderV::OfComponent(ok, orendered) => if K::spec_same_component(ok, k) {
            (ok, orendered, NodeChange::Identical)
        } else {
            let (r, d) = spec_render_update::<K>(K::spec_render(k), orendered, true);
            (k, r, d)
        },
        PreviousRenderV::OfRender(r) => {
            let (r2, d) = spec_render_update::<K>(K::spec_render(k), r, false);
            (k, r2, d)
        },
    }
}

/// Whether updating the component `k` from `prev` is supported: a component of the
/// same type must have equal props.
pub open spec fn spec_component_update_ok<K: Renderer>(k: K::V, prev: PreviousRenderV<K::V>) -> bool {
    match prev {
        PreviousRenderV::OfComponent(ok, orendered) => if K::spec_same_component(ok, k) {
            K::spec_same_props(ok, k)
        } else {
            spec_update_ok::<K>(K::spec_render(k), orendered, true)
        },
        PreviousRenderV::OfRender(r) => spec_update_ok::<K>(K::spec_render(k), r, false),
    }
}

pub proof fn lemma_update_prefix_ok<K: Renderer>(
    new: Seq<RequestV<K::V>>,
    old: Seq<RenderV<K::V>>,
    compatible: bool,
    n: nat,
    j: int,
)
    requires
        spec_update_prefix_ok::<K>(new, old, compatible, n),
        0 <= j < n,
        n <= new.len(),
        n <= old.len(),
    ensures
        spec_update_ok::<K>(new[j], old[j], compatible),
    decreases n,
{
    if j < n - 1 {
        lemma_update_prefix_ok::<K>(new, old, compatible, (n - 1) as nat, j);
    }
}

impl<K: View> ToPlain<Node> for Render<K> {
    /// The plain tree of the render.
    fn to_plain(&self) -> (r: Node)
        ensures
            node_view(r) == spec_to_plain(render_view(*self)),
        decreases self,
    {
        match self {
            Render::Div(props, children) => {
                let mut out: Vec<Node> = Vec::new();
                let n = children.len();
                let mut i: usize = 0;
                while i < n
                    invariant
                        n == children.len(),
                        i <= n,
                        out.len() == i,
                        forall|j: int|
                            0 <= j < i ==> node_view(#[trigger] out@[j]) == spec_to_plain(
                                render_view(children@[j]),
                            ),
                        *self == Render::<K>::Div(*props, *children),
                    decreases n - i,
                {
                    proof {
                        assert(decreases_to!(*self => self->Div_1));
                        assert(decreases_to!(self->Div_1 => self->Div_1@));
                        assert(decreases_to!(self->Div_1@ => self->Div_1@[i as int]));
                    }
                    let c = children[i].to_plain();
                    out.push(c);
                    i = i + 1;
                }
                proof {
                    lemma_nodes_view(out@);
                    lemma_renders_view(children@);
                    lemma_to_plain_seq(renders_view(children@));
                    assert(nodes_view(out@) =~= spec_to_plain_seq(renders_view(children@)));
                }
                Node::Div(props.clone(), out)
            },
            Render::Cont(props, child) => Node::Cont(props.clone(), Box::new(child.to_plain())),
            Render::P(props) => Node::P(props.clone()),
            Render::Button(props) => Node::Button(props.clone()),
            Render::Input(props) => Node::Input(props.clone()),
            Render::Custom(component) => component.rendered.to_plain(),
        }
    }
}

impl<K: Renderer> RequestedComponentImpl<K> {
    /// Renders the component afresh, with its initial state.
    pub fn render_new(self) -> (r: RenderedComponent<K>)
        ensures
            r.renderer.component@ == self.component@,
            render_view(r.rendered) == spec_render_new::<K>(K::spec_render(self.component@)),
        decreases 3 * K::rank(self.component@) + 1, self,
    {
        let renderer = ComponentImpl { component: self.component };
        let rendered = renderer.render_new();
        RenderedComponent { renderer, rendered }
    }
}

impl<K: Renderer> ComponentImpl<K> {
    /// Renders the request that the component asks for, afresh.
    pub fn render_new(&self) -> (r: Render<K>)
        ensures
            render_view(r) == spec_render_new::<K>(K::spec_render(self.component@)),
        decreases 3 * K::rank(self.component@), self,
    {
        let new_request = self.component.render();
        proof {
            lemma_render_rank::<K>(self.component@);
        }
        new_request.render_new()
    }
}

impl<K: View> Request<K> {
    /// A request for the custom component `component`.
    pub fn custom(component: K) -> (r: Request<K>)
        ensures
            r@ == RequestV::Custom(component@),
    {
        Request::Custom(Box::new(RequestedComponentImpl { component }))
    }
}

/// Renders each request of the list afresh.
fn render_new_children<K: Renderer>(children: Vec<Request<K>>) -> (r: Vec<Render<K>>)
    ensures
        renders_view(r@) == spec_render_new_seq::<K>(requests_view(children@)),
    decreases 3 * requests_rank(requests_view(children@), rank_of::<K>()) + 2, children,
{
    let ghost orig = children@;
    let ghost ch0 = children;
    proof {
        lemma_requests_view(orig);
    }
    let mut rest = children;
    let mut out: Vec<Render<K>> = Vec::new();
    let n = rest.len();
    let mut i: usize = 0;
    while i < n
        invariant
            n == orig.len(),
            i <= n,
            rest@ == orig.skip(i as int),
            out.len() == i,
            forall|j: int|
                0 <= j < i ==> render_view(#[trigger] out@[j]) == spec_render_new::<K>(
                    request_view(orig[j]),
                ),
            ch0@ == orig,
            ch0 == children,
            requests_view(orig) == orig.map_values(|r: Request<K>| request_view(r)),
        decreases n - i,
    {
        let x = rest.remove(0);
        proof {
            assert(x == orig[i as int]);
            assert(decreases_to!(ch0 => ch0@));
            assert(decreases_to!(ch0@ => ch0@[i as int]));
            lemma_requests_rank_ge(requests_view(orig), rank_of::<K>(), i as int);
        }
        let rx = x.render_new();
        out.push(rx);
        i = i + 1;
        proof {
            assert(rest@ =~= orig.skip(i as int));
        }
    }
    proof {
        lemma_renders_view(out@);
        lemma_render_new_seq::<K>(requests_view(orig));
        assert(renders_view(out@) =~= spec_render_new_seq::<K>(requests_view(orig)));
    }
    out
}

impl<K: Renderer> ToRender<Render<K>, Node, NodeDiff> for Request<K> {
    open spec fn update_supported(&self, old: &Render<K>, compatible: bool) -> bool {
        spec_update_ok::<K>(self@, old@, compatible)
    }

    /// Builds the render of the request from scratch.
    fn render_new(self) -> (r: Render<K>)
        ensures
            r@ == spec_render_new::<K>(self@),
        decreases 3 * request_rank(self@, rank_of::<K>()) + 2, self,
    {
        match self {
            Request::Div(props, children) => {
                proof {
                    assert(decreases_to!(self => self->Div_1));
                }
                Render::Div(props, render_new_children(children))
            },
            Request::Cont(props, child) => Render::Cont(props, Box::new(child.render_new())),
            Request::P(props) => Render::P(props),
            Request::Button(props) => Render::Button(props),
            Request::Input(props) => Render::Input(props),
            Request::Custom(component) => {
                let rc = component.render_new_box();
                Render::Custom(Box::new(rc))
            },
        }
    }

    /// Updates the render `old` to this request.
    fn render_update(self, old: Render<K>, compatible: bool) -> (r: RenderResult<
        Render<K>,
        Node,
        NodeDiff,
    >)
        ensures
            (r.render@, change_view(r.diff)) == spec_render_update::<K>(self@, old@, compatible),
        decreases 3 * request_rank(self@, rank_of::<K>()) + 2, self,
    {
        let ghost oldv = old@;
        match self {
            Request::Div(props, children) => match old {
                Render::Div(other_props, old_children) => {
                    proof {
                        assert(decreases_to!(self => self->Div_1));
                    }
                    let (children_render, children_changes) = compare_render_children(
                        children,
                        old_children,
                        compatible,
                    );
                    proof {
                        lemma_child_changes_view(children_changes@);
                    }
                    if props == other_props && children_changes.len() == 0 {
                        RenderResult {
                            render: Render::Div(props, children_render),
                            diff: NodeChange::Identical,
                        }
                    } else {
                        let diff = NodeChange::Changed(
                            NodeDiff::Div(props.diff(other_props), children_changes),
                        );
                        RenderResult { render: Render::Div(props, children_render), diff }
                    }
                },
                other => {
                    let render = Render::Div(props, render_new_children(children));
                    let diff = other.to_plain().diff(render.to_plain());
                    RenderResult { render, diff }
                },
            },
            Request::Cont(props, child) => match old {
                Render::Cont(other_props, other_child) => {
                    let RenderResult { render: child_render, diff: child_diff } =
                        child.render_update(*other_child, false);
                    if props == other_props && child_diff.is_identical() {
                        RenderResult {
                            render: Render::Cont(props, Box::new(child_render)),
                            diff: NodeChange::Identical,
                        }
                    } else {
                        let diff = NodeChange::Changed(
                            NodeDiff::Cont(props.diff(other_props), Box::new(child_diff)),
                        );
                        RenderResult { render: Render::Cont(props, Box::new(child_render)), diff }
                    }
                },
                other => {
                    let render = Render::Cont(props, Box::new(child.render_new()));
                    let diff = other.to_plain().diff(render.to_plain());
                    RenderResult { render, diff }
                },
            },
            Request::P(props) => {
                let diff = match old {
                    Render::P(other_props) => {
                        if props == other_props {
                            NodeChange::Identical
                        } else {
                            NodeChange::Changed(NodeDiff::P(props.diff(other_props)))
                        }
                    },
                    other => NodeChange::Swapped(Node::P(props.clone()), other.to_plain()),
                };
                RenderResult { render: Render::P(props), diff }
            },
            Request::Button(props) => {
                let diff = match old {
                    Render::Button(other_props) => {
                        if props == other_props {
                            NodeChange::Identical
                        } else {
                            NodeChange::Changed(NodeDiff::Button(props.diff(other_props)))
                        }
                    },
                    other => NodeChange::Swapped(Node::Button(props.clone()), other.to_plain()),
                };
                RenderResult { render: Render::Button(props), diff }
            },
            Request::Input(props) => {
                let diff = match old {
                    Render::Input(other_props) => {
                        if props == other_props {
                            NodeChange::Identical
                        } else {
                            NodeChange::Changed(NodeDiff::Input(props.diff(other_props)))
                        }
                    },
                    other => NodeChange::Swapped(Node::Input(props.clone()), other.to_plain()),
                };
                RenderResult { render: Render::Input(props), diff }
            },
            Request::Custom(requested_component) => {
                proof {
                    lemma_render_rank::<K>(requested_component.component@);
                }
                if compatible {
                    let render = requested_component.render_new();
                    let plain = render.rendered.to_plain();
                    let old_plain = old.to_plain();
                    let diff = plain.diff(old_plain);
                    RenderResult { render: Render::Custom(Box::new(render)), diff }
                } else {
                    let prev = match old {
                        Render::Custom(component) => PreviousRender::OfComponent(*component),
                        render => PreviousRender::OfRender(render),
                    };
                    let rendered = requested_component.render_update_box(prev);
                    RenderResult {
                        render: Render::Custom(Box::new(rendered.rendered_component)),
                        diff: rendered.diff,
                    }
                }
            },
        }
    }
}

impl<K: Renderer> RequestedComponentImpl<K> {
    /// Updates the component from what was rendered before. A component of the same
    /// type with equal props keeps its old render; any other is rendered with its
    /// initial state and compared with the old render.
    pub fn render_update(self, previous_render: PreviousRender<K>) -> (r: UpdateResult<K>)
        requires
            spec_component_update_ok::<K>(self.component@, previous_view(previous_render)),
        ensures
            (
                r.rendered_component.renderer.component@,
                render_view(r.rendered_component.rendered),
                change_view(r.diff),
            ) == spec_component_update::<K>(self.component@, previous_view(previous_render)),
        decreases 3 * K::rank(self.component@) + 1, self,
    {
        match previous_render {
            PreviousRender::OfComponent(previous) => {
                let RenderedComponent { renderer, rendered } = previous;
                if renderer.component.same_component(&self.component) {
                    UpdateResult {
                        rendered_component: RenderedComponent { renderer, rendered },
                        diff: NodeChange::Identical,
                    }
                } else {
                    let new_renderer = ComponentImpl { component: self.component };
                    let RenderResult { render, diff } = new_renderer.render_update(rendered, true);
                    UpdateResult {
                        rendered_component: RenderedComponent { renderer: new_renderer, rendered: render },
                        diff,
                    }
                }
            },
            PreviousRender::OfRender(previous_tree) => {
                let new_renderer = ComponentImpl { component: self.component };
                let RenderResult { render, diff } = new_renderer.render_update(previous_tree, false);
                UpdateResult {
                    rendered_component: RenderedComponent { renderer: new_renderer, rendered: render },
                    diff,
                }
            },
        }
    }
}

impl<K: Renderer> ComponentImpl<K> {
    /// Updates `old` to the request that the component asks for.
    pub fn render_update(&self, old: Render<K>, compatible: bool) -> (r: RenderResult<
        Render<K>,
        Node,
        NodeDiff,
    >)
        requires
            spec_update_ok::<K>(K::spec_render(self.component@), old@, compatible),
        ensures
            (r.render@, change_view(r.diff)) == spec_render_update::<K>(
                K::spec_render(self.component@),
                old@,
                compatible,
            ),
        decreases 3 * K::rank(self.component@), self,
    {
        let new_request = self.component.render();
        proof {
            lemma_render_rank::<K>(self.component@);
        }
        new_request.render_update(old, compatible)
    }
}

/// Updates a list of old renders to a list of requests: positions in both are
/// updated, extra requests are rendered afresh and inserted, extra old renders are
/// removed.
pub fn compare_render_children<K: Renderer>(
    new_children: Vec<Request<K>>,
    old_children: Vec<Render<K>>,
    compatible: bool,
) -> (r: (Vec<Render<K>>, Vec<ChildChange<Node, NodeDiff>>))
    requires
        spec_children_update_ok::<K>(requests_view(new_children@), renders_view(old_children@), compatible),
    ensures
        (renders_view(r.0@), child_changes_view(r.1@)) == spec_compare_render_children::<K>(
            requests_view(new_children@),
            renders_view(old_children@),
            compatible,
        ),
    decreases 3 * requests_rank(requests_view(new_children@), rank_of::<K>()) + 2, new_children,
{
    let ghost nc0 = new_children;
    let ghost newo = new_children@;
    let ghost oldo = old_children@;
    let ghost newv = requests_view(new_children@);
    let ghost oldv = renders_view(old_children@);
    proof {
        lemma_requests_view(newo);
        lemma_renders_view(oldo);
    }
    let mut new_rest = new_children;
    let mut old_rest = old_children;
    let common_len = if new_rest.len() < old_rest.len() {
        new_rest.len()
    } else {
        old_rest.len()
    };
    let ghost m = common_len as nat;
    let added = new_rest.split_off(common_len);
    let removed = old_rest.split_off(common_len);
    proof {
        assert(added@ =~= newo.skip(m as int));
        assert(removed@ =~= oldo.skip(m as int));
    }
    // the requests past the old list, rendered afresh
    let mut added_changes: Vec<ChildChange<Node, NodeDiff>> = Vec::new();
    let mut added_render: Vec<Render<K>> = Vec::new();
    let mut rest = added;
    let n_added = rest.len();
    let mut i: usize = 0;
    while i < n_added
        invariant
            n_added == newo.len() - m,
            m == common_len,
            m + n_added <= usize::MAX,
            i <= n_added,
            rest@ == newo.skip(m + i),
            added_render.len() == i,
            added_changes.len() == i,
            forall|j: int|
                0 <= j < i ==> render_view(#[trigger] added_render@[j]) == spec_render_new::<K>(
                    request_view(newo[m + j]),
                ),
            forall|j: int|
                0 <= j < i ==> child_change_view(#[trigger] added_changes@[j])
                    == ChildChange::<NodeV, NodeDiffV>::Inserted(
                    (j + m) as usize,
                    spec_to_plain(spec_render_new::<K>(request_view(newo[m + j]))),
                ),
        decreases n_added - i,
    {
        let request = rest.remove(0);
        proof {
            assert(request == newo[m + i]);
        }
        let render = request.render_new();
        added_changes.push(ChildChange::Inserted(i + common_len, render.to_plain()));
        added_render.push(render);
        i = i + 1;
        proof {
            assert(rest@ =~= newo.skip(m + i));
        }
    }
    // the old renders past the new list
    let mut removed_changes: Vec<ChildChange<Node, NodeDiff>> = Vec::new();
    let n_removed = removed.len();
    let mut i: usize = 0;
    while i < n_removed
        invariant
            n_removed == oldo.len() - m,
            m == common_len,
            m + n_removed <= usize::MAX,
            removed@ == oldo.skip(m as int),
            i <= n_removed,
            removed_changes.len() == i,
            forall|j: int|
                0 <= j < i ==> child_change_view(#[trigger] removed_changes@[j])
                    == ChildChange::<NodeV, NodeDiffV>::Removed(
                    (j + m) as usize,
                    spec_to_plain(render_view(oldo[m + j])),
                ),
        decreases n_removed - i,
    {
        removed_changes.push(ChildChange::Removed(i + common_len, removed[i].to_plain()));
        i = i + 1;
    }
    // the positions that both lists have
    let mut renders: Vec<Render<K>> = Vec::new();
    let mut changes: Vec<ChildChange<Node, NodeDiff>> = Vec::new();
    let mut i: usize = 0;
    while i < common_len
        invariant
            m == common_len,
            m == shorter_len(newv, oldv),
            newo.len() == newv.len(),
            oldo.len() == oldv.len(),
            i <= common_len,
            new_rest@ == newo.subrange(i as int, m as int),
            old_rest@ == oldo.subrange(i as int, m as int),
            renders.len() == i,
            newv == newo.map_values(|r: Request<K>| request_view(r)),
            oldv == oldo.map_values(|r: Render<K>| render_view(r)),
            spec_update_prefix_ok::<K>(newv, oldv, compatible, m),
            renders_view(renders@) == spec_update_prefix::<K>(newv, oldv, compatible, i as nat).0,
            child_changes_view(changes@) == spec_update_prefix::<K>(newv, oldv, compatible, i as nat).1,
            nc0@ == newo,
            nc0 == new_children,
            newv == requests_view(newo),
        decreases common_len - i,
    {
        let request = new_rest.remove(0);
        let render = old_rest.remove(0);
        proof {
            assert(request == newo[i as int]);
            assert(render == oldo[i as int]);
            assert(decreases_to!(nc0 => nc0@));
            assert(decreases_to!(nc0@ => nc0@[i as int]));
            lemma_requests_rank_ge(newv, rank_of::<K>(), i as int);
            lemma_update_prefix_ok::<K>(newv, oldv, compatible, m, i as int);
        }
        let RenderResult { render, diff } = request.render_update(render, compatible);
        let ghost before = renders@;
        renders.push(render);
        push_child_changes(&mut changes, i, diff);
        proof {
            lemma_renders_view(before);
            lemma_renders_view(renders@);
            assert(renders_view(renders@) =~= renders_view(before).push(render_view(renders@[i as int])));
            assert(new_rest@ =~= newo.subrange(i + 1, m as int));
            assert(old_rest@ =~= oldo.subrange(i + 1, m as int));
        }
        i = i + 1;
    }
    let ghost common_renders = renders@;
    let ghost common_changes = changes@;
    changes.append(&mut added_changes);
    changes.append(&mut removed_changes);
    renders.append(&mut added_render);
    proof {
        let added_v = spec_render_new_seq::<K>(newv.skip(m as int));
        lemma_render_new_seq::<K>(newv.skip(m as int));
        lemma_renders_view(renders@);
        lemma_renders_view(common_renders);
        assert(renders_view(renders@) =~= renders_view(common_renders) + added_v);
        lemma_child_changes_view(changes@);
        lemma_child_changes_view(common_changes);
        assert(child_changes_view(changes@) =~= child_changes_view(common_changes)
            + spec_inserted_changes(added_v, m) + spec_removed_changes(oldv.skip(m as int), m));
    }
    (renders, changes)
}

impl<K: Renderer> RequestedComponentImpl<K> {
    /// `render_new` on a boxed component.
    pub fn render_new_box(self: Box<Self>) -> (r: RenderedComponent<K>)
        ensures
            r.renderer.component@ == self.component@,
            render_view(r.rendered) == spec_render_new::<K>(K::spec_render(self.component@)),
        decreases 3 * K::rank(self.component@) + 2, self,
    {
        (*self).render_new()
    }

    /// `render_update` on a boxed component.
    pub fn render_update_box(self: Box<Self>, previous_render: PreviousRender<K>) -> (r: UpdateResult<K>)
        requires
            spec_component_update_ok::<K>(self.component@, previous_view(previous_render)),
        ensures
            (
                r.rendered_component.renderer.component@,
                render_view(r.rendered_component.rendered),
                change_view(r.diff),
            ) == spec_component_update::<K>(self.component@, previous_view(previous_render)),
        decreases 3 * K::rank(self.component@) + 2, self,
    {
        (*self).render_update(previous_render)
    }
}

} // verus!
