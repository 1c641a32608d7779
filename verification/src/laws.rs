//! Properties that hold across the diff and render functions.
use vstd::prelude::*;
use crate::change::{ChildChange, NodeChange};
use crate::ast::{ButtonV, DivV, InputV, PV};
use crate::apply::{
    all_shapes_match, apply_change, apply_children, apply_child_change, apply_diff, lemma_all_shapes_match_index,
    patch_button, patch_div, patch_input, patch_p, shapes_match,
};
use crate::node::{NodeDiffV, NodeV, child_changes_at, shorter_len, spec_compare_prefix, spec_node_diff};
use crate::render::{
    Renderer, RenderV, RequestV, spec_children_update_ok, spec_compare_render_children, lemma_render_new_seq, spec_render_new, spec_render_new_seq,
    spec_render_update, spec_update_ok, spec_update_prefix, spec_update_prefix_ok,
    spec_inserted_changes, spec_removed_changes, lemma_render_rank, lemma_requests_rank_ge,
    rank_of, request_rank, requests_rank, spec_to_plain, lemma_to_plain_seq, spec_to_plain_seq,
};

verus! {

/// Whether a plain tree holds no `Cont` node.
pub open spec fn cont_free(n: NodeV) -> bool
    decreases n,
{
    match n {
        NodeV::Div(_, ch) => all_cont_free(ch),
        NodeV::Cont(_, _) => false,
        _ => true,
    }
}

pub open spec fn all_cont_free(s: Seq<NodeV>) -> bool
    decreases s,
{
    s.len() == 0 || (cont_free(s.last()) && all_cont_free(s.drop_last()))
}

proof fn lemma_all_cont_free_index(s: Seq<NodeV>, i: int)
    requires
        all_cont_free(s),
        0 <= i < s.len(),
    ensures
        cont_free(s[i]),
    decreases s.len(),
{
    if i < s.len() - 1 {
        lemma_all_cont_free_index(s.drop_last(), i);
    }
}

/// A tree without `Cont` nodes, compared with itself, is `Identical`. (A `Cont`
/// node always reports `Changed`, even against an equal node.)
pub proof fn lemma_node_diff_self(n: NodeV)
    requires
        cont_free(n),
    ensures
        spec_node_diff(n, n) == NodeChange::<NodeV, crate::node::NodeDiffV>::Identical,
    decreases n, 0nat,
{
    match n {
        NodeV::Div(p, ch) => {
            lemma_compare_prefix_self(ch, ch.len());
        },
        _ => {},
    }
}

/// Comparing the first `k` children of a list without `Cont` nodes with themselves
/// gives no change.
pub proof fn lemma_compare_prefix_self(s: Seq<NodeV>, k: nat)
    requires
        all_cont_free(s),
        k <= s.len(),
    ensures
        spec_compare_prefix(s, s, k).len() == 0,
    decreases s, k,
{
    if k > 0 {
        lemma_compare_prefix_self(s, (k - 1) as nat);
        lemma_all_cont_free_index(s, k - 1);
        lemma_node_diff_self(s[k - 1]);
        assert(child_changes_at((k - 1) as usize, spec_node_diff(s[k - 1], s[k - 1])).len() == 0);
    }
}

/// The kind of a plain node, as a number.
pub open spec fn node_kind(n: NodeV) -> int {
    match n {
        NodeV::Div(_, _) => 0,
        NodeV::Cont(_, _) => 1,
        NodeV::P(_) => 2,
        NodeV::Button(_) => 3,
        NodeV::Input(_) => 4,
    }
}

/// Nodes of different kinds are reported as swapped, new first.
pub proof fn lemma_node_diff_kinds(new: NodeV, old: NodeV)
    requires
        node_kind(new) != node_kind(old),
    ensures
        spec_node_diff(new, old) == NodeChange::<NodeV, crate::node::NodeDiffV>::Swapped(new, old),
{
}

/// Whether a request asks for no custom component.
pub open spec fn custom_free<V>(r: RequestV<V>) -> bool
    decreases r,
{
    match r {
        RequestV::Div(_, ch) => all_custom_free(ch),
        RequestV::Cont(_, c) => custom_free(*c),
        RequestV::Custom(_) => false,
        _ => true,
    }
}

pub open spec fn all_custom_free<V>(s: Seq<RequestV<V>>) -> bool
    decreases s,
{
    s.len() == 0 || (custom_free(s.last()) && all_custom_free(s.drop_last()))
}

proof fn lemma_all_custom_free_index<V>(s: Seq<RequestV<V>>, i: int)
    requires
        all_custom_free(s),
        0 <= i < s.len(),
    ensures
        custom_free(s[i]),
    decreases s.len(),
{
    if i < s.len() - 1 {
        lemma_all_custom_free_index(s.drop_last(), i);
    }
}

/// A request without custom components can always be updated: only a custom
/// component of the same type with other props is unsupported.
pub proof fn lemma_update_ok_without_components<K: Renderer>(
    req: RequestV<K::V>,
    old: RenderV<K::V>,
    compatible: bool,
)
    requires
        custom_free(req),
    ensures
        spec_update_ok::<K>(req, old, compatible),
    decreases req, 0nat,
{
    match req {
        RequestV::Div(_, ch) => match old {
            RenderV::Div(_, och) => {
                lemma_update_prefix_ok_without_components::<K>(ch, och, compatible, shorter_len(ch, och));
                assert(spec_children_update_ok::<K>(ch, och, compatible));
            },
            _ => {},
        },
        RequestV::Cont(_, c) => match old {
            RenderV::Cont(_, oc) => {
                lemma_update_ok_without_components::<K>(*c, *oc, false);
            },
            _ => {},
        },
        _ => {},
    }
}

proof fn lemma_update_prefix_ok_without_components<K: Renderer>(
    new: Seq<RequestV<K::V>>,
    old: Seq<RenderV<K::V>>,
    compatible: bool,
    n: nat,
)
    requires
        all_custom_free(new),
    ensures
        spec_update_prefix_ok::<K>(new, old, compatible, n),
    decreases new, n,
{
    if n > 0 && n <= new.len() && n <= old.len() {
        lemma_update_prefix_ok_without_components::<K>(new, old, compatible, (n - 1) as nat);
        lemma_all_custom_free_index(new, n - 1);
        lemma_update_ok_without_components::<K>(new[n - 1], old[n - 1], compatible);
    }
}

/// Updating to a request without custom components builds the same render as
/// rendering that request from scratch, whatever the old render was.
pub proof fn lemma_update_renders_as_new<K: Renderer>(
    req: RequestV<K::V>,
    old: RenderV<K::V>,
    compatible: bool,
)
    requires
        custom_free(req),
    ensures
        spec_render_update::<K>(req, old, compatible).0 == spec_render_new::<K>(req),
    decreases req, 0nat,
{
    match req {
        RequestV::Div(p, ch) => match old {
            RenderV::Div(op, och) => {
                let m = shorter_len(ch, och);
                lemma_update_prefix_renders_as_new::<K>(ch, och, compatible, m);
                lemma_render_new_seq::<K>(ch);
                lemma_render_new_seq::<K>(ch.skip(m as int));
                assert(spec_update_prefix::<K>(ch, och, compatible, m).0 + spec_render_new_seq::<K>(
                    ch.skip(m as int),
                ) =~= spec_render_new_seq::<K>(ch));
                let cr = spec_compare_render_children::<K>(ch, och, compatible);
                assert(cr.0 == spec_update_prefix::<K>(ch, och, compatible, m).0
                    + spec_render_new_seq::<K>(ch.skip(m as int)));
            },
            _ => {},
        },
        RequestV::Cont(p, c) => match old {
            RenderV::Cont(op, oc) => {
                lemma_update_renders_as_new::<K>(*c, *oc, false);
            },
            _ => {},
        },
        _ => {},
    }
}

proof fn lemma_update_prefix_renders_as_new<K: Renderer>(
    new: Seq<RequestV<K::V>>,
    old: Seq<RenderV<K::V>>,
    compatible: bool,
    n: nat,
)
    requires
        all_custom_free(new),
        n <= new.len(),
        n <= old.len(),
    ensures
        spec_update_prefix::<K>(new, old, compatible, n).0 == new.take(n as int).map_values(
            |r: RequestV<K::V>| spec_render_new::<K>(r),
        ),
    decreases new, n,
{
    if n > 0 {
        lemma_update_prefix_renders_as_new::<K>(new, old, compatible, (n - 1) as nat);
        lemma_all_custom_free_index(new, n - 1);
        lemma_update_renders_as_new::<K>(new[n - 1], old[n - 1], compatible);
        assert(new.take(n as int).map_values(|r: RequestV<K::V>| spec_render_new::<K>(r))
            =~= new.take(n - 1).map_values(|r: RequestV<K::V>| spec_render_new::<K>(r)).push(
            spec_render_new::<K>(new[n - 1]),
        ));
    } else {
        assert(new.take(0).map_values(|r: RequestV<K::V>| spec_render_new::<K>(r)) =~= Seq::<
            RenderV<K::V>,
        >::empty());
    }
}

/// Updating the render of a request without custom components to that same
/// request reports no change.
pub proof fn lemma_update_own_render_identical<K: Renderer>(req: RequestV<K::V>, compatible: bool)
    requires
        custom_free(req),
    ensures
        spec_render_update::<K>(req, spec_render_new::<K>(req), compatible).1 == NodeChange::<
            NodeV,
            NodeDiffV,
        >::Identical,
    decreases req, 0nat,
{
    match req {
        RequestV::Div(p, ch) => {
            let och = spec_render_new_seq::<K>(ch);
            lemma_render_new_seq::<K>(ch);
            let m = ch.len();
            assert(shorter_len(ch, och) == m);
            lemma_update_prefix_identical::<K>(ch, compatible, m);
            assert(ch.skip(m as int) =~= Seq::<RequestV<K::V>>::empty());
            lemma_render_new_seq::<K>(ch.skip(m as int));
            assert(spec_inserted_changes(spec_render_new_seq::<K>(ch.skip(m as int)), m)
                =~= Seq::empty());
            assert(spec_removed_changes(och.skip(m as int), m) =~= Seq::empty());
            let cr = spec_compare_render_children::<K>(ch, och, compatible);
            assert(cr.1 == spec_update_prefix::<K>(ch, och, compatible, m).1 + spec_inserted_changes(
                spec_render_new_seq::<K>(ch.skip(m as int)),
                m,
            ) + spec_removed_changes(och.skip(m as int), m));
            assert(cr.1.len() == 0);
        },
        RequestV::Cont(p, c) => {
            lemma_update_own_render_identical::<K>(*c, false);
        },
        _ => {},
    }
}

proof fn lemma_update_prefix_identical<K: Renderer>(
    new: Seq<RequestV<K::V>>,
    compatible: bool,
    n: nat,
)
    requires
        all_custom_free(new),
        n <= new.len(),
    ensures
        spec_update_prefix::<K>(new, spec_render_new_seq::<K>(new), compatible, n).1.len() == 0,
    decreases new, n,
{
    if n > 0 {
        lemma_update_prefix_identical::<K>(new, compatible, (n - 1) as nat);
        lemma_render_new_seq::<K>(new);
        lemma_all_custom_free_index(new, n - 1);
        lemma_update_own_render_identical::<K>(new[n - 1], compatible);
    }
}

/// Every component is of its own type and has its own props.
pub open spec fn reflexive_components<K: Renderer>() -> bool {
    forall|c: K::V| K::spec_same_component(c, c) && #[trigger] K::spec_same_props(c, c)
}

/// Updating the render of any request to that same request, not compatibly,
/// keeps the render and reports no change, provided each component is of its own
/// type and has its own props.
pub proof fn lemma_update_own_render_kept<K: Renderer>(req: RequestV<K::V>)
    requires
        reflexive_components::<K>(),
    ensures
        spec_update_ok::<K>(req, spec_render_new::<K>(req), false),
        spec_render_update::<K>(req, spec_render_new::<K>(req), false) == (
            spec_render_new::<K>(req),
            NodeChange::<NodeV, NodeDiffV>::Identical,
        ),
    decreases req, 0nat,
{
    match req {
        RequestV::Div(p, ch) => {
            let och = spec_render_new_seq::<K>(ch);
            lemma_render_new_seq::<K>(ch);
            let m = ch.len();
            assert(shorter_len(ch, och) == m);
            lemma_update_prefix_kept::<K>(ch, m);
            assert(ch.skip(m as int) =~= Seq::<RequestV<K::V>>::empty());
            lemma_render_new_seq::<K>(ch.skip(m as int));
            assert(spec_inserted_changes(spec_render_new_seq::<K>(ch.skip(m as int)), m)
                =~= Seq::empty());
            assert(spec_removed_changes(och.skip(m as int), m) =~= Seq::empty());
            assert(ch.take(m as int) =~= ch);
            assert(spec_update_prefix::<K>(ch, och, false, m).0 + spec_render_new_seq::<K>(
                ch.skip(m as int),
            ) =~= och);
            let cr = spec_compare_render_children::<K>(ch, och, false);
            assert(cr.0 == spec_update_prefix::<K>(ch, och, false, m).0 + spec_render_new_seq::<K>(
                ch.skip(m as int),
            ));
            assert(cr.1 == spec_update_prefix::<K>(ch, och, false, m).1 + spec_inserted_changes(
                spec_render_new_seq::<K>(ch.skip(m as int)),
                m,
            ) + spec_removed_changes(och.skip(m as int), m));
            assert(cr.1.len() == 0);
            assert(spec_children_update_ok::<K>(ch, och, false));
        },
        RequestV::Cont(p, c) => {
            lemma_update_own_render_kept::<K>(*c);
        },
        RequestV::Custom(k) => {
            assert(K::spec_same_props(k, k));
            assert(K::spec_same_component(k, k));
        },
        _ => {},
    }
}

proof fn lemma_update_prefix_kept<K: Renderer>(new: Seq<RequestV<K::V>>, n: nat)
    requires
        reflexive_components::<K>(),
        n <= new.len(),
    ensures
        spec_update_prefix_ok::<K>(new, spec_render_new_seq::<K>(new), false, n),
        spec_update_prefix::<K>(new, spec_render_new_seq::<K>(new), false, n).1.len() == 0,
        spec_update_prefix::<K>(new, spec_render_new_seq::<K>(new), false, n).0 == new.take(
            n as int,
        ).map_values(|r: RequestV<K::V>| spec_render_new::<K>(r)),
    decreases new, n,
{
    lemma_render_new_seq::<K>(new);
    if n > 0 {
        lemma_update_prefix_kept::<K>(new, (n - 1) as nat);
        lemma_update_own_render_kept::<K>(new[n - 1]);
        assert(new.take(n as int).map_values(|r: RequestV<K::V>| spec_render_new::<K>(r))
            =~= new.take(n - 1).map_values(|r: RequestV<K::V>| spec_render_new::<K>(r)).push(
            spec_render_new::<K>(new[n - 1]),
        ));
    } else {
        assert(new.take(0).map_values(|r: RequestV<K::V>| spec_render_new::<K>(r)) =~= Seq::<
            RenderV<K::V>,
        >::empty());
    }
}

/// Whether each custom component in the render holds what its request renders
/// afresh. Renders built from scratch are fresh, and so are those that updates
/// build.
pub open spec fn fresh<K: Renderer>(r: RenderV<K::V>) -> bool
    decreases r,
{
    match r {
        RenderV::Div(_, ch) => all_fresh::<K>(ch),
        RenderV::Cont(_, c) => fresh::<K>(*c),
        RenderV::Custom(k, c) => *c == spec_render_new::<K>(K::spec_render(k)),
        _ => true,
    }
}

pub open spec fn all_fresh<K: Renderer>(s: Seq<RenderV<K::V>>) -> bool
    decreases s,
{
    s.len() == 0 || (fresh::<K>(s.last()) && all_fresh::<K>(s.drop_last()))
}

proof fn lemma_all_fresh_index<K: Renderer>(s: Seq<RenderV<K::V>>, i: int)
    requires
        all_fresh::<K>(s),
        0 <= i < s.len(),
    ensures
        fresh::<K>(s[i]),
    decreases s.len(),
{
    if i < s.len() - 1 {
        lemma_all_fresh_index::<K>(s.drop_last(), i);
    }
}

/// A render built from scratch is fresh.
pub proof fn lemma_render_new_fresh<K: Renderer>(req: RequestV<K::V>)
    ensures
        fresh::<K>(spec_render_new::<K>(req)),
    decreases req,
{
    match req {
        RequestV::Div(_, ch) => {
            lemma_render_new_seq_fresh::<K>(ch);
        },
        RequestV::Cont(_, c) => {
            lemma_render_new_fresh::<K>(*c);
        },
        _ => {},
    }
}

proof fn lemma_render_new_seq_fresh<K: Renderer>(s: Seq<RequestV<K::V>>)
    ensures
        all_fresh::<K>(spec_render_new_seq::<K>(s)),
    decreases s,
{
    if s.len() > 0 {
        lemma_render_new_seq_fresh::<K>(s.drop_last());
        lemma_render_new_fresh::<K>(s.last());
        let r = spec_render_new_seq::<K>(s);
        assert(r.drop_last() =~= spec_render_new_seq::<K>(s.drop_last()));
    }
}

/// Two components of one type with equal props are one and the same value.
pub open spec fn props_decide<K: Renderer>() -> bool {
    forall|a: K::V, b: K::V|
        #![trigger K::spec_same_props(a, b)]
        K::spec_same_component(a, b) && K::spec_same_props(a, b) ==> a == b
}

/// Updating a fresh render to a request builds the same render as rendering the
/// request from scratch, wherever the update is supported, provided that equal
/// props make equal components.
pub proof fn lemma_update_renders_fresh<K: Renderer>(
    req: RequestV<K::V>,
    old: RenderV<K::V>,
    compatible: bool,
)
    requires
        props_decide::<K>(),
        fresh::<K>(old),
        spec_update_ok::<K>(req, old, compatible),
    ensures
        spec_render_update::<K>(req, old, compatible).0 == spec_render_new::<K>(req),
        fresh::<K>(spec_render_update::<K>(req, old, compatible).0),
    decreases request_rank(req, rank_of::<K>()), req, 0nat,
{
    lemma_render_new_fresh::<K>(req);
    match req {
        RequestV::Div(p, ch) => match old {
            RenderV::Div(op, och) => {
                let m = shorter_len(ch, och);
                assert(spec_children_update_ok::<K>(ch, och, compatible));
                lemma_update_prefix_renders_fresh::<K>(ch, och, compatible, m);
                lemma_render_new_seq::<K>(ch);
                lemma_render_new_seq::<K>(ch.skip(m as int));
                assert(spec_update_prefix::<K>(ch, och, compatible, m).0 + spec_render_new_seq::<K>(
                    ch.skip(m as int),
                ) =~= spec_render_new_seq::<K>(ch));
                let cr = spec_compare_render_children::<K>(ch, och, compatible);
                assert(cr.0 == spec_update_prefix::<K>(ch, och, compatible, m).0
                    + spec_render_new_seq::<K>(ch.skip(m as int)));
            },
            _ => {},
        },
        RequestV::Cont(p, c) => match old {
            RenderV::Cont(op, oc) => {
                lemma_update_renders_fresh::<K>(*c, *oc, false);
            },
            _ => {},
        },
        RequestV::Custom(k) => {
            lemma_render_rank::<K>(k);
            if !compatible {
                match old {
                    RenderV::Custom(ok, orendered) => {
                        if K::spec_same_component(ok, k) {
                            assert(K::spec_same_props(ok, k));
                            assert(ok == k);
                        } else {
                            lemma_render_new_fresh::<K>(K::spec_render(ok));
                            lemma_update_renders_fresh::<K>(K::spec_render(k), *orendered, true);
                        }
                    },
                    _ => {
                        lemma_update_renders_fresh::<K>(K::spec_render(k), old, false);
                    },
                }
            }
        },
        _ => {},
    }
}

proof fn lemma_update_prefix_renders_fresh<K: Renderer>(
    new: Seq<RequestV<K::V>>,
    old: Seq<RenderV<K::V>>,
    compatible: bool,
    n: nat,
)
    requires
        props_decide::<K>(),
        all_fresh::<K>(old),
        spec_update_prefix_ok::<K>(new, old, compatible, n),
        n <= new.len(),
        n <= old.len(),
    ensures
        spec_update_prefix::<K>(new, old, compatible, n).0 == new.take(n as int).map_values(
            |r: RequestV<K::V>| spec_render_new::<K>(r),
        ),
    decreases requests_rank(new, rank_of::<K>()), new, n,
{
    if n > 0 {
        lemma_update_prefix_renders_fresh::<K>(new, old, compatible, (n - 1) as nat);
        lemma_requests_rank_ge(new, rank_of::<K>(), n - 1);
        lemma_all_fresh_index::<K>(old, n - 1);
        lemma_update_renders_fresh::<K>(new[n - 1], old[n - 1], compatible);
        assert(new.take(n as int).map_values(|r: RequestV<K::V>| spec_render_new::<K>(r))
            =~= new.take(n - 1).map_values(|r: RequestV<K::V>| spec_render_new::<K>(r)).push(
            spec_render_new::<K>(new[n - 1]),
        ));
    } else {
        assert(new.take(0).map_values(|r: RequestV<K::V>| spec_render_new::<K>(r)) =~= Seq::<
            RenderV<K::V>,
        >::empty());
    }
}

/// Whether a render holds no custom component.
pub open spec fn render_custom_free<V>(r: RenderV<V>) -> bool
    decreases r,
{
    match r {
        RenderV::Div(_, ch) => all_render_custom_free(ch),
        RenderV::Cont(_, c) => render_custom_free(*c),
        RenderV::Custom(_, _) => false,
        _ => true,
    }
}

pub open spec fn all_render_custom_free<V>(s: Seq<RenderV<V>>) -> bool
    decreases s,
{
    s.len() == 0 || (render_custom_free(s.last()) && all_render_custom_free(s.drop_last()))
}

proof fn lemma_all_render_custom_free_index<V>(s: Seq<RenderV<V>>, i: int)
    requires
        all_render_custom_free(s),
        0 <= i < s.len(),
    ensures
        render_custom_free(s[i]),
    decreases s.len(),
{
    if i < s.len() - 1 {
        lemma_all_render_custom_free_index(s.drop_last(), i);
    }
}

/// For a request and an old render without custom components, the update reports
/// `Identical` exactly when the plain tree of the new render equals that of the
/// old one.
pub proof fn lemma_update_identical_iff_same_plain<K: Renderer>(
    req: RequestV<K::V>,
    old: RenderV<K::V>,
    compatible: bool,
)
    requires
        custom_free(req),
        render_custom_free(old),
    ensures
        (spec_render_update::<K>(req, old, compatible).1 is Identical) <==> spec_to_plain(old)
            == spec_to_plain(spec_render_update::<K>(req, old, compatible).0),
    decreases req, 0nat,
{
    let (r, d) = spec_render_update::<K>(req, old, compatible);
    match req {
        RequestV::Div(p, ch) => match old {
            RenderV::Div(op, och) => {
                let m = shorter_len(ch, och);
                lemma_update_prefix_identical_iff::<K>(ch, och, compatible, m);
                let pre = spec_update_prefix::<K>(ch, och, compatible, m);
                let added = spec_render_new_seq::<K>(ch.skip(m as int));
                lemma_render_new_seq::<K>(ch.skip(m as int));
                let rs = pre.0 + added;
                let cs = pre.1 + spec_inserted_changes(added, m) + spec_removed_changes(
                    och.skip(m as int),
                    m,
                );
                let cr = spec_compare_render_children::<K>(ch, och, compatible);
                assert(cr.0 == rs);
                assert(cr.1 == cs);
                assert(r == RenderV::Div(p, rs));
                lemma_to_plain_seq(rs);
                lemma_to_plain_seq(och);
                assert(spec_inserted_changes(added, m).len() == ch.len() - m);
                assert(spec_removed_changes(och.skip(m as int), m).len() == och.len() - m);
                if d is Identical {
                    assert(cs.len() == 0);
                    assert(ch.len() == m && och.len() == m);
                    assert(plain_trees(rs) =~= plain_trees(och)) by {
                        assert forall|i: int| 0 <= i < m implies spec_to_plain(#[trigger] rs[i])
                            == spec_to_plain(och[i]) by {
                            assert(rs[i] == pre.0[i]);
                        }
                    }
                }
                if spec_to_plain(old) == spec_to_plain(r) {
                    assert(plain_trees(rs) == plain_trees(och));
                    assert(rs.len() == och.len());
                    assert(ch.len() == m && och.len() == m);
                    assert forall|i: int| 0 <= i < m implies spec_to_plain(och[i]) == spec_to_plain(
                        #[trigger] pre.0[i],
                    ) by {
                        assert(rs[i] == pre.0[i]);
                        assert(plain_trees(rs)[i] == plain_trees(och)[i]);
                    }
                    assert(cs.len() == 0);
                }
            },
            _ => {
                lemma_render_new_seq::<K>(ch);
                lemma_node_diff_kinds(spec_to_plain(old), spec_to_plain(r));
            },
        },
        RequestV::Cont(p, c) => match old {
            RenderV::Cont(op, oc) => {
                lemma_update_identical_iff_same_plain::<K>(*c, *oc, false);
            },
            _ => {
                lemma_node_diff_kinds(spec_to_plain(old), spec_to_plain(r));
            },
        },
        _ => {},
    }
}

/// The plain trees of a list of renders.
pub open spec fn plain_trees<V>(s: Seq<RenderV<V>>) -> Seq<NodeV> {
    s.map_values(|r: RenderV<V>| spec_to_plain(r))
}

proof fn lemma_update_prefix_identical_iff<K: Renderer>(
    new: Seq<RequestV<K::V>>,
    old: Seq<RenderV<K::V>>,
    compatible: bool,
    n: nat,
)
    requires
        all_custom_free(new),
        all_render_custom_free(old),
        n <= new.len(),
        n <= old.len(),
    ensures
        spec_update_prefix::<K>(new, old, compatible, n).0.len() == n,
        (spec_update_prefix::<K>(new, old, compatible, n).1.len() == 0) <==> (forall|i: int|
            0 <= i < n ==> spec_to_plain(old[i]) == spec_to_plain(
                #[trigger] spec_update_prefix::<K>(new, old, compatible, n).0[i],
            )),
    decreases new, n,
{
    if n > 0 {
        lemma_update_prefix_identical_iff::<K>(new, old, compatible, (n - 1) as nat);
        lemma_all_custom_free_index(new, n - 1);
        lemma_all_render_custom_free_index(old, n - 1);
        lemma_update_identical_iff_same_plain::<K>(new[n - 1], old[n - 1], compatible);
        let prev = spec_update_prefix::<K>(new, old, compatible, (n - 1) as nat);
        let cur = spec_update_prefix::<K>(new, old, compatible, n);
        let (r, d) = spec_render_update::<K>(new[n - 1], old[n - 1], compatible);
        assert(cur.0 == prev.0.push(r));
        assert(cur.1 == prev.1 + child_changes_at((n - 1) as usize, d));
        assert(forall|i: int| 0 <= i < n - 1 ==> cur.0[i] == prev.0[i]);
        assert((child_changes_at((n - 1) as usize, d).len() == 0) <==> (d is Identical));
        if cur.1.len() == 0 {
            assert(prev.1.len() == 0);
            assert forall|i: int| 0 <= i < n implies spec_to_plain(old[i]) == spec_to_plain(
                #[trigger] cur.0[i],
            ) by {
                if i < n - 1 {
                    assert(cur.0[i] == prev.0[i]);
                }
            }
        }
        if forall|i: int| 0 <= i < n ==> spec_to_plain(old[i]) == spec_to_plain(#[trigger] cur.0[i]) {
            assert forall|i: int| 0 <= i < n - 1 implies spec_to_plain(old[i]) == spec_to_plain(
                #[trigger] prev.0[i],
            ) by {
                assert(cur.0[i] == prev.0[i]);
            }
            assert(spec_to_plain(old[n - 1]) == spec_to_plain(cur.0[n - 1]));
        }
    }
}

/// A prop diff, applied to the old props, gives the new props: each field of the
/// diff holds the new value where the field changed and nothing where it agrees.
pub proof fn lemma_prop_diffs_apply(
    div: (DivV, DivV),
    p: (PV, PV),
    button: (ButtonV, ButtonV),
    input: (InputV, InputV),
)
    ensures
        patch_div(div.1, div.0.spec_diff(div.1)) == div.0,
        patch_p(p.1, p.0.spec_diff(p.1)) == p.0,
        patch_button(button.1, button.0.spec_diff(button.1)) == button.0,
        patch_input(input.1, input.0.spec_diff(input.1)) == input.0,
        (div.0.spec_diff(div.1).name is None) == (div.0.name == div.1.name),
        (p.0.spec_diff(p.1).text is None) == (p.0.text == p.1.text),
        (button.0.spec_diff(button.1).text is None) == (button.0.text == button.1.text),
        (input.0.spec_diff(input.1).prompt is None) == (input.0.prompt == input.1.prompt),
        (input.0.spec_diff(input.1).value is None) == (input.0.value == input.1.value),
{
}

/// The diff of two plain trees, applied to the old tree, gives the new tree,
/// wherever their `Div` nodes that meet have as many children.
pub proof fn lemma_node_diff_applies(new: NodeV, old: NodeV)
    requires
        shapes_match(new, old, false),
    ensures
        apply_change(old, spec_node_diff(new, old)) == new,
    decreases new, 0nat,
{
    match new {
        NodeV::Div(p, ch) => match old {
            NodeV::Div(op, och) => {
                let m = shorter_len(och, ch);
                lemma_compare_prefix_applies(ch, och, m);
                assert(ch.take(m as int) + och.skip(m as int) =~= ch);
                lemma_prop_diffs_apply((p, op), (PV { text: Seq::empty() }, PV { text: Seq::empty() }),
                    (ButtonV { text: Seq::empty() }, ButtonV { text: Seq::empty() }),
                    (InputV { prompt: Seq::empty(), value: None }, InputV { prompt: Seq::empty(), value: None }));
            },
            _ => {},
        },
        NodeV::Cont(p, c) => match old {
            NodeV::Cont(op, oc) => {
                lemma_node_diff_applies(*c, *oc);
            },
            _ => {},
        },
        _ => {},
    }
}

/// A child change at position `i` of a list whose child `i` is `old_child`, where
/// the change turns `old_child` into `new_child`, puts `new_child` there.
proof fn lemma_child_changes_at_apply(
    s: Seq<NodeV>,
    i: int,
    c: NodeChange<NodeV, NodeDiffV>,
    new_child: NodeV,
)
    requires
        0 <= i < s.len(),
        i <= usize::MAX,
        apply_change(s[i], c) == new_child,
    ensures
        apply_children(s, child_changes_at(i as usize, c)) == s.update(i, new_child),
{
    let x = child_changes_at(i as usize, c);
    match c {
        NodeChange::Identical => {
            assert(x.len() == 0);
            assert(apply_children(s, x) == s);
            assert(s.update(i, new_child) =~= s);
        },
        NodeChange::Changed(d) => {
            assert(x.drop_last() =~= Seq::<ChildChange<NodeV, NodeDiffV>>::empty());
            assert(apply_children(s, x.drop_last()) == s);
            assert(apply_children(s, x) == apply_child_change(s, x.last()));
            assert(apply_child_change(s, ChildChange::Changed(i as usize, d)) == s.update(i, apply_diff(s[i], d)));
        },
        NodeChange::Swapped(n, o) => {
            let y = x.drop_last();
            assert(y.drop_last() =~= Seq::<ChildChange<NodeV, NodeDiffV>>::empty());
            assert(apply_children(s, y.drop_last()) == s);
            assert(apply_children(s, y) == apply_child_change(s, y.last()));
            assert(apply_children(s, y) == s.remove(i));
            assert(apply_children(s, x) == apply_child_change(s.remove(i), x.last()));
            assert(s.remove(i).insert(i, n) =~= s.update(i, new_child));
        },
    }
}

/// Applying a list of child changes followed by more applies the more to the
/// result of the first.
proof fn lemma_apply_children_concat(
    s: Seq<NodeV>,
    a: Seq<ChildChange<NodeV, NodeDiffV>>,
    b: Seq<ChildChange<NodeV, NodeDiffV>>,
)
    ensures
        apply_children(s, a + b) == apply_children(apply_children(s, a), b),
    decreases b.len(),
{
    if b.len() == 0 {
        assert(a + b =~= a);
    } else {
        lemma_apply_children_concat(s, a, b.drop_last());
        assert((a + b).drop_last() =~= a + b.drop_last());
        assert((a + b).last() == b.last());
    }
}

proof fn lemma_compare_prefix_applies(ch: Seq<NodeV>, och: Seq<NodeV>, n: nat)
    requires
        ch.len() == och.len(),
        ch.len() <= usize::MAX,
        all_shapes_match(ch, och, false),
        n <= ch.len(),
    ensures
        apply_children(och, spec_compare_prefix(och, ch, n)) == ch.take(n as int) + och.skip(n as int),
    decreases ch, n,
{
    if n == 0 {
        assert(ch.take(0) + och.skip(0) =~= och);
    } else {
        let i = n - 1;
        lemma_compare_prefix_applies(ch, och, (n - 1) as nat);
        lemma_all_shapes_match_index(ch, och, false, i);
        lemma_node_diff_applies(ch[i], och[i]);
        let s = ch.take(i) + och.skip(i);
        let prev = spec_compare_prefix(och, ch, (n - 1) as nat);
        let d = spec_node_diff(ch[i], och[i]);
        assert(spec_compare_prefix(och, ch, n) == prev + child_changes_at(i as usize, d));
        lemma_apply_children_concat(och, prev, child_changes_at(i as usize, d));
        assert(s[i] == och[i]);
        lemma_child_changes_at_apply(s, i, d, ch[i]);
        assert(s.update(i, ch[i]) =~= ch.take(n as int) + och.skip(n as int));
    }
}

/// The plain trees of a list of requests rendered from scratch.
pub open spec fn fresh_plain_trees<K: Renderer>(s: Seq<RequestV<K::V>>) -> Seq<NodeV> {
    s.map_values(|r: RequestV<K::V>| spec_to_plain(spec_render_new::<K>(r)))
}

/// For a request and an old render without custom components, the diff that the
/// update reports, applied to the old plain tree, gives the plain tree of the new
/// render, wherever the old render holds a `Div` or `Cont` with as many children
/// where the request asks for one.
pub proof fn lemma_update_diff_applies<K: Renderer>(
    req: RequestV<K::V>,
    old: RenderV<K::V>,
    compatible: bool,
)
    requires
        custom_free(req),
        render_custom_free(old),
        shapes_match(spec_to_plain(spec_render_new::<K>(req)), spec_to_plain(old), true),
    ensures
        apply_change(spec_to_plain(old), spec_render_update::<K>(req, old, compatible).1)
            == spec_to_plain(spec_render_update::<K>(req, old, compatible).0),
    decreases req, 0nat,
{
    let (r, d) = spec_render_update::<K>(req, old, compatible);
    match req {
        RequestV::Div(p, ch) => match old {
            RenderV::Div(op, och) => {
                lemma_render_new_seq::<K>(ch);
                lemma_to_plain_seq(spec_render_new_seq::<K>(ch));
                lemma_to_plain_seq(och);
                assert(spec_to_plain_seq(spec_render_new_seq::<K>(ch)) =~= fresh_plain_trees::<K>(ch));
                assert(spec_to_plain_seq(och) =~= plain_trees(och));
                let m = shorter_len(ch, och);
                assert(m == ch.len() && m == och.len());
                lemma_update_prefix_applies::<K>(ch, och, compatible, m);
                let pre = spec_update_prefix::<K>(ch, och, compatible, m);
                assert(ch.skip(m as int) =~= Seq::<RequestV<K::V>>::empty());
                assert(och.skip(m as int) =~= Seq::<RenderV<K::V>>::empty());
                assert(spec_render_new_seq::<K>(ch.skip(m as int)) =~= Seq::<RenderV<K::V>>::empty());
                let cr = spec_compare_render_children::<K>(ch, och, compatible);
                assert(spec_inserted_changes(spec_render_new_seq::<K>(ch.skip(m as int)), m)
                    =~= Seq::empty());
                assert(spec_removed_changes(och.skip(m as int), m) =~= Seq::empty());
                assert(cr.0 =~= pre.0);
                assert(cr.1 =~= pre.1);
                assert(plain_trees(och).skip(m as int) =~= Seq::<NodeV>::empty());
                lemma_to_plain_seq(pre.0);
                assert(plain_trees(pre.0) + plain_trees(och).skip(m as int) =~= spec_to_plain_seq(
                    pre.0,
                ));
            },
            _ => {},
        },
        RequestV::Cont(p, c) => match old {
            RenderV::Cont(op, oc) => {
                lemma_update_diff_applies::<K>(*c, *oc, false);
            },
            _ => {},
        },
        _ => {},
    }
}

proof fn lemma_update_prefix_applies<K: Renderer>(
    new: Seq<RequestV<K::V>>,
    old: Seq<RenderV<K::V>>,
    compatible: bool,
    n: nat,
)
    requires
        all_custom_free(new),
        all_render_custom_free(old),
        new.len() == old.len(),
        new.len() <= usize::MAX,
        all_shapes_match(fresh_plain_trees::<K>(new), plain_trees(old), true),
        n <= new.len(),
    ensures
        spec_update_prefix::<K>(new, old, compatible, n).0.len() == n,
        apply_children(plain_trees(old), spec_update_prefix::<K>(new, old, compatible, n).1)
            == plain_trees(spec_update_prefix::<K>(new, old, compatible, n).0) + plain_trees(
            old,
        ).skip(n as int),
    decreases new, n,
{
    let po = plain_trees(old);
    if n == 0 {
        assert(plain_trees(spec_update_prefix::<K>(new, old, compatible, n).0) + po.skip(0) =~= po);
    } else {
        let i = n - 1;
        lemma_update_prefix_applies::<K>(new, old, compatible, (n - 1) as nat);
        lemma_all_custom_free_index(new, i);
        lemma_all_render_custom_free_index(old, i);
        lemma_all_shapes_match_index(fresh_plain_trees::<K>(new), po, true, i);
        lemma_update_diff_applies::<K>(new[i], old[i], compatible);
        let prev = spec_update_prefix::<K>(new, old, compatible, (n - 1) as nat);
        let cur = spec_update_prefix::<K>(new, old, compatible, n);
        let (r, d) = spec_render_update::<K>(new[i], old[i], compatible);
        assert(cur.0 == prev.0.push(r));
        assert(cur.1 == prev.1 + child_changes_at(i as usize, d));
        lemma_apply_children_concat(po, prev.1, child_changes_at(i as usize, d));
        let s = plain_trees(prev.0) + po.skip(i);
        assert(s[i] == spec_to_plain(old[i]));
        lemma_child_changes_at_apply(s, i, d, spec_to_plain(r));
        assert(s.update(i, spec_to_plain(r)) =~= plain_trees(cur.0) + po.skip(n as int));
    }
}

/// The renders of the first `n` positions are one per position.
proof fn lemma_update_prefix_len<K: Renderer>(
    new: Seq<RequestV<K::V>>,
    old: Seq<RenderV<K::V>>,
    compatible: bool,
    n: nat,
)
    requires
        n <= new.len(),
        n <= old.len(),
    ensures
        spec_update_prefix::<K>(new, old, compatible, n).0.len() == n,
        forall|j: int|
            0 <= j < n ==> #[trigger] spec_update_prefix::<K>(new, old, compatible, n).0[j]
                == spec_render_update::<K>(new[j], old[j], compatible).0,
    decreases n,
{
    if n > 0 {
        lemma_update_prefix_len::<K>(new, old, compatible, (n - 1) as nat);
    }
}

/// Reconciling child requests with old child renders: there is one render per
/// request; the positions that both lists have hold the updated renders, the
/// requests past the old list are rendered from scratch; the changes end with one
/// insertion for each request past the old list, at its own position and in order,
/// then one removal for each old render past the new list, at its own position and
/// in order.
pub proof fn lemma_render_children_positions<K: Renderer>(
    new: Seq<RequestV<K::V>>,
    old: Seq<RenderV<K::V>>,
    compatible: bool,
)
    ensures
        ({
            let (rs, cs) = spec_compare_render_children::<K>(new, old, compatible);
            let m = shorter_len(new, old);
            let ins = new.len() - m;
            let rem = old.len() - m;
            &&& rs.len() == new.len()
            &&& forall|j: int|
                0 <= j < m ==> #[trigger] rs[j] == spec_render_update::<K>(
                    new[j],
                    old[j],
                    compatible,
                ).0
            &&& forall|j: int| m <= j < new.len() ==> #[trigger] rs[j] == spec_render_new::<K>(new[j])
            &&& cs.len() >= ins + rem
            &&& forall|j: int|
                m <= j < new.len() ==> #[trigger] cs[cs.len() - rem - ins + (j - m)]
                    == ChildChange::<NodeV, NodeDiffV>::Inserted(
                    j as usize,
                    spec_to_plain(spec_render_new::<K>(new[j])),
                )
            &&& forall|j: int|
                m <= j < old.len() ==> #[trigger] cs[cs.len() - rem + (j - m)]
                    == ChildChange::<NodeV, NodeDiffV>::Removed(j as usize, spec_to_plain(old[j]))
        }),
{
    let m = shorter_len(new, old);
    lemma_update_prefix_len::<K>(new, old, compatible, m);
    let pre = spec_update_prefix::<K>(new, old, compatible, m);
    let added = spec_render_new_seq::<K>(new.skip(m as int));
    lemma_render_new_seq::<K>(new.skip(m as int));
    let ins_c = spec_inserted_changes(added, m);
    let rem_c = spec_removed_changes(old.skip(m as int), m);
    let (rs, cs) = spec_compare_render_children::<K>(new, old, compatible);
    assert(rs == pre.0 + added);
    assert(cs == pre.1 + ins_c + rem_c);
    let ins = new.len() - m;
    let rem = old.len() - m;
    assert forall|j: int| m <= j < new.len() implies #[trigger] rs[j] == spec_render_new::<K>(
        new[j],
    ) by {
        assert(rs[j] == added[j - m]);
        assert(new.skip(m as int)[j - m] == new[j]);
    }
    assert forall|j: int| 0 <= j < m implies #[trigger] rs[j] == spec_render_update::<K>(
        new[j],
        old[j],
        compatible,
    ).0 by {
        assert(rs[j] == pre.0[j]);
    }
    assert forall|j: int| m <= j < new.len() implies #[trigger] cs[cs.len() - rem - ins + (j - m)]
        == ChildChange::<NodeV, NodeDiffV>::Inserted(
        j as usize,
        spec_to_plain(spec_render_new::<K>(new[j])),
    ) by {
        let k = j - m;
        assert(cs[cs.len() - rem - ins + k] == ins_c[k]);
        assert(added[k] == spec_render_new::<K>(new[j]));
        assert((k + m) as usize == j as usize);
    }
    assert forall|j: int| m <= j < old.len() implies #[trigger] cs[cs.len() - rem + (j - m)]
        == ChildChange::<NodeV, NodeDiffV>::Removed(j as usize, spec_to_plain(old[j])) by {
        let k = j - m;
        assert(cs[cs.len() - rem + k] == rem_c[k]);
        assert(old.skip(m as int)[k] == old[j]);
    }
}

} // verus!
