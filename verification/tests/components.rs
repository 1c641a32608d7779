use iceblock::ast::{Button, Div, DivDiff, P, PDiff};
use iceblock::node::{Node, NodeDiff};
use iceblock::render::{Render, Request};
use iceblock::trial::{
    render_differ, render_root, wrap, Differ, NoProps1, NoProps2, RootState, TrialComponent,
};
use iceblock::{
    compare_render_children, ChildChange, ComponentImpl, Diffable, NodeChange, PreviousRender,
    RenderResult, RequestedComponentImpl, ToPlain, ToRender,
};

type Req = Request<TrialComponent>;

fn p(text: &str) -> Node {
    Node::P(P { text: text.to_string() })
}

fn req_p(text: &str) -> Req {
    Request::P(P { text: text.to_string() })
}

fn page(name: &str) -> Req {
    Request::Div(
        Div { name: Some(name.to_string()) },
        vec![req_p("title"), Request::Button(Button { text: "ok".to_string() })],
    )
}

fn root(name: &str, count: u32) -> TrialComponent {
    TrialComponent::Root(NoProps1 { name: name.to_string(), count })
}

#[test]
fn the_root_component_writes_its_count_in_decimal() {
    for (count, text) in [(0u32, "Another message: 0"), (7, "Another message: 7"), (12345, "Another message: 12345"), (u32::MAX, "Another message: 4294967295")] {
        let request = render_root(&NoProps1 { name: "Ann".to_string(), count }, &RootState {});
        let plain = request.render_new().to_plain();
        assert_eq!(
            plain,
            Node::Div(
                Div { name: Some("Ann".to_string()) },
                vec![
                    p("Hello Ann"),
                    p(text),
                    Node::Div(Div { name: None }, vec![p("Hey"), p(""), p("Ann")]),
                ]
            )
        );
    }
}

#[test]
fn the_embedded_component_shows_its_state_and_props() {
    let request = render_differ(&NoProps2 { name: "Bo".to_string() }, &Differ { message: "hi".to_string() });
    assert_eq!(
        request.render_new().to_plain(),
        Node::Div(Div { name: None }, vec![p("Hey"), p("hi"), p("Bo")])
    );
}

#[test]
fn a_wrapped_function_renders_as_the_function() {
    let wrapper = wrap(render_root);
    let props = NoProps1 { name: "Cy".to_string(), count: 2 };
    let via_wrapper = wrapper.render(&props, &RootState {}).render_new().to_plain();
    let direct = render_root(&props, &RootState {}).render_new().to_plain();
    assert_eq!(via_wrapper, direct);
}

#[test]
fn updating_a_plain_tree_gives_what_a_fresh_render_gives() {
    let old = page("a").render_new();
    let RenderResult { render, diff } = page("b").render_update(old, false);
    assert_eq!(render.to_plain(), page("b").render_new().to_plain());
    assert_eq!(
        diff,
        NodeChange::Changed(NodeDiff::Div(DivDiff { name: Some(Some("b".to_string())) }, vec![]))
    );
}

#[test]
fn updating_a_render_to_its_own_request_is_identical() {
    for compatible in [false, true] {
        let old = page("a").render_new();
        let RenderResult { render, diff } = page("a").render_update(old, compatible);
        assert_eq!(diff, NodeChange::Identical);
        assert_eq!(render.to_plain(), page("a").render_new().to_plain());
    }
}

#[test]
fn a_component_with_equal_props_keeps_its_render() {
    let old = Request::custom(root("Dee", 3)).render_new();
    let RenderResult { render, diff } = Request::custom(root("Dee", 3)).render_update(old, false);
    assert_eq!(diff, NodeChange::Identical);
    assert_eq!(render.to_plain(), Request::custom(root("Dee", 3)).render_new().to_plain());
}

#[test]
fn a_component_of_another_type_is_rendered_and_compared() {
    let old = Request::custom(TrialComponent::Differ(NoProps2 { name: "Ed".to_string() })).render_new();
    let RenderResult { render, diff } = Request::custom(root("Ed", 1)).render_update(old, false);
    assert_eq!(render.to_plain(), Request::custom(root("Ed", 1)).render_new().to_plain());
    assert_eq!(
        diff,
        NodeChange::Changed(NodeDiff::Div(
            DivDiff { name: Some(Some("Ed".to_string())) },
            vec![
                ChildChange::Changed(0, NodeDiff::P(PDiff { text: Some("Hello Ed".to_string()) })),
                ChildChange::Changed(1, NodeDiff::P(PDiff { text: Some("Another message: 1".to_string()) })),
                ChildChange::Removed(2, p("Ed")),
                ChildChange::Inserted(2, Node::Div(Div { name: None }, vec![p("Hey"), p(""), p("Ed")])),
            ]
        ))
    );
}

#[test]
fn a_div_request_over_another_kind_reports_the_old_tree_first() {
    let old = req_p("x").render_new();
    let RenderResult { render, diff } = Request::Div(Div { name: None }, vec![]).render_update(old, false);
    assert_eq!(render.to_plain(), Node::Div(Div { name: None }, vec![]));
    assert_eq!(diff, NodeChange::Swapped(p("x"), Node::Div(Div { name: None }, vec![])));
    let old = Request::Div(Div { name: None }, vec![]).render_new();
    let RenderResult { diff, .. } = req_p("x").render_update(old, false);
    assert_eq!(diff, NodeChange::Swapped(p("x"), Node::Div(Div { name: None }, vec![])));
}

#[test]
fn extra_requests_are_inserted_and_extra_renders_removed() {
    let old: Vec<Render<TrialComponent>> = vec![req_p("a").render_new()];
    let (renders, changes) = compare_render_children(vec![req_p("a"), req_p("b"), req_p("c")], old, false);
    assert_eq!(renders.iter().map(|r| r.to_plain()).collect::<Vec<_>>(), vec![p("a"), p("b"), p("c")]);
    assert_eq!(changes, vec![ChildChange::Inserted(1, p("b")), ChildChange::Inserted(2, p("c"))]);

    let old: Vec<Render<TrialComponent>> =
        vec![req_p("a").render_new(), req_p("b").render_new(), req_p("c").render_new()];
    let (renders, changes) = compare_render_children(vec![req_p("z")], old, false);
    assert_eq!(renders.iter().map(|r| r.to_plain()).collect::<Vec<_>>(), vec![p("z")]);
    assert_eq!(
        changes,
        vec![
            ChildChange::Changed(0, NodeDiff::P(PDiff { text: Some("z".to_string()) })),
            ChildChange::Removed(1, p("b")),
            ChildChange::Removed(2, p("c")),
        ]
    );
}

#[test]
fn a_requested_component_renders_with_its_initial_state() {
    let rendered = RequestedComponentImpl { component: TrialComponent::Differ(NoProps2 { name: "Flo".to_string() }) }
        .render_new();
    assert_eq!(
        rendered.rendered.to_plain(),
        Node::Div(Div { name: None }, vec![p("Hey"), p(""), p("Flo")])
    );
    let component = ComponentImpl { component: root("Gus", 4) };
    assert_eq!(
        component.render_new().to_plain(),
        Request::custom(root("Gus", 4)).render_new().to_plain()
    );
}

#[test]
fn a_component_updated_over_a_plain_render_is_compared_with_it() {
    let previous = PreviousRender::OfRender(req_p("old").render_new());
    let requested = RequestedComponentImpl { component: TrialComponent::Differ(NoProps2 { name: "Hal".to_string() }) };
    let result = requested.render_update(previous);
    assert_eq!(
        result.rendered_component.rendered.to_plain(),
        Node::Div(Div { name: None }, vec![p("Hey"), p(""), p("Hal")])
    );
    assert_eq!(
        result.diff,
        NodeChange::Swapped(p("old"), Node::Div(Div { name: None }, vec![p("Hey"), p(""), p("Hal")]))
    );
}

#[test]
fn a_component_updated_from_an_equal_one_keeps_it() {
    let first = RequestedComponentImpl { component: root("Ivy", 5) }.render_new();
    let result = RequestedComponentImpl { component: root("Ivy", 5) }.render_update(PreviousRender::OfComponent(first));
    assert_eq!(result.diff, NodeChange::Identical);
    assert_eq!(
        result.rendered_component.rendered.to_plain(),
        Request::custom(root("Ivy", 5)).render_new().to_plain()
    );
    let component = ComponentImpl { component: root("Ivy", 5) };
    let RenderResult { diff, .. } = component.render_update(result.rendered_component.rendered, true);
    assert_eq!(diff, NodeChange::Identical);
}

#[test]
fn an_update_with_a_kept_component_builds_the_fresh_render() {
    let request = |name: &str, text: &str| -> Req {
        Request::Div(
            Div { name: Some(name.to_string()) },
            vec![Request::custom(root("Bob", 1)), req_p(text)],
        )
    };
    let old = request("a", "x").render_new();
    let RenderResult { render, diff } = request("b", "y").render_update(old, false);
    assert_eq!(render.to_plain(), request("b", "y").render_new().to_plain());
    assert_eq!(
        diff,
        NodeChange::Changed(NodeDiff::Div(
            DivDiff { name: Some(Some("b".to_string())) },
            vec![ChildChange::Changed(1, NodeDiff::P(PDiff { text: Some("y".to_string()) }))]
        ))
    );
}

#[test]
fn an_update_without_components_is_identical_only_when_the_plain_trees_agree() {
    let list = |items: &[&str]| -> Req {
        Request::Div(Div { name: None }, items.iter().map(|t| req_p(t)).collect())
    };
    for (old_items, new_items) in [
        (vec!["a"], vec!["a"]),
        (vec!["a"], vec!["a", "b"]),
        (vec!["a", "b"], vec!["a"]),
        (vec!["a"], vec!["c"]),
    ] {
        let old = list(&old_items).render_new();
        let old_plain = old.to_plain();
        let RenderResult { render, diff } = list(&new_items).render_update(old, false);
        assert_eq!(diff.is_identical(), old_plain == render.to_plain());
    }
    let old = list(&["a"]).render_new();
    let RenderResult { diff, .. } = list(&["a", "b"]).render_update(old, false);
    assert_eq!(
        diff,
        NodeChange::Changed(NodeDiff::Div(DivDiff { name: None }, vec![ChildChange::Inserted(1, p("b"))]))
    );
}
