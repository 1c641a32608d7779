use iceblock::ast::{Div, DivDiff, P, PDiff};
use iceblock::change::{ChildChange, Diffable, NodeChange, RenderResult, ToPlain, ToRender};
use iceblock::node::{Node, NodeDiff};
use iceblock::render::Request;
use iceblock::trial::{NoProps1, TrialComponent};

fn p(text: &str) -> Node {
    Node::P(P { text: text.to_string() })
}

fn nested() -> Vec<Node> {
    vec![
        p("Hello World"),
        p("Hello World 2"),
        Node::Div(
            Div { name: None },
            vec![
                p("111"),
                p("222"),
                p("333"),
                Node::Div(Div { name: None }, vec![p("111"), p("222"), p("333")]),
            ],
        ),
    ]
}

#[test]
fn test_component_tree() {
    let request = Request::custom(TrialComponent::Root(NoProps1 { name: "Bob".to_owned(), count: 10 }));
    let rendered = request.render_new();
    println!("{:#?}", &rendered);
    println!("{:#?}", rendered.to_plain());
    let request = Request::custom(TrialComponent::Root(NoProps1 { name: "Jones".to_owned(), count: 10 }));
    let RenderResult { render: rendered, diff } = request.render_update(rendered, true);

    println!("{:#?}", &rendered);
    println!("{:#?}", rendered.to_plain());
    println!("{:#?}", diff);
}

#[test]
fn test_node_diff() {
    let base = Node::Div(Div { name: None }, nested());
    let new = Node::Div(Div { name: Some("Pooh".to_string()) }, nested());
    let out = new.clone().diff(base);
    println!("{:#?}", out);
    assert_eq!(
        out,
        NodeChange::Changed(NodeDiff::Div(
            DivDiff { name: Some(Some("Pooh".to_string())) },
            vec![]
        ))
    );
}

#[test]
fn component_tree_diff_reports_the_changed_name() {
    let request = Request::custom(TrialComponent::Root(NoProps1 { name: "Bob".to_owned(), count: 10 }));
    let rendered = request.render_new();
    let plain = rendered.to_plain();
    assert_eq!(
        plain,
        Node::Div(
            Div { name: Some("Bob".to_string()) },
            vec![
                p("Hello Bob"),
                p("Another message: 10"),
                Node::Div(Div { name: None }, vec![p("Hey"), p(""), p("Bob")]),
            ]
        )
    );
    let request = Request::custom(TrialComponent::Root(NoProps1 { name: "Jones".to_owned(), count: 10 }));
    let RenderResult { render, diff } = request.render_update(rendered, true);
    assert_eq!(
        diff,
        NodeChange::Changed(NodeDiff::Div(
            DivDiff { name: Some(Some("Jones".to_string())) },
            vec![
                ChildChange::Changed(0, NodeDiff::P(PDiff { text: Some("Hello Jones".to_string()) })),
                ChildChange::Changed(
                    2,
                    NodeDiff::Div(
                        DivDiff { name: None },
                        vec![ChildChange::Changed(2, NodeDiff::P(PDiff { text: Some("Jones".to_string()) }))]
                    )
                ),
            ]
        ))
    );
    assert_eq!(render.to_plain().diff(Node::Div(
        Div { name: Some("Jones".to_string()) },
        vec![
            p("Hello Jones"),
            p("Another message: 10"),
            Node::Div(Div { name: None }, vec![p("Hey"), p(""), p("Jones")]),
        ]
    )), NodeChange::Identical);
}
