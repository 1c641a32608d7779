use iceblock::ast::{Div, DivDiff, P};
use iceblock::change::{Diffable, NodeChange};
use iceblock::node::{Node, NodeDiff};

fn p(text: &str) -> Node {
    Node::P(P { text: text.to_string() })
}

fn nested() -> Vec<Node> {
    vec![
        p("Hello World"),
        p("Hello World 2"),
        Node::Div(
            Div { name: None },
            vec![
                p("111"),
                p("222"),
                p("333"),
                Node::Div(Div { name: None }, vec![p("111"), p("222"), p("333")]),
            ],
        ),
    ]
}

#[test]
fn test_add() {
    let base = Node::Div(Div { name: None }, nested());
    let new = Node::Div(Div { name: Some("Pooh".to_string()) }, nested());
    let out = base.clone().diff(new);
    println!("{:#?}", out);
    assert_eq!(out, NodeChange::Changed(NodeDiff::Div(DivDiff { name: Some(None) }, vec![])));
}
