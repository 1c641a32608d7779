use iceblock::jade::{div, Builder, Cust, Node};

fn reqs() -> div {
    div { a: "first".to_string(), b: "second".to_string() }
}

#[test]
fn a_new_builder_holds_the_required_attributes_only() {
    let builder = Builder::div(reqs());
    assert_eq!(builder.reqs.a, "first");
    assert_eq!(builder.reqs.b, "second");
    assert_eq!(builder.c, None);
    assert_eq!(builder.d, None);
    assert!(builder._children.is_empty());
    let custom = Builder::custom(reqs());
    assert_eq!(custom.reqs.a, "first");
    assert!(custom._children.is_empty());
}

#[test]
fn children_are_added_in_order_and_the_node_keeps_the_attributes() {
    let mut builder = Builder::div(reqs());
    builder.c = Some("c".to_string());
    builder.d = Some(11);
    builder.add_child(Node::Custom(Cust {}));
    builder.add_child(Builder::div(reqs()).to_node());
    assert_eq!(builder._children.len(), 2);
    assert!(matches!(builder._children[0], Node::Custom(_)));
    assert!(matches!(builder._children[1], Node::Div(_)));
    match builder.to_node() {
        Node::Div(d) => {
            assert_eq!(d.a, "first");
            assert_eq!(d.b, "second");
            assert_eq!(d.c, Some("c".to_string()));
            assert_eq!(d.d, Some(11));
        }
        Node::Custom(_) => panic!("expected a div"),
    }
}
