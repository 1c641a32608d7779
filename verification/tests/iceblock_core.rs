use iceblock::ast::{Button, ButtonDiff, Cont, ContDiff, Div, DivDiff, Input, InputDiff, P, PDiff};
use iceblock::node::{Node, NodeDiff};
use iceblock::{compare_children, diff, ChildChange, Diffable, NodeChange};

fn p(text: &str) -> Node {
    Node::P(P { text: text.to_string() })
}

fn div(name: Option<&str>, children: Vec<Node>) -> Node {
    Node::Div(Div { name: name.map(|n| n.to_string()) }, children)
}

#[test]
fn diff_is_none_for_equal_values_and_the_new_value_otherwise() {
    assert_eq!(diff(&3u32, &3u32), None);
    assert_eq!(diff(&4u32, &3u32), Some(4u32));
    assert_eq!(diff(&"a".to_string(), &"a".to_string()), None);
    assert_eq!(diff(&"b".to_string(), &"a".to_string()), Some("b".to_string()));
    assert_eq!(diff(&Some(1u8), &None), Some(Some(1u8)));
    assert_eq!(diff(&None::<u8>, &Some(1u8)), Some(None));
}

#[test]
fn only_identical_is_identical() {
    assert!(NodeChange::<u32, u32>::Identical.is_identical());
    assert!(!NodeChange::<u32, u32>::Changed(1).is_identical());
    assert!(!NodeChange::<u32, u32>::Swapped(1, 2).is_identical());
}

#[test]
fn prop_diffs_list_the_fields_that_changed() {
    let same = Div { name: Some("a".to_string()) }.diff(Div { name: Some("a".to_string()) });
    assert_eq!(same, DivDiff { name: None });
    let cleared = Div { name: None }.diff(Div { name: Some("a".to_string()) });
    assert_eq!(cleared, DivDiff { name: Some(None) });
    assert_eq!(Cont {}.diff(Cont {}), ContDiff {});
    assert_eq!(
        P { text: "x".to_string() }.diff(P { text: "y".to_string() }),
        PDiff { text: Some("x".to_string()) }
    );
    assert_eq!(
        Button { text: "ok".to_string() }.diff(Button { text: "ok".to_string() }),
        ButtonDiff { text: None }
    );
    let input = Input { prompt: "Name".to_string(), value: Some("Bob".to_string()) };
    let old = Input { prompt: "Name".to_string(), value: None };
    assert_eq!(
        input.diff(old),
        InputDiff { prompt: None, value: Some(Some("Bob".to_string())) }
    );
}

#[test]
fn a_tree_compared_with_itself_is_identical() {
    let tree = div(
        Some("root"),
        vec![
            p("a"),
            div(None, vec![p("b"), Node::Button(Button { text: "go".to_string() })]),
            Node::Input(Input { prompt: "?".to_string(), value: None }),
        ],
    );
    assert_eq!(tree.diff(tree.clone()), NodeChange::Identical);
}

#[test]
fn nodes_of_different_kinds_are_swapped_new_first() {
    let new = p("a");
    let old = Node::Button(Button { text: "b".to_string() });
    assert_eq!(new.diff(old), NodeChange::Swapped(p("a"), Node::Button(Button { text: "b".to_string() })));
    let old = p("a");
    let new = div(None, vec![]);
    assert_eq!(new.diff(old), NodeChange::Swapped(div(None, vec![]), p("a")));
}

#[test]
fn a_container_is_always_reported_changed() {
    let new = Node::Cont(Cont {}, Box::new(p("a")));
    let old = Node::Cont(Cont {}, Box::new(p("a")));
    assert_eq!(
        new.diff(old),
        NodeChange::Changed(NodeDiff::Cont(ContDiff {}, Box::new(NodeChange::Identical)))
    );
}

#[test]
fn children_are_compared_position_by_position() {
    let old = vec![p("a"), p("b"), Node::Button(Button { text: "c".to_string() })];
    let new = vec![p("a"), p("x"), p("c")];
    assert_eq!(
        compare_children(old, &new),
        vec![
            ChildChange::Changed(1, NodeDiff::P(PDiff { text: Some("x".to_string()) })),
            ChildChange::Removed(2, Node::Button(Button { text: "c".to_string() })),
            ChildChange::Inserted(2, p("c")),
        ]
    );
}

#[test]
fn children_that_only_one_list_has_give_no_change() {
    assert_eq!(compare_children(vec![p("a")], &vec![p("a"), p("b")]), vec![]);
    assert_eq!(compare_children(vec![p("a"), p("b")], &vec![p("a")]), vec![]);
    assert_eq!(
        compare_children(vec![p("a"), p("b")], &vec![p("z")]),
        vec![ChildChange::Changed(0, NodeDiff::P(PDiff { text: Some("z".to_string()) }))]
    );
    let with_more = div(None, vec![p("a"), p("b")]);
    assert_eq!(with_more.diff(div(None, vec![p("a")])), NodeChange::Identical);
}
