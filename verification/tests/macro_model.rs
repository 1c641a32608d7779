use iceblock::codegen::{
    filter_content, gen_enum, gen_request_builder, join, struct_text, ItemModel, REQUEST_BUILDER,
};
use iceblock::igloo::{
    has_attribute, process_struct, remove, wrap_in_option, AttrModel, Children, FieldModel,
    StructForm, StructModel,
};

fn attr(name: &str) -> AttrModel {
    AttrModel { outer: true, name: Some(name.to_string()), text: format!("#[{}]", name) }
}

fn field(name: &str, ty: &str) -> FieldModel {
    FieldModel { attrs: vec![], vis: "pub".to_string(), name: name.to_string(), ty: ty.to_string() }
}

fn model(ident: &str, attrs: Vec<AttrModel>, fields: Vec<FieldModel>) -> StructModel {
    StructModel {
        attrs,
        vis: "pub".to_string(),
        ident: ident.to_string(),
        generics: String::new(),
        where_clause: String::new(),
        form: StructForm::Named,
        fields,
    }
}

#[test]
fn an_attribute_is_found_by_the_name_of_its_meta_item() {
    assert!(has_attribute(&attr("has_child"), "has_child"));
    assert!(!has_attribute(&attr("has_child"), "has_children"));
    let inner = AttrModel { outer: false, name: Some("has_child".to_string()), text: "#![has_child]".to_string() };
    assert!(!has_attribute(&inner, "has_child"));
    let doc = AttrModel { outer: true, name: None, text: "/// doc".to_string() };
    assert!(!has_attribute(&doc, "has_child"));
}

#[test]
fn removing_an_attribute_keeps_the_others_in_order() {
    let (kept, found) = remove(vec![attr("a"), attr("x"), attr("b"), attr("x")], "x");
    assert!(found);
    assert_eq!(kept.iter().map(|a| a.text.clone()).collect::<Vec<_>>(), vec!["#[a]", "#[b]"]);
    let (kept, found) = remove(vec![attr("a")], "x");
    assert!(!found);
    assert_eq!(kept.len(), 1);
}

#[test]
fn a_type_is_wrapped_in_an_option() {
    assert_eq!(wrap_in_option(&"u32".to_string()), "::std::option::Option<u32>");
}

#[test]
fn a_prop_struct_gives_its_diff_struct_and_children() {
    let t = process_struct(model(
        "Div",
        vec![attr("derive"), attr("has_children")],
        vec![field("name", "Option<String>")],
    ));
    assert_eq!(t.children, Children::List);
    assert_eq!(t.name, "Div");
    assert_eq!(t.ast.ident, "Div");
    assert_eq!(t.ast.attrs.len(), 1);
    assert_eq!(t.differ.ident, "DivDiff");
    assert_eq!(t.differ.attrs.len(), 1);
    assert_eq!(t.differ.fields[0].ty, "::std::option::Option<Option<String>>");
    assert_eq!(t.ast.fields[0].ty, "Option<String>");
    let one = process_struct(model("Cont", vec![attr("has_child")], vec![]));
    assert_eq!(one.children, Children::One);
    assert!(one.ast.attrs.is_empty());
    let none = process_struct(model("P", vec![], vec![field("text", "String")]));
    assert_eq!(none.children, Children::Zero);
}

#[test]
fn strings_are_joined_with_the_separator() {
    assert_eq!(join(&vec![], ", "), "");
    assert_eq!(join(&vec!["a".to_string()], ", "), "a");
    assert_eq!(join(&vec!["a".to_string(), "b".to_string(), "c".to_string()], "-"), "a-b-c");
}

#[test]
fn a_struct_is_written_back_as_source() {
    let s = model("P", vec![attr("derive(Debug)")], vec![field("text", "String"), field("n", "u8")]);
    assert_eq!(struct_text(&s), "#[derive(Debug)] pub struct P  {  pub text: String,  pub n: u8 }");
}

#[test]
fn unit_and_tuple_structs_keep_their_form() {
    let mut unit = model("Cont", vec![], vec![]);
    unit.form = StructForm::Unit;
    assert_eq!(struct_text(&unit), " pub struct Cont ;");
    let mut tuple = model("Pair", vec![], vec![field("", "u8"), field("", "u16")]);
    tuple.form = StructForm::Tuple;
    tuple.generics = "<T>".to_string();
    tuple.where_clause = "where T: Clone".to_string();
    assert_eq!(struct_text(&tuple), " pub struct Pair<T>( pub u8,  pub u16) where T: Clone;");
    let t = process_struct(unit);
    assert_eq!(t.differ.form, StructForm::Unit);
    assert_eq!(struct_text(&t.differ), " pub struct ContDiff ;");
}

#[test]
fn field_attributes_and_where_clauses_are_kept() {
    let mut f = field("text", "T");
    f.attrs = vec!["/// The text.".to_string(), "#[allow(dead_code)]".to_string()];
    let mut s = model("P", vec![], vec![f]);
    s.generics = "<T>".to_string();
    s.where_clause = "where T: Clone".to_string();
    let t = process_struct(s);
    assert_eq!(
        struct_text(&t.ast),
        " pub struct P<T> where T: Clone { /// The text. #[allow(dead_code)] pub text: T }"
    );
    assert_eq!(
        struct_text(&t.differ),
        " pub struct PDiff<T> where T: Clone { /// The text. #[allow(dead_code)] pub text: ::std::option::Option<T> }"
    );
}

#[test]
fn the_node_enums_have_a_variant_per_kind() {
    let types = vec![
        process_struct(model("P", vec![], vec![field("text", "String")])),
        process_struct(model("Div", vec![attr("has_children")], vec![])),
    ];
    assert_eq!(
        gen_enum(&types),
        vec![
            "#[derive(Debug)] pub enum NodeDiff { P(PDiff), Div(DivDiff, Vec<::iceblock::ChildChange<Node, NodeDiff>>) }".to_string(),
            "#[derive(Clone, Debug)] pub enum Node { P(P), Div(Div, ::std::vec::Vec<Node>) }".to_string(),
        ]
    );
    assert_eq!(
        gen_request_builder(&types),
        vec!["use std::fmt::Debug;".to_string(), REQUEST_BUILDER.to_string()]
    );
}

#[test]
fn the_module_content_starts_with_the_structs_and_the_import() {
    let items = vec![
        ItemModel::Other,
        ItemModel::Struct(model("P", vec![], vec![field("text", "String")])),
        ItemModel::Other,
    ];
    let out = filter_content(items);
    assert_eq!(out.len(), 2 + 1 + 2 + 2 + 2 + 1 + 1 + 2);
    assert_eq!(out[0], " pub struct P  {  pub text: String }");
    assert_eq!(out[1], " pub struct PDiff  {  pub text: ::std::option::Option<String> }");
    assert_eq!(out[2], "use ::iceblock::*;");
    assert_eq!(out[3], "#[derive(Debug)] pub enum NodeDiff { P(PDiff) }");
    assert_eq!(out[4], "#[derive(Clone, Debug)] pub enum Node { P(P) }");
    assert_eq!(out[6], "impl P { pub fn diff(&self, other: P) -> PDiff { PDiff { text: ::iceblock::diff(&self.text, &other.text) } } }");
    assert_eq!(out[out.len() - 1], REQUEST_BUILDER);
}
