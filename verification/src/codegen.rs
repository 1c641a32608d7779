//! The code that the `igloo_ast` attribute writes for a module of prop structs,
//! as source text: the structs and their diff structs, the node, diff, render and
//! request enums, and their impls.
use vstd::prelude::*;
use crate::igloo::{
    AstType, AstTypeV, Children, FieldModel, FieldV, StructForm, StructModel, StructV, copy_struct,
    process_struct, spec_process_struct, strings_view,
};

verus! {

/// The views of a list of prop types.
pub open spec fn types_view(s: Seq<AstType>) -> Seq<AstTypeV> {
    s.map_values(|t: AstType| t@)
}

/// The texts joined, with `sep` between each two.
pub open spec fn spec_join(items: Seq<Seq<char>>, sep: Seq<char>) -> Seq<char>
    decreases items.len(),
{
    if items.len() == 0 {
        Seq::empty()
    } else if items.len() == 1 {
        items[0]
    } else {
        spec_join(items.drop_last(), sep) + sep + items.last()
    }
}

/// Joins the strings, with `sep` between each two.
pub fn join(items: &Vec<String>, sep: &str) -> (r: String)
    ensures
        r@ == spec_join(strings_view(items@), sep@),
{
    let ghost sv = strings_view(items@);
    let mut r = String::new();
    let mut i: usize = 0;
    while i < items.len()
        invariant
            i <= items.len(),
            sv == strings_view(items@),
            r@ == spec_join(sv.take(i as int), sep@),
        decreases items.len() - i,
    {
        let ghost before = r@;
        if i > 0 {
            r.append(sep);
        }
        r.append(items[i].as_str());
        proof {
            let s = sv.take(i + 1);
            assert(s.drop_last() =~= sv.take(i as int));
            assert(s.last() == items@[i as int]@);
            if i == 0 {
                assert(before =~= Seq::<char>::empty());
                assert(r@ =~= s[0]);
            }
        }
        i = i + 1;
    }
    proof {
        assert(sv.take(items.len() as int) =~= sv);
    }
    r
}

/// The variant of the `Node` enum for a kind.
pub open spec fn spec_node_variant(t: AstTypeV) -> Seq<char> {
    match t.children {
        Children::Zero => t.ast.ident + "("@ + t.ast.ident + ")"@,
        Children::One => t.ast.ident + "("@ + t.ast.ident + ", ::std::boxed::Box<Node>)"@,
        Children::List => t.ast.ident + "("@ + t.ast.ident + ", ::std::vec::Vec<Node>)"@,
    }
}

fn node_variant(t: &AstType) -> (r: String)
    ensures
        r@ == spec_node_variant(t@),
{
    match t.children {
        Children::Zero => {
            let mut r = t.ast.ident.clone();
            r.append("(");
            r.append(t.ast.ident.as_str());
            r.append(")");
            r
        },
        Children::One => {
            let mut r = t.ast.ident.clone();
            r.append("(");
            r.append(t.ast.ident.as_str());
            r.append(", ::std::boxed::Box<Node>)");
            r
        },
        Children::List => {
            let mut r = t.ast.ident.clone();
            r.append("(");
            r.append(t.ast.ident.as_str());
            r.append(", ::std::vec::Vec<Node>)");
            r
        },
    }
}

/// The variant of the `NodeDiff` enum for a kind.
pub open spec fn spec_node_diff_variant(t: AstTypeV) -> Seq<char> {
    match t.children {
        Children::Zero => t.ast.ident + "("@ + t.differ.ident + ")"@,
        Children::One => t.ast.ident + "("@ + t.differ.ident + ", Box<::iceblock::NodeChange<Node, NodeDiff>>)"@,
        Children::List => t.ast.ident + "("@ + t.differ.ident + ", Vec<::iceblock::ChildChange<Node, NodeDiff>>)"@,
    }
}

fn node_diff_variant(t: &AstType) -> (r: String)
    ensures
        r@ == spec_node_diff_variant(t@),
{
    match t.children {
        Children::Zero => {
            let mut r = t.ast.ident.clone();
            r.append("(");
            r.append(t.differ.ident.as_str());
            r.append(")");
            r
        },
        Children::One => {
            let mut r = t.ast.ident.clone();
            r.append("(");
            r.append(t.differ.ident.as_str());
            r.append(", Box<::iceblock::NodeChange<Node, NodeDiff>>)");
            r
        },
        Children::List => {
            let mut r = t.ast.ident.clone();
            r.append("(");
            r.append(t.differ.ident.as_str());
            r.append(", Vec<::iceblock::ChildChange<Node, NodeDiff>>)");
            r
        },
    }
}

/// The arm of `Node::diff` for a kind.
pub open spec fn spec_diff_arm(t: AstTypeV) -> Seq<char> {
    match t.children {
        Children::Zero => "Node::"@ + t.ast.ident + "(props) => { match other { Node::"@ + t.ast.ident + "(old_props) => { if *props == old_props { ::iceblock::NodeChange::Identical } else { ::iceblock::NodeChange::Changed(NodeDiff::"@ + t.ast.ident + "(props.diff(old_props))) } } _ => ::iceblock::NodeChange::Swapped(Node::"@ + t.ast.ident + "(props.clone()), other) } }"@,
        Children::One => "Node::"@ + t.ast.ident + "(props, child) => { match other { Node::"@ + t.ast.ident + "(old_props, old_child) => { if *props == old_props { ::iceblock::NodeChange::Identical } else { ::iceblock::NodeChange::Changed(NodeDiff::"@ + t.ast.ident + "(props.diff(old_props), ::std::boxed::Box::new(child.diff(*old_child)))) } }, _ => ::iceblock::NodeChange::Swapped(Node::"@ + t.ast.ident + "(props.clone(), child.clone()), other) } }"@,
        Children::List => "Node::"@ + t.ast.ident + "(props, children) => { match other { Node::"@ + t.ast.ident + "(old_props, old_children) => { let compared = compare_children(old_children, children); if compared.len() == 0 && *props == old_props { NodeChange::Identical } else { NodeChange::Changed(NodeDiff::"@ + t.ast.ident + "(props.diff(old_props), compared)) } }, _ => ::iceblock::NodeChange::Swapped(Node::"@ + t.ast.ident + "(props.clone(), children.clone()), other) } }"@,
    }
}

fn diff_arm(t: &AstType) -> (r: String)
    ensures
        r@ == spec_diff_arm(t@),
{
    match t.children {
        Children::Zero => {
            let mut r = String::from_str("Node::");
            r.append(t.ast.ident.as_str());
            r.append("(props) => { match other { Node::");
            r.append(t.ast.ident.as_str());
            r.append("(old_props) => { if *props == old_props { ::iceblock::NodeChange::Identical } else { ::iceblock::NodeChange::Changed(NodeDiff::");
            r.append(t.ast.ident.as_str());
            r.append("(props.diff(old_props))) } } _ => ::iceblock::NodeChange::Swapped(Node::");
            r.append(t.ast.ident.as_str());
            r.append("(props.clone()), other) } }");
            r
        },
        Children::One => {
            let mut r = String::from_str("Node::");
            r.append(t.ast.ident.as_str());
            r.append("(props, child) => { match other { Node::");
            r.append(t.ast.ident.as_str());
            r.append("(old_props, old_child) => { if *props == old_props { ::iceblock::NodeChange::Identical } else { ::iceblock::NodeChange::Changed(NodeDiff::");
            r.append(t.ast.ident.as_str());
            r.append("(props.diff(old_props), ::std::boxed::Box::new(child.diff(*old_child)))) } }, _ => ::iceblock::NodeChange::Swapped(Node::");
            r.append(t.ast.ident.as_str());
            r.append("(props.clone(), child.clone()), other) } }");
            r
        },
        Children::List => {
            let mut r = String::from_str("Node::");
            r.append(t.ast.ident.as_str());
            r.append("(props, children) => { match other { Node::");
            r.append(t.ast.ident.as_str());
            r.append("(old_props, old_children) => { let compared = compare_children(old_children, children); if compared.len() == 0 && *props == old_props { NodeChange::Identical } else { NodeChange::Changed(NodeDiff::");
            r.append(t.ast.ident.as_str());
            r.append("(props.diff(old_props), compared)) } }, _ => ::iceblock::NodeChange::Swapped(Node::");
            r.append(t.ast.ident.as_str());
            r.append("(props.clone(), children.clone()), other) } }");
            r
        },
    }
}

/// The variant of the `Render` enum for a kind.
pub open spec fn spec_render_variant(t: AstTypeV) -> Seq<char> {
    match t.children {
        Children::Zero => t.ast.ident + "("@ + t.ast.ident + ")"@,
        Children::One => t.ast.ident + "("@ + t.ast.ident + ", ::std::boxed::Box<Render>)"@,
        Children::List => t.ast.ident + "("@ + t.ast.ident + ", ::std::vec::Vec<Render>)"@,
    }
}

fn render_variant(t: &AstType) -> (r: String)
    ensures
        r@ == spec_render_variant(t@),
{
    match t.children {
        Children::Zero => {
            let mut r = t.ast.ident.clone();
            r.append("(");
            r.append(t.ast.ident.as_str());
            r.append(")");
            r
        },
        Children::One => {
            let mut r = t.ast.ident.clone();
            r.append("(");
            r.append(t.ast.ident.as_str());
            r.append(", ::std::boxed::Box<Render>)");
            r
        },
        Children::List => {
            let mut r = t.ast.ident.clone();
            r.append("(");
            r.append(t.ast.ident.as_str());
            r.append(", ::std::vec::Vec<Render>)");
            r
        },
    }
}

/// The arm of `Render::to_plain` for a kind.
pub open spec fn spec_to_plain_arm(t: AstTypeV) -> Seq<char> {
    match t.children {
        Children::Zero => "Render::"@ + t.ast.ident + "(props) => Node::"@ + t.ast.ident + "(props.clone())"@,
        Children::One => "Render::"@ + t.ast.ident + "(props, child) => { Node::"@ + t.ast.ident + "(props.clone(), Box::new(child.to_plain())) }"@,
        Children::List => "Render::"@ + t.ast.ident + "(props, children) => { Node::"@ + t.ast.ident + "(props.clone(), children.iter().map(|c| c.to_plain()).collect()) }"@,
    }
}

fn to_plain_arm(t: &AstType) -> (r: String)
    ensures
        r@ == spec_to_plain_arm(t@),
{
    match t.children {
        Children::Zero => {
            let mut r = String::from_str("Render::");
            r.append(t.ast.ident.as_str());
            r.append("(props) => Node::");
            r.append(t.ast.ident.as_str());
            r.append("(props.clone())");
            r
        },
        Children::One => {
            let mut r = String::from_str("Render::");
            r.append(t.ast.ident.as_str());
            r.append("(props, child) => { Node::");
            r.append(t.ast.ident.as_str());
            r.append("(props.clone(), Box::new(child.to_plain())) }");
            r
        },
        Children::List => {
            let mut r = String::from_str("Render::");
            r.append(t.ast.ident.as_str());
            r.append("(props, children) => { Node::");
            r.append(t.ast.ident.as_str());
            r.append("(props.clone(), children.iter().map(|c| c.to_plain()).collect()) }");
            r
        },
    }
}

/// The variant of the `Request` enum for a kind.
pub open spec fn spec_request_variant(t: AstTypeV) -> Seq<char> {
    match t.children {
        Children::Zero => t.ast.ident + "("@ + t.ast.ident + ")"@,
        Children::One => t.ast.ident + "("@ + t.ast.ident + ", ::std::boxed::Box<Request>)"@,
        Children::List => t.ast.ident + "("@ + t.ast.ident + ", ::std::vec::Vec<Request>)"@,
    }
}

fn request_variant(t: &AstType) -> (r: String)
    ensures
        r@ == spec_request_variant(t@),
{
    match t.children {
        Children::Zero => {
            let mut r = t.ast.ident.clone();
            r.append("(");
            r.append(t.ast.ident.as_str());
            r.append(")");
            r
        },
        Children::One => {
            let mut r = t.ast.ident.clone();
            r.append("(");
            r.append(t.ast.ident.as_str());
            r.append(", ::std::boxed::Box<Request>)");
            r
        },
        Children::List => {
            let mut r = t.ast.ident.clone();
            r.append("(");
            r.append(t.ast.ident.as_str());
            r.append(", ::std::vec::Vec<Request>)");
            r
        },
    }
}

/// The arm of `Request::render_new` for a kind.
pub open spec fn spec_render_new_arm(t: AstTypeV) -> Seq<char> {
    match t.children {
        Children::Zero => "Request::"@ + t.ast.ident + "(props) => Render::"@ + t.ast.ident + "(props)"@,
        Children::One => "Request::"@ + t.ast.ident + "(props, child) => Render::"@ + t.ast.ident + "(props, Box::new(child.render_new()))"@,
        Children::List => "Request::"@ + t.ast.ident + "(props, children) => Render::"@ + t.ast.ident + "(props, children.into_iter().map(|v| v.render_new()).collect())"@,
    }
}

fn render_new_arm(t: &AstType) -> (r: String)
    ensures
        r@ == spec_render_new_arm(t@),
{
    match t.children {
        Children::Zero => {
            let mut r = String::from_str("Request::");
            r.append(t.ast.ident.as_str());
            r.append("(props) => Render::");
            r.append(t.ast.ident.as_str());
            r.append("(props)");
            r
        },
        Children::One => {
            let mut r = String::from_str("Request::");
            r.append(t.ast.ident.as_str());
            r.append("(props, child) => Render::");
            r.append(t.ast.ident.as_str());
            r.append("(props, Box::new(child.render_new()))");
            r
        },
        Children::List => {
            let mut r = String::from_str("Request::");
            r.append(t.ast.ident.as_str());
            r.append("(props, children) => Render::");
            r.append(t.ast.ident.as_str());
            r.append("(props, children.into_iter().map(|v| v.render_new()).collect())");
            r
        },
    }
}

/// The arm of `Request::render_update` for a kind.
pub open spec fn spec_render_update_arm(t: AstTypeV) -> Seq<char> {
    match t.children {
        Children::Zero => "Request::"@ + t.ast.ident + "(props) => { let diff = match old { Render::"@ + t.ast.ident + "(other_props) => { if props == other_props { NodeChange::Identical } else { NodeChange::Changed(NodeDiff::"@ + t.ast.ident + "(props.diff(other_props))) } }, other => { NodeChange::Swapped(Node::"@ + t.ast.ident + "(props.clone()), other.to_plain()) }, }; RenderResult { render: Render::"@ + t.ast.ident + "(props), diff, } }"@,
        Children::One => "Request::"@ + t.ast.ident + "(props, child) => { match old { Render::"@ + t.ast.ident + "(other_props, other_child) => { let RenderResult { render: child_render, diff: child_diff, } = child.render_update(*other_child, false); if props == other_props && child_diff.is_identical() { RenderResult { render: Render::"@ + t.ast.ident + "(props, Box::new(child_render)), diff: NodeChange::Identical, } } else { let diff = NodeChange::Changed(NodeDiff::"@ + t.ast.ident + "(props.diff(other_props), ::std::boxed::Box::new(child_diff))); RenderResult { render: Render::"@ + t.ast.ident + "(props, Box::new(child_render)), diff, } } } other => { let render = Render::"@ + t.ast.ident + "(props, Box::new(child.render_new())); let diff = other.to_plain().diff(render.to_plain()); RenderResult { render, diff } }, } }"@,
        Children::List => "Request::"@ + t.ast.ident + "(props, children) => { match old { Render::"@ + t.ast.ident + "(other_props, old_children) => { let (children_render, children_changes) = compare_render_children(children, old_children, compatible); if props == other_props && children_changes.is_empty() { RenderResult { render: Render::"@ + t.ast.ident + "(props, children_render), diff: NodeChange::Identical, } } else { let diff = NodeChange::Changed(NodeDiff::"@ + t.ast.ident + "(props.diff(other_props), children_changes)); RenderResult { render: Render::"@ + t.ast.ident + "(props, children_render), diff, } } }, other => { let render = Render::"@ + t.ast.ident + "(props, children.into_iter().map(|c| c.render_new()).collect()); let diff = other.to_plain().diff(render.to_plain()); RenderResult { render, diff } }, } }"@,
    }
}

fn render_update_arm(t: &AstType) -> (r: String)
    ensures
        r@ == spec_render_update_arm(t@),
{
    match t.children {
        Children::Zero => {
            let mut r = String::from_str("Request::");
            r.append(t.ast.ident.as_str());
            r.append("(props) => { let diff = match old { Render::");
            r.append(t.ast.ident.as_str());
            r.append("(other_props) => { if props == other_props { NodeChange::Identical } else { NodeChange::Changed(NodeDiff::");
            r.append(t.ast.ident.as_str());
            r.append("(props.diff(other_props))) } }, other => { NodeChange::Swapped(Node::");
            r.append(t.ast.ident.as_str());
            r.append("(props.clone()), other.to_plain()) }, }; RenderResult { render: Render::");
            r.append(t.ast.ident.as_str());
            r.append("(props), diff, } }");
            r
        },
        Children::One => {
            let mut r = String::from_str("Request::");
            r.append(t.ast.ident.as_str());
            r.append("(props, child) => { match old { Render::");
            r.append(t.ast.ident.as_str());
            r.append("(other_props, other_child) => { let RenderResult { render: child_render, diff: child_diff, } = child.render_update(*other_child, false); if props == other_props && child_diff.is_identical() { RenderResult { render: Render::");
            r.append(t.ast.ident.as_str());
            r.append("(props, Box::new(child_render)), diff: NodeChange::Identical, } } else { let diff = NodeChange::Changed(NodeDiff::");
            r.append(t.ast.ident.as_str());
            r.append("(props.diff(other_props), ::std::boxed::Box::new(child_diff))); RenderResult { render: Render::");
            r.append(t.ast.ident.as_str());
            r.append("(props, Box::new(child_render)), diff, } } } other => { let render = Render::");
            r.append(t.ast.ident.as_str());
            r.append("(props, Box::new(child.render_new())); let diff = other.to_plain().diff(render.to_plain()); RenderResult { render, diff } }, } }");
            r
        },
        Children::List => {
            let mut r = String::from_str("Request::");
            r.append(t.ast.ident.as_str());
            r.append("(props, children) => { match old { Render::");
            r.append(t.ast.ident.as_str());
            r.append("(other_props, old_children) => { let (children_render, children_changes) = compare_render_children(children, old_children, compatible); if props == other_props && children_changes.is_empty() { RenderResult { render: Render::");
            r.append(t.ast.ident.as_str());
            r.append("(props, children_render), diff: NodeChange::Identical, } } else { let diff = NodeChange::Changed(NodeDiff::");
            r.append(t.ast.ident.as_str());
            r.append("(props.diff(other_props), children_changes)); RenderResult { render: Render::");
            r.append(t.ast.ident.as_str());
            r.append("(props, children_render), diff, } } }, other => { let render = Render::");
            r.append(t.ast.ident.as_str());
            r.append("(props, children.into_iter().map(|c| c.render_new()).collect()); let diff = other.to_plain().diff(render.to_plain()); RenderResult { render, diff } }, } }");
            r
        },
    }
}

/// A field of the diff struct, set from the diff of the two values.
pub open spec fn spec_field_diff(f: FieldV) -> Seq<char> {
    f.name + ": ::iceblock::diff(&self."@ + f.name + ", &other."@ + f.name + ")"@
}

fn field_diff(f: &FieldModel) -> (r: String)
    ensures
        r@ == spec_field_diff(f@),
{
    let mut r = f.name.clone();
    r.append(": ::iceblock::diff(&self.");
    r.append(f.name.as_str());
    r.append(", &other.");
    r.append(f.name.as_str());
    r.append(")");
    r
}

/// A field as it is declared: a field of a tuple struct has no name.
pub open spec fn spec_field_decl(f: FieldV, form: StructForm) -> Seq<char> {
    match form {
        StructForm::Named => spec_join(f.attrs, " "@) + " "@ + f.vis + " "@ + f.name + ": "@ + f.ty,
        _ => spec_join(f.attrs, " "@) + " "@ + f.vis + " "@ + f.ty,
    }
}

fn field_decl(f: &FieldModel, form: StructForm) -> (r: String)
    ensures
        r@ == spec_field_decl(f@, form),
{
    let mut r = join(&f.attrs, " ");
    r.append(" ");
    r.append(f.vis.as_str());
    r.append(" ");
    match form {
        StructForm::Named => {
            r.append(f.name.as_str());
            r.append(": ");
        },
        _ => {},
    }
    r.append(f.ty.as_str());
    r
}

/// The `diff` method of a prop struct: each field of the diff struct from the
/// diff of that field.
pub open spec fn spec_diff_impl(t: AstTypeV) -> Seq<char> {
    "impl "@ + t.ast.ident + " { pub fn diff(&self, other: "@ + t.ast.ident + ") -> "@
        + t.differ.ident + " { "@ + t.differ.ident + " { "@ + spec_join(
        t.ast.fields.map_values(|f: FieldV| spec_field_diff(f)),
        ", "@,
    ) + " } } }"@
}

fn diff_impl(t: &AstType) -> (r: String)
    ensures
        r@ == spec_diff_impl(t@),
{
    let fields = &t.ast.fields;
    let mut parts: Vec<String> = Vec::new();
    for i in 0..fields.len()
        invariant
            parts.len() == i,
            forall|j: int| 0 <= j < i ==> (#[trigger] parts@[j])@ == spec_field_diff(fields@[j]@),
    {
        parts.push(field_diff(&fields[i]));
    }
    let joined = join(&parts, ", ");
    proof {
        assert(strings_view(parts@) =~= t@.ast.fields.map_values(|f: FieldV| spec_field_diff(f)));
    }
    let mut r = String::from_str("impl ");
    r.append(t.ast.ident.as_str());
    r.append(" { pub fn diff(&self, other: ");
    r.append(t.ast.ident.as_str());
    r.append(") -> ");
    r.append(t.differ.ident.as_str());
    r.append(" { ");
    r.append(t.differ.ident.as_str());
    r.append(" { ");
    r.append(joined.as_str());
    r.append(" } } }");
    r
}

/// The source text of a struct: `{ .. }` around named fields, `( .. );` around
/// the fields of a tuple struct, `;` for a unit struct.
pub open spec fn spec_struct_text(s: StructV) -> Seq<char> {
    let head = spec_join(s.attrs.map_values(|a: crate::igloo::AttrV| a.text), " "@) + " "@ + s.vis
        + " struct "@ + s.ident + s.generics;
    let fields = spec_join(s.fields.map_values(|f: FieldV| spec_field_decl(f, s.form)), ", "@);
    match s.form {
        StructForm::Named => head + " "@ + s.where_clause + " { "@ + fields + " }"@,
        StructForm::Tuple => head + "("@ + fields + ") "@ + s.where_clause + ";"@,
        StructForm::Unit => head + " "@ + s.where_clause + ";"@,
    }
}

pub fn struct_text(s: &StructModel) -> (r: String)
    ensures
        r@ == spec_struct_text(s@),
{
    let mut attrs: Vec<String> = Vec::new();
    for i in 0..s.attrs.len()
        invariant
            attrs.len() == i,
            forall|j: int| 0 <= j < i ==> (#[trigger] attrs@[j])@ == s.attrs@[j].text@,
    {
        attrs.push(s.attrs[i].text.clone());
    }
    let mut fields: Vec<String> = Vec::new();
    for i in 0..s.fields.len()
        invariant
            fields.len() == i,
            forall|j: int|
                0 <= j < i ==> (#[trigger] fields@[j])@ == spec_field_decl(s.fields@[j]@, s.form),
    {
        fields.push(field_decl(&s.fields[i], s.form));
    }
    proof {
        assert(strings_view(attrs@) =~= s@.attrs.map_values(|a: crate::igloo::AttrV| a.text));
        assert(strings_view(fields@) =~= s@.fields.map_values(
            |f: FieldV| spec_field_decl(f, s@.form),
        ));
    }
    let mut r = join(&attrs, " ");
    r.append(" ");
    r.append(s.vis.as_str());
    r.append(" struct ");
    r.append(s.ident.as_str());
    r.append(s.generics.as_str());
    let fields_text = join(&fields, ", ");
    match s.form {
        StructForm::Named => {
            r.append(" ");
            r.append(s.where_clause.as_str());
            r.append(" { ");
            r.append(fields_text.as_str());
            r.append(" }");
        },
        StructForm::Tuple => {
            r.append("(");
            r.append(fields_text.as_str());
            r.append(") ");
            r.append(s.where_clause.as_str());
            r.append(";");
        },
        StructForm::Unit => {
            r.append(" ");
            r.append(s.where_clause.as_str());
            r.append(";");
        },
    }
    r
}

/// The pieces of generated code that each prop type gives one of.
#[derive(Clone, Copy)]
pub enum Entry {
    NodeVariant,
    NodeDiffVariant,
    DiffArm,
    DiffImpl,
    RenderVariant,
    ToPlainArm,
    RequestVariant,
    RenderNewArm,
    RenderUpdateArm,
}

pub open spec fn spec_entry(t: AstTypeV, e: Entry) -> Seq<char> {
    match e {
        Entry::NodeVariant => spec_node_variant(t),
        Entry::NodeDiffVariant => spec_node_diff_variant(t),
        Entry::DiffArm => spec_diff_arm(t),
        Entry::DiffImpl => spec_diff_impl(t),
        Entry::RenderVariant => spec_render_variant(t),
        Entry::ToPlainArm => spec_to_plain_arm(t),
        Entry::RequestVariant => spec_request_variant(t),
        Entry::RenderNewArm => spec_render_new_arm(t),
        Entry::RenderUpdateArm => spec_render_update_arm(t),
    }
}

fn entry(t: &AstType, e: Entry) -> (r: String)
    ensures
        r@ == spec_entry(t@, e),
{
    match e {
        Entry::NodeVariant => node_variant(t),
        Entry::NodeDiffVariant => node_diff_variant(t),
        Entry::DiffArm => diff_arm(t),
        Entry::DiffImpl => diff_impl(t),
        Entry::RenderVariant => render_variant(t),
        Entry::ToPlainArm => to_plain_arm(t),
        Entry::RequestVariant => request_variant(t),
        Entry::RenderNewArm => render_new_arm(t),
        Entry::RenderUpdateArm => render_update_arm(t),
    }
}

/// The piece `e` of each prop type, in order.
pub open spec fn spec_entries(ts: Seq<AstTypeV>, e: Entry) -> Seq<Seq<char>> {
    ts.map_values(|t: AstTypeV| spec_entry(t, e))
}

fn entries(types: &Vec<AstType>, e: Entry) -> (r: Vec<String>)
    ensures
        strings_view(r@) == spec_entries(types_view(types@), e),
{
    let mut r: Vec<String> = Vec::new();
    for i in 0..types.len()
        invariant
            r.len() == i,
            forall|j: int| 0 <= j < i ==> (#[trigger] r@[j])@ == spec_entry(types@[j]@, e),
    {
        r.push(entry(&types[i], e));
    }
    proof {
        assert(strings_view(r@) =~= spec_entries(types_view(types@), e));
    }
    r
}

/// The pieces of kind `e` joined by commas.
fn joined_entries(types: &Vec<AstType>, e: Entry) -> (r: String)
    ensures
        r@ == spec_join(spec_entries(types_view(types@), e), ", "@),
{
    join(&entries(types, e), ", ")
}

/// The `NodeDiff` and `Node` enums.
pub open spec fn spec_gen_enum(ts: Seq<AstTypeV>) -> Seq<Seq<char>> {
    seq![
        "#[derive(Debug)] pub enum NodeDiff { "@ + spec_join(spec_entries(ts, Entry::NodeDiffVariant), ", "@) + " }"@,
        "#[derive(Clone, Debug)] pub enum Node { "@ + spec_join(spec_entries(ts, Entry::NodeVariant), ", "@) + " }"@,
    ]
}

pub fn gen_enum(types: &Vec<AstType>) -> (r: Vec<String>)
    ensures
        strings_view(r@) == spec_gen_enum(types_view(types@)),
{
    let mut node_diff = String::from_str("#[derive(Debug)] pub enum NodeDiff { ");
    node_diff.append(joined_entries(types, Entry::NodeDiffVariant).as_str());
    node_diff.append(" }");
    let mut node = String::from_str("#[derive(Clone, Debug)] pub enum Node { ");
    node.append(joined_entries(types, Entry::NodeVariant).as_str());
    node.append(" }");
    let mut r: Vec<String> = Vec::new();
    r.push(node_diff);
    r.push(node);
    proof {
        assert(strings_view(r@) =~= spec_gen_enum(types_view(types@)));
    }
    r
}

/// Whether the `diff` method of the struct can name its fields: a tuple struct
/// with fields is not supported.
pub open spec fn fields_named(s: StructV) -> bool {
    s.form != StructForm::Tuple || s.fields.len() == 0
}

/// `Diffable` for `Node`, then the `diff` method of each prop struct.
pub open spec fn spec_gen_code(ts: Seq<AstTypeV>) -> Seq<Seq<char>> {
    seq![
        "impl ::iceblock::Diffable for Node { type Diff = NodeDiff; fn diff(&self, other: Node) -> ::iceblock::NodeChange<Node, NodeDiff> { match self { "@
            + spec_join(spec_entries(ts, Entry::DiffArm), ", "@) + " } } }"@,
    ] + spec_entries(ts, Entry::DiffImpl)
}

pub fn gen_code(types: &Vec<AstType>) -> (r: Vec<String>)
    requires
        forall|i: int| 0 <= i < types.len() ==> fields_named(#[trigger] types@[i]@.ast),
    ensures
        strings_view(r@) == spec_gen_code(types_view(types@)),
{
    let mut support = String::from_str(
        "impl ::iceblock::Diffable for Node { type Diff = NodeDiff; fn diff(&self, other: Node) -> ::iceblock::NodeChange<Node, NodeDiff> { match self { ",
    );
    support.append(joined_entries(types, Entry::DiffArm).as_str());
    support.append(" } } }");
    let mut r: Vec<String> = Vec::new();
    r.push(support);
    let mut differs = entries(types, Entry::DiffImpl);
    let ghost first = r@;
    let ghost rest = differs@;
    r.append(&mut differs);
    proof {
        assert(r@ == first + rest);
        assert(strings_view(r@) =~= spec_gen_code(types_view(types@)));
    }
    r
}

/// The `Render` enum and its `ToPlain` impl.
pub open spec fn spec_gen_render(ts: Seq<AstTypeV>) -> Seq<Seq<char>> {
    seq![
        "#[derive(Debug)] pub enum Render { "@ + spec_join(spec_entries(ts, Entry::RenderVariant), ", "@)
            + ", Custom(Box<RenderedComponent<Render, Node, NodeDiff>>), }"@,
        "impl ToPlain<Node> for Render { fn to_plain(&self) -> Node { match &self { "@ + spec_join(
            spec_entries(ts, Entry::ToPlainArm),
            ", "@,
        ) + ", Render::Custom(component) => { component.rendered.to_plain() } } } }"@,
    ]
}

pub fn gen_render(types: &Vec<AstType>) -> (r: Vec<String>)
    requires
        types.len() > 0,
    ensures
        strings_view(r@) == spec_gen_render(types_view(types@)),
{
    let mut render = String::from_str("#[derive(Debug)] pub enum Render { ");
    render.append(joined_entries(types, Entry::RenderVariant).as_str());
    render.append(", Custom(Box<RenderedComponent<Render, Node, NodeDiff>>), }");
    let mut to_plain = String::from_str(
        "impl ToPlain<Node> for Render { fn to_plain(&self) -> Node { match &self { ",
    );
    to_plain.append(joined_entries(types, Entry::ToPlainArm).as_str());
    to_plain.append(", Render::Custom(component) => { component.rendered.to_plain() } } } }");
    let mut r: Vec<String> = Vec::new();
    r.push(render);
    r.push(to_plain);
    proof {
        assert(strings_view(r@) =~= spec_gen_render(types_view(types@)));
    }
    r
}

/// The `Request` enum.
pub open spec fn spec_gen_request_enum(ts: Seq<AstTypeV>) -> Seq<Seq<char>> {
    seq![
        "#[derive(Debug)] pub enum Request { "@ + spec_join(spec_entries(ts, Entry::RequestVariant), ", "@)
            + ", Custom(Box<RequestedComponent<Render, Node, NodeDiff>>) }"@,
    ]
}

pub fn gen_request_enum(types: &Vec<AstType>) -> (r: Vec<String>)
    requires
        types.len() > 0,
    ensures
        strings_view(r@) == spec_gen_request_enum(types_view(types@)),
{
    let mut request = String::from_str("#[derive(Debug)] pub enum Request { ");
    request.append(joined_entries(types, Entry::RequestVariant).as_str());
    request.append(", Custom(Box<RequestedComponent<Render, Node, NodeDiff>>) }");
    let mut r: Vec<String> = Vec::new();
    r.push(request);
    proof {
        assert(strings_view(r@) =~= spec_gen_request_enum(types_view(types@)));
    }
    r
}

/// The arm of `Request::render_update` for custom components.
pub const CUSTOM_UPDATE_ARM: &'static str = "Request::Custom(requested_component) => { if compatible { let render = requested_component.render_new_box(); let plain = render.rendered.to_plain(); let old_plain = old.to_plain(); let diff = plain.diff(old_plain); RenderResult { render: Render::Custom(Box::new(render)), diff, } } else { let prev = match old { Render::Custom(component) => PreviousRender::OfComponent(*component), render => PreviousRender::OfRender(render) }; let rendered = requested_component.render_update_box(prev); RenderResult { render: Render::Custom(Box::new(rendered.rendered_component)), diff: rendered.diff, } } }";

/// The `ToRender` impl of `Request`.
pub open spec fn spec_gen_request_impl(ts: Seq<AstTypeV>) -> Seq<Seq<char>> {
    seq![
        "impl ToRender<Render, Node, NodeDiff> for Request { fn render_new(self) -> Render { match self { "@
            + spec_join(spec_entries(ts, Entry::RenderNewArm), ", "@)
            + ", Request::Custom(component) => Render::Custom(Box::new(component.render_new_box())), } } fn render_update(self, old: Render, compatible: bool) -> RenderResult<Render, Node, NodeDiff> { match self { "@
            + spec_join(spec_entries(ts, Entry::RenderUpdateArm), ", "@) + ", "@ + CUSTOM_UPDATE_ARM@
            + " } } }"@,
    ]
}

pub fn gen_request_impl(types: &Vec<AstType>) -> (r: Vec<String>)
    requires
        types.len() > 0,
    ensures
        strings_view(r@) == spec_gen_request_impl(types_view(types@)),
{
    let mut imp = String::from_str(
        "impl ToRender<Render, Node, NodeDiff> for Request { fn render_new(self) -> Render { match self { ",
    );
    imp.append(joined_entries(types, Entry::RenderNewArm).as_str());
    imp.append(
        ", Request::Custom(component) => Render::Custom(Box::new(component.render_new_box())), } } fn render_update(self, old: Render, compatible: bool) -> RenderResult<Render, Node, NodeDiff> { match self { ",
    );
    imp.append(joined_entries(types, Entry::RenderUpdateArm).as_str());
    imp.append(", ");
    imp.append(CUSTOM_UPDATE_ARM);
    imp.append(" } } }");
    let mut r: Vec<String> = Vec::new();
    r.push(imp);
    proof {
        assert(strings_view(r@) =~= spec_gen_request_impl(types_view(types@)));
    }
    r
}

/// The builder of custom-component requests.
pub const REQUEST_BUILDER: &'static str = "impl Request { pub fn custom<Comp: Debug + 'static + Renderer<Props, State, Request>, Props: PartialEq + Debug + 'static, State: Debug + Default + 'static>(component: Comp, props: Props) -> Request { let requested_raw: RequestedComponentImpl<Comp, Props, State, Request, Render, Node, NodeDiff> = RequestedComponentImpl { renderer: component, props, state_type: ::std::marker::PhantomData, request_type: ::std::marker::PhantomData, render_type: ::std::marker::PhantomData, node_type: ::std::marker::PhantomData, diff_type: ::std::marker::PhantomData, }; let boxed: Box<RequestedComponent<Render, Node, NodeDiff>> = Box::new(requested_raw); Request::Custom(boxed) } }";

/// The import that the builder needs, and the builder.
pub open spec fn spec_gen_request_builder(ts: Seq<AstTypeV>) -> Seq<Seq<char>> {
    seq!["use std::fmt::Debug;"@, REQUEST_BUILDER@]
}

pub fn gen_request_builder(types: &Vec<AstType>) -> (r: Vec<String>)
    ensures
        strings_view(r@) == spec_gen_request_builder(types_view(types@)),
{
    let mut r: Vec<String> = Vec::new();
    r.push(String::from_str("use std::fmt::Debug;"));
    r.push(String::from_str(REQUEST_BUILDER));
    proof {
        assert(strings_view(r@) =~= spec_gen_request_builder(types_view(types@)));
    }
    r
}

/// An item of the module that the attribute stands on: a struct, or anything else.
pub enum ItemModel {
    Struct(StructModel),
    Other,
}

pub enum ItemV {
    Struct(StructV),
    Other,
}

impl View for ItemModel {
    type V = ItemV;

    open spec fn view(&self) -> ItemV {
        match self {
            ItemModel::Struct(s) => ItemV::Struct(s@),
            ItemModel::Other => ItemV::Other,
        }
    }
}

pub open spec fn items_view(s: Seq<ItemModel>) -> Seq<ItemV> {
    s.map_values(|i: ItemModel| i@)
}

/// The prop types of the structs among the items, in order; other items are left out.
pub open spec fn spec_ast_types(items: Seq<ItemV>) -> Seq<AstTypeV>
    decreases items.len(),
{
    if items.len() == 0 {
        Seq::empty()
    } else {
        let rest = spec_ast_types(items.drop_last());
        match items.last() {
            ItemV::Struct(s) => rest.push(spec_process_struct(s)),
            ItemV::Other => rest,
        }
    }
}

/// Whether one of the items is a struct.
pub open spec fn holds_struct(items: Seq<ItemV>) -> bool {
    exists|i: int| 0 <= i < items.len() && #[trigger] items[i] is Struct
}

/// Whether every struct among the items can have its `diff` method written.
pub open spec fn structs_named(items: Seq<ItemV>) -> bool {
    forall|i: int|
        0 <= i < items.len() ==> (#[trigger] items[i] matches ItemV::Struct(st) ==> fields_named(st))
}

/// The structs among the items give one prop type each, with the same fields.
pub proof fn lemma_ast_types(items: Seq<ItemV>)
    ensures
        holds_struct(items) ==> spec_ast_types(items).len() > 0,
        structs_named(items) ==> forall|j: int|
            0 <= j < spec_ast_types(items).len() ==> fields_named(
                #[trigger] spec_ast_types(items)[j].ast,
            ),
    decreases items.len(),
{
    if items.len() > 0 {
        let rest = items.drop_last();
        lemma_ast_types(rest);
        if holds_struct(items) && !(items.last() is Struct) {
            let i = choose|i: int| 0 <= i < items.len() && #[trigger] items[i] is Struct;
            assert(rest[i] is Struct);
        }
        if structs_named(items) {
            assert forall|i: int| 0 <= i < rest.len() implies (#[trigger] rest[i] matches ItemV::Struct(
                st,
            ) ==> fields_named(st)) by {
                assert(rest[i] == items[i]);
            }
            let k = items.len() - 1;
            assert(items[k] matches ItemV::Struct(st) ==> fields_named(st));
        }
    }
}

/// Each prop struct followed by its diff struct, in order.
pub open spec fn spec_struct_texts(ts: Seq<AstTypeV>) -> Seq<Seq<char>>
    decreases ts.len(),
{
    if ts.len() == 0 {
        Seq::empty()
    } else {
        spec_struct_texts(ts.drop_last()) + seq![
            spec_struct_text(ts.last().ast),
            spec_struct_text(ts.last().differ),
        ]
    }
}

/// The new content of the module: the structs, the import of the library, then
/// the enums and impls.
pub open spec fn spec_filter_content(items: Seq<ItemV>) -> Seq<Seq<char>> {
    let ts = spec_ast_types(items);
    spec_struct_texts(ts) + seq!["use ::iceblock::*;"@] + spec_gen_enum(ts) + spec_gen_code(ts)
        + spec_gen_render(ts) + spec_gen_request_enum(ts) + spec_gen_request_impl(ts)
        + spec_gen_request_builder(ts)
}

fn append_all(r: &mut Vec<String>, more: Vec<String>)
    ensures
        strings_view(final(r)@) == strings_view(old(r)@) + strings_view(more@),
{
    let mut more = more;
    let ghost a = r@;
    let ghost b = more@;
    r.append(&mut more);
    proof {
        assert(strings_view(r@) =~= strings_view(a) + strings_view(b));
    }
}

pub fn filter_content(items: Vec<ItemModel>) -> (r: Vec<String>)
    requires
        holds_struct(items_view(items@)),
        structs_named(items_view(items@)),
    ensures
        strings_view(r@) == spec_filter_content(items_view(items@)),
{
    let ghost iv = items_view(items@);
    let mut types: Vec<AstType> = Vec::new();
    for i in 0..items.len()
        invariant
            iv == items_view(items@),
            types_view(types@) == spec_ast_types(iv.take(i as int)),
    {
        proof {
            assert(iv.take(i + 1).drop_last() =~= iv.take(i as int));
        }
        match &items[i] {
            ItemModel::Struct(s) => {
                let ghost before = types@;
                types.push(process_struct(copy_struct(s)));
                proof {
                    assert(types_view(types@) =~= types_view(before).push(types@.last()@));
                }
            },
            ItemModel::Other => {},
        }
    }
    proof {
        assert(iv.take(items.len() as int) =~= iv);
        lemma_ast_types(iv);
    }
    let ghost tv = types_view(types@);
    let mut r: Vec<String> = Vec::new();
    for i in 0..types.len()
        invariant
            tv == types_view(types@),
            strings_view(r@) == spec_struct_texts(tv.take(i as int)),
    {
        let ghost before = r@;
        proof {
            assert(tv.take(i + 1).drop_last() =~= tv.take(i as int));
        }
        r.push(struct_text(&types[i].ast));
        r.push(struct_text(&types[i].differ));
        proof {
            assert(strings_view(r@) =~= strings_view(before) + seq![
                spec_struct_text(tv[i as int].ast),
                spec_struct_text(tv[i as int].differ),
            ]);
        }
    }
    proof {
        assert(tv.take(types.len() as int) =~= tv);
    }
    let ghost before = r@;
    r.push(String::from_str("use ::iceblock::*;"));
    proof {
        assert(strings_view(r@) =~= strings_view(before) + seq!["use ::iceblock::*;"@]);
    }
    proof {
        assert forall|i: int| 0 <= i < types.len() implies fields_named(
            #[trigger] types@[i]@.ast,
        ) by {
            assert(tv[i] == types@[i]@);
        }
    }
    append_all(&mut r, gen_enum(&types));
    append_all(&mut r, gen_code(&types));
    append_all(&mut r, gen_render(&types));
    append_all(&mut r, gen_request_enum(&types));
    append_all(&mut r, gen_request_impl(&types));
    append_all(&mut r, gen_request_builder(&types));
    r
}

/// The text `a`, then `part`, then `b`.
pub open spec fn cat3(a: Seq<char>, part: Seq<char>, b: Seq<char>) -> Seq<char> {
    a + part + b
}

/// Whether `part` occurs in the text `s`.
pub open spec fn has_infix(s: Seq<char>, part: Seq<char>) -> bool {
    exists|a: Seq<char>, b: Seq<char>| #[trigger] cat3(a, part, b) == s
}

/// Each of the joined texts occurs in the joined text.
pub proof fn lemma_join_infix(items: Seq<Seq<char>>, sep: Seq<char>, i: int)
    requires
        0 <= i < items.len(),
    ensures
        has_infix(spec_join(items, sep), items[i]),
    decreases items.len(),
{
    let s = spec_join(items, sep);
    if items.len() == 1 {
        assert(cat3(Seq::empty(), items[i], Seq::empty()) =~= s);
    } else if i == items.len() - 1 {
        assert(cat3(spec_join(items.drop_last(), sep) + sep, items[i], Seq::empty()) =~= s);
    } else {
        lemma_join_infix(items.drop_last(), sep, i);
        assert(items.drop_last()[i] == items[i]);
        let j = spec_join(items.drop_last(), sep);
        let (a, b) = choose|a: Seq<char>, b: Seq<char>| #[trigger] cat3(a, items[i], b) == j;
        assert(cat3(a, items[i], b + sep + items.last()) =~= s);
    }
}

/// The test that decides `Identical` in the generated `Node::diff` arm of a kind,
/// up to the name of the diff variant: the props are compared with `==`, equal
/// props (and, for a list, no child change) give `Identical`, others `Changed`.
pub open spec fn identical_guard(c: Children) -> Seq<char> {
    match c {
        Children::Zero => "(old_props) => { if *props == old_props { ::iceblock::NodeChange::Identical } else { ::iceblock::NodeChange::Changed(NodeDiff::"@,
        Children::One => "(old_props, old_child) => { if *props == old_props { ::iceblock::NodeChange::Identical } else { ::iceblock::NodeChange::Changed(NodeDiff::"@,
        Children::List => "(old_props, old_children) => { let compared = compare_children(old_children, children); if compared.len() == 0 && *props == old_props { NodeChange::Identical } else { NodeChange::Changed(NodeDiff::"@,
    }
}

/// The generated `Diffable` impl holds, for each prop type, the arm that reports
/// `Identical` exactly when the props of the two nodes are equal (and, for a kind
/// with a list of children, no child changed), and `Changed` with that type's
/// diff otherwise.
pub proof fn lemma_gen_code_identical_guards(ts: Seq<AstTypeV>, i: int)
    requires
        0 <= i < ts.len(),
    ensures
        has_infix(
            spec_gen_code(ts)[0],
            ts[i].ast.ident + identical_guard(ts[i].children) + ts[i].ast.ident,
        ),
{
    let t = ts[i];
    let id = t.ast.ident;
    let part = id + identical_guard(t.children) + id;
    let entries = spec_entries(ts, Entry::DiffArm);
    assert(entries[i] == spec_diff_arm(t));
    lemma_join_infix(entries, ", "@, i);
    let j = spec_join(entries, ", "@);
    let (a, b) = choose|a: Seq<char>, b: Seq<char>| #[trigger] cat3(a, entries[i], b) == j;
    let head = "impl ::iceblock::Diffable for Node { type Diff = NodeDiff; fn diff(&self, other: Node) -> ::iceblock::NodeChange<Node, NodeDiff> { match self { "@;
    let tail = " } } }"@;
    assert(spec_gen_code(ts)[0] == head + j + tail);
    let (x, y) = match t.children {
        Children::Zero => (
            "Node::"@ + id + "(props) => { match other { Node::"@,
            "(props.diff(old_props))) } } _ => ::iceblock::NodeChange::Swapped(Node::"@ + id + "(props.clone()), other) } }"@,
        ),
        Children::One => (
            "Node::"@ + id + "(props, child) => { match other { Node::"@,
            "(props.diff(old_props), ::std::boxed::Box::new(child.diff(*old_child)))) } }, _ => ::iceblock::NodeChange::Swapped(Node::"@ + id + "(props.clone(), child.clone()), other) } }"@,
        ),
        Children::List => (
            "Node::"@ + id + "(props, children) => { match other { Node::"@,
            "(props.diff(old_props), compared)) } }, _ => ::iceblock::NodeChange::Swapped(Node::"@ + id + "(props.clone(), children.clone()), other) } }"@,
        ),
    };
    assert(spec_diff_arm(t) =~= x + part + y);
    assert(cat3(head + a + x, part, y + b + tail) =~= spec_gen_code(ts)[0]);
}

/// The test that decides `Identical` in the generated `render_update` arm of a
/// kind, up to the name that follows: the props are compared with `==`, and equal
/// props (and, for a kind with children, no child change) give `Identical`.
pub open spec fn update_identical_guard(c: Children) -> Seq<char> {
    match c {
        Children::Zero => "(other_props) => { if props == other_props { NodeChange::Identical } else { NodeChange::Changed(NodeDiff::"@,
        Children::One => "(other_props, other_child) => { let RenderResult { render: child_render, diff: child_diff, } = child.render_update(*other_child, false); if props == other_props && child_diff.is_identical() { RenderResult { render: Render::"@,
        Children::List => "(other_props, old_children) => { let (children_render, children_changes) = compare_render_children(children, old_children, compatible); if props == other_props && children_changes.is_empty() { RenderResult { render: Render::"@,
    }
}

/// Whether `part` occurs in a text that occurs in `s`.
pub proof fn lemma_infix_trans(s: Seq<char>, mid: Seq<char>, part: Seq<char>)
    requires
        has_infix(s, mid),
        has_infix(mid, part),
    ensures
        has_infix(s, part),
{
    let (a, b) = choose|a: Seq<char>, b: Seq<char>| #[trigger] cat3(a, mid, b) == s;
    let (c, d) = choose|c: Seq<char>, d: Seq<char>| #[trigger] cat3(c, part, d) == mid;
    assert(cat3(a + c, part, d + b) =~= s);
}

/// A text occurs in itself with more around it.
pub proof fn lemma_infix_around(head: Seq<char>, s: Seq<char>, tail: Seq<char>, part: Seq<char>)
    requires
        has_infix(s, part),
    ensures
        has_infix(head + s + tail, part),
{
    assert(cat3(head, s, tail) == head + s + tail);
    lemma_infix_trans(head + s + tail, s, part);
}

proof fn lemma_update_arm_guard(t: AstTypeV)
    ensures
        has_infix(
            spec_render_update_arm(t),
            t.ast.ident + update_identical_guard(t.children) + t.ast.ident,
        ),
{
    let id = t.ast.ident;
    let part = id + update_identical_guard(t.children) + id;
    let (x, y) = match t.children {
        Children::Zero => (
            "Request::"@ + id + "(props) => { let diff = match old { Render::"@,
            "(props.diff(other_props))) } }, other => { NodeChange::Swapped(Node::"@ + id + "(props.clone()), other.to_plain()) }, }; RenderResult { render: Render::"@ + id + "(props), diff, } }"@,
        ),
        Children::One => (
            "Request::"@ + id + "(props, child) => { match old { Render::"@,
            "(props, Box::new(child_render)), diff: NodeChange::Identical, } } else { let diff = NodeChange::Changed(NodeDiff::"@ + id + "(props.diff(other_props), ::std::boxed::Box::new(child_diff))); RenderResult { render: Render::"@ + id + "(props, Box::new(child_render)), diff, } } } other => { let render = Render::"@ + id + "(props, Box::new(child.render_new())); let diff = other.to_plain().diff(render.to_plain()); RenderResult { render, diff } }, } }"@,
        ),
        Children::List => (
            "Request::"@ + id + "(props, children) => { match old { Render::"@,
            "(props, children_render), diff: NodeChange::Identical, } } else { let diff = NodeChange::Changed(NodeDiff::"@ + id + "(props.diff(other_props), children_changes)); RenderResult { render: Render::"@ + id + "(props, children_render), diff, } } }, other => { let render = Render::"@ + id + "(props, children.into_iter().map(|c| c.render_new()).collect()); let diff = other.to_plain().diff(render.to_plain()); RenderResult { render, diff } }, } }"@,
        ),
    };
    assert(cat3(x, part, y) =~= spec_render_update_arm(t));
}

/// The generated `ToRender` impl holds, for each prop type, the `render_update` arm
/// that reports `Identical` exactly when the props are equal (and, for a kind with
/// children, no child changed).
pub proof fn lemma_gen_request_impl_identical_guards(ts: Seq<AstTypeV>, i: int)
    requires
        0 <= i < ts.len(),
    ensures
        has_infix(
            spec_gen_request_impl(ts)[0],
            ts[i].ast.ident + update_identical_guard(ts[i].children) + ts[i].ast.ident,
        ),
{
    let t = ts[i];
    let entries = spec_entries(ts, Entry::RenderUpdateArm);
    assert(entries[i] == spec_render_update_arm(t));
    lemma_join_infix(entries, ", "@, i);
    lemma_update_arm_guard(t);
    let j = spec_join(entries, ", "@);
    lemma_infix_trans(j, entries[i], t.ast.ident + update_identical_guard(t.children) + t.ast.ident);
    let head = "impl ToRender<Render, Node, NodeDiff> for Request { fn render_new(self) -> Render { match self { "@
        + spec_join(spec_entries(ts, Entry::RenderNewArm), ", "@)
        + ", Request::Custom(component) => Render::Custom(Box::new(component.render_new_box())), } } fn render_update(self, old: Render, compatible: bool) -> RenderResult<Render, Node, NodeDiff> { match self { "@;
    let tail = ", "@ + CUSTOM_UPDATE_ARM@ + " } } }"@;
    assert(spec_gen_request_impl(ts)[0] =~= head + j + tail);
    lemma_infix_around(head, j, tail, t.ast.ident + update_identical_guard(t.children) + t.ast.ident);
}

} // verus!
