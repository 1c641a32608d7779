//! The code generator behind the `igloo_ast` attribute: from a module of prop
//! structs it derives each struct's diff struct and how many children its nodes
//! hold, and writes the node, diff, render and request code for them.
use vstd::prelude::*;

verus! {

/// How many children a node of a given kind holds.
#[derive(Debug, Clone, Copy, PartialEq, Eq, Structural)]
pub enum Children {
    Zero,
    One,
    List,
}

/// An attribute of a struct: whether it is an outer attribute, the name of its
/// meta item where it has one, and its text.
#[derive(Debug)]
pub struct AttrModel {
    pub outer: bool,
    pub name: Option<String>,
    pub text: String,
}

/// A field: its attributes, visibility, name and type, as text. The name of a
/// field of a tuple struct is empty.
#[derive(Debug)]
pub struct FieldModel {
    pub attrs: Vec<String>,
    pub vis: String,
    pub name: String,
    pub ty: String,
}

/// How a struct holds its fields: `{ .. }`, `( .. );` or not at all.
#[derive(Debug, Clone, Copy, PartialEq, Eq, Structural)]
pub enum StructForm {
    Named,
    Tuple,
    Unit,
}

/// A struct, as text: attributes, visibility, name, generic parameters, `where`
/// clause, the form of its fields, and the fields.
#[derive(Debug)]
pub struct StructModel {
    pub attrs: Vec<AttrModel>,
    pub vis: String,
    pub ident: String,
    pub generics: String,
    pub where_clause: String,
    pub form: StructForm,
    pub fields: Vec<FieldModel>,
}

/// A prop struct, its diff struct, and the children of its nodes.
#[derive(Debug)]
pub struct AstType {
    pub ast: StructModel,
    pub differ: StructModel,
    pub children: Children,
    pub name: String,
}

pub struct AttrV {
    pub outer: bool,
    pub name: Option<Seq<char>>,
    pub text: Seq<char>,
}

pub struct FieldV {
    pub attrs: Seq<Seq<char>>,
    pub vis: Seq<char>,
    pub name: Seq<char>,
    pub ty: Seq<char>,
}

pub struct StructV {
    pub attrs: Seq<AttrV>,
    pub vis: Seq<char>,
    pub ident: Seq<char>,
    pub generics: Seq<char>,
    pub where_clause: Seq<char>,
    pub form: StructForm,
    pub fields: Seq<FieldV>,
}

pub struct AstTypeV {
    pub ast: StructV,
    pub differ: StructV,
    pub children: Children,
    pub name: Seq<char>,
}

/// The texts of a list of strings.
pub open spec fn strings_view(s: Seq<String>) -> Seq<Seq<char>> {
    s.map_values(|x: String| x@)
}

pub open spec fn opt_view(o: Option<String>) -> Option<Seq<char>> {
    match o {
        Some(s) => Some(s@),
        None => None,
    }
}

impl View for AttrModel {
    type V = AttrV;

    open spec fn view(&self) -> AttrV {
        AttrV { outer: self.outer, name: opt_view(self.name), text: self.text@ }
    }
}

impl View for FieldModel {
    type V = FieldV;

    open spec fn view(&self) -> FieldV {
        FieldV { attrs: strings_view(self.attrs@), vis: self.vis@, name: self.name@, ty: self.ty@ }
    }
}

pub open spec fn attrs_view(s: Seq<AttrModel>) -> Seq<AttrV> {
    s.map_values(|a: AttrModel| a@)
}

pub open spec fn fields_view(s: Seq<FieldModel>) -> Seq<FieldV> {
    s.map_values(|f: FieldModel| f@)
}

impl View for StructModel {
    type V = StructV;

    open spec fn view(&self) -> StructV {
        StructV {
            attrs: attrs_view(self.attrs@),
            vis: self.vis@,
            ident: self.ident@,
            generics: self.generics@,
            where_clause: self.where_clause@,
            form: self.form,
            fields: fields_view(self.fields@),
        }
    }
}

impl View for AstType {
    type V = AstTypeV;

    open spec fn view(&self) -> AstTypeV {
        AstTypeV { ast: self.ast@, differ: self.differ@, children: self.children, name: self.name@ }
    }
}

fn copy_children(c: &Children) -> (r: Children)
    ensures
        r == *c,
{
    match c {
        Children::Zero => Children::Zero,
        Children::One => Children::One,
        Children::List => Children::List,
    }
}

fn copy_opt_string(o: &Option<String>) -> (r: Option<String>)
    ensures
        opt_view(r) == opt_view(*o),
{
    match o {
        Some(s) => Some(s.clone()),
        None => None,
    }
}

fn copy_attrs(attrs: &Vec<AttrModel>) -> (r: Vec<AttrModel>)
    ensures
        attrs_view(r@) == attrs_view(attrs@),
{
    let mut out: Vec<AttrModel> = Vec::new();
    for i in 0..attrs.len()
        invariant
            out.len() == i,
            forall|j: int| 0 <= j < i ==> (#[trigger] out@[j])@ == attrs@[j]@,
    {
        let a = &attrs[i];
        out.push(AttrModel { outer: a.outer, name: copy_opt_string(&a.name), text: a.text.clone() });
    }
    assert(attrs_view(out@) =~= attrs_view(attrs@));
    out
}

fn copy_strings(items: &Vec<String>) -> (r: Vec<String>)
    ensures
        strings_view(r@) == strings_view(items@),
{
    let mut out: Vec<String> = Vec::new();
    for i in 0..items.len()
        invariant
            out.len() == i,
            forall|j: int| 0 <= j < i ==> (#[trigger] out@[j])@ == items@[j]@,
    {
        out.push(items[i].clone());
    }
    assert(strings_view(out@) =~= strings_view(items@));
    out
}

fn copy_fields(fields: &Vec<FieldModel>) -> (r: Vec<FieldModel>)
    ensures
        fields_view(r@) == fields_view(fields@),
{
    let mut out: Vec<FieldModel> = Vec::new();
    for i in 0..fields.len()
        invariant
            out.len() == i,
            forall|j: int| 0 <= j < i ==> (#[trigger] out@[j])@ == fields@[j]@,
    {
        let f = &fields[i];
        out.push(
            FieldModel {
                attrs: copy_strings(&f.attrs),
                vis: f.vis.clone(),
                name: f.name.clone(),
                ty: f.ty.clone(),
            },
        );
    }
    assert(fields_view(out@) =~= fields_view(fields@));
    out
}

/// A copy of the struct.
pub fn copy_struct(s: &StructModel) -> (r: StructModel)
    ensures
        r@ == s@,
{
    StructModel {
        attrs: copy_attrs(&s.attrs),
        vis: s.vis.clone(),
        ident: s.ident.clone(),
        generics: s.generics.clone(),
        where_clause: s.where_clause.clone(),
        form: s.form,
        fields: copy_fields(&s.fields),
    }
}

/// Whether the attribute is an outer one whose meta item is named `name`.
pub open spec fn spec_has(attr: AttrV, name: Seq<char>) -> bool {
    attr.outer && attr.name == Some(name)
}

/// Whether the attribute is an outer one whose meta item is named `name`.
pub fn has_attribute(attr: &AttrModel, name: &str) -> (r: bool)
    ensures
        r == spec_has(attr@, name@),
{
    if attr.outer {
        match &attr.name {
            Some(n) => {
                let wanted = String::from_str(name);
                *n == wanted
            },
            None => false,
        }
    } else {
        false
    }
}

/// The attributes that are not named `name`, in their order.
pub open spec fn spec_keep(s: Seq<AttrV>, name: Seq<char>) -> Seq<AttrV>
    decreases s.len(),
{
    if s.len() == 0 {
        Seq::empty()
    } else if spec_has(s.last(), name) {
        spec_keep(s.drop_last(), name)
    } else {
        spec_keep(s.drop_last(), name).push(s.last())
    }
}

/// Fewer attributes are kept exactly when one of them is named `name`.
pub proof fn lemma_keep_len(s: Seq<AttrV>, name: Seq<char>)
    ensures
        spec_keep(s, name).len() <= s.len(),
        (spec_keep(s, name).len() != s.len()) == (exists|i: int|
            0 <= i < s.len() && spec_has(#[trigger] s[i], name)),
    decreases s.len(),
{
    if s.len() > 0 {
        lemma_keep_len(s.drop_last(), name);
        if exists|i: int| 0 <= i < s.len() - 1 && spec_has(#[trigger] s.drop_last()[i], name) {
            let i = choose|i: int| 0 <= i < s.len() - 1 && spec_has(#[trigger] s.drop_last()[i], name);
            assert(spec_has(s[i], name));
        }
        if exists|i: int| 0 <= i < s.len() && spec_has(#[trigger] s[i], name) {
            let i = choose|i: int| 0 <= i < s.len() && spec_has(#[trigger] s[i], name);
            if i < s.len() - 1 {
                assert(spec_has(s.drop_last()[i], name));
            }
        }
    }
}

/// Removes the attributes named `name`; the flag says whether there was one.
pub fn remove(attrs: Vec<AttrModel>, name: &str) -> (r: (Vec<AttrModel>, bool))
    ensures
        attrs_view(r.0@) == spec_keep(attrs_view(attrs@), name@),
        r.1 == (r.0.len() != attrs.len()),
        r.1 == (exists|i: int| 0 <= i < attrs.len() && spec_has(#[trigger] attrs@[i]@, name@)),
{
    let ghost orig = attrs@;
    let count = attrs.len();
    let mut rest = attrs;
    let mut items: Vec<AttrModel> = Vec::new();
    let mut i: usize = 0;
    while i < count
        invariant
            count == orig.len(),
            i <= count,
            rest@ == orig.skip(i as int),
            attrs_view(items@) == spec_keep(attrs_view(orig.take(i as int)), name@),
        decreases count - i,
    {
        let a = rest.remove(0);
        let keep = !has_attribute(&a, name);
        proof {
            assert(a == orig[i as int]);
            assert(attrs_view(orig.take(i + 1)).drop_last() =~= attrs_view(orig.take(i as int)));
            assert(attrs_view(orig.take(i + 1)).last() == a@);
        }
        if keep {
            items.push(a);
            proof {
                assert(attrs_view(items@) =~= attrs_view(items@.drop_last()).push(items@.last()@));
                assert(items@.drop_last() =~= items@.drop_last());
            }
        }
        i = i + 1;
        proof {
            assert(rest@ =~= orig.skip(i as int));
        }
    }
    proof {
        assert(orig.take(count as int) =~= orig);
        lemma_keep_len(attrs_view(orig), name@);
        assert forall|j: int| 0 <= j < orig.len() implies spec_has(attrs_view(orig)[j], name@)
            == spec_has(#[trigger] orig[j]@, name@) by {}
        if exists|j: int| 0 <= j < orig.len() && spec_has(#[trigger] orig[j]@, name@) {
            let j = choose|j: int| 0 <= j < orig.len() && spec_has(#[trigger] orig[j]@, name@);
            assert(spec_has(attrs_view(orig)[j], name@));
        }
    }
    let different = count != items.len();
    (items, different)
}

/// The option type around `ty`.
pub open spec fn spec_wrap_in_option(ty: Seq<char>) -> Seq<char> {
    "::std::option::Option<"@ + ty + ">"@
}

/// Writes `ty` wrapped in `::std::option::Option<..>`.
pub fn wrap_in_option(ty: &String) -> (r: String)
    ensures
        r@ == spec_wrap_in_option(ty@),
{
    let mut r = String::from_str("::std::option::Option<");
    r.append(ty.as_str());
    r.append(">");
    r
}

/// The prop struct with the marker attributes removed, its diff struct (named with
/// `Diff` added, every field wrapped in an option), and the children of its
/// nodes: a list with `has_children`, one with `has_child`, none otherwise.
pub open spec fn spec_process_struct(s: StructV) -> AstTypeV {
    let a1 = spec_keep(s.attrs, "has_children"@);
    let has_children = a1.len() != s.attrs.len();
    let a2 = spec_keep(a1, "has_child"@);
    let has_child = a2.len() != a1.len();
    AstTypeV {
        ast: StructV { attrs: a2, ..s },
        differ: StructV {
            attrs: a2,
            vis: s.vis,
            ident: s.ident + "Diff"@,
            generics: s.generics,
            where_clause: s.where_clause,
            form: s.form,
            fields: s.fields.map_values(
                |f: FieldV| FieldV { ty: spec_wrap_in_option(f.ty), ..f },
            ),
        },
        children: if has_children {
            Children::List
        } else if has_child {
            Children::One
        } else {
            Children::Zero
        },
        name: s.ident,
    }
}

pub fn process_struct(item: StructModel) -> (r: AstType)
    ensures
        r@ == spec_process_struct(item@),
{
    let ghost iv = item@;
    let attrs = item.attrs;
    let (attrs, has_children) = remove(attrs, "has_children");
    let (attrs, has_child) = remove(attrs, "has_child");
    let vis = item.vis;
    let ident = item.ident;
    let generics = item.generics;
    let where_clause = item.where_clause;
    let form = item.form;
    let fields = item.fields;

    let mut new_fields: Vec<FieldModel> = Vec::new();
    for i in 0..fields.len()
        invariant
            new_fields.len() == i,
            forall|j: int|
                0 <= j < i ==> (#[trigger] new_fields@[j])@ == (FieldV {
                    ty: spec_wrap_in_option(fields@[j]@.ty),
                    ..fields@[j]@
                }),
    {
        let f = &fields[i];
        new_fields.push(
            FieldModel {
                attrs: copy_strings(&f.attrs),
                vis: f.vis.clone(),
                name: f.name.clone(),
                ty: wrap_in_option(&f.ty),
            },
        );
    }

    let mut diff_ident = ident.clone();
    diff_ident.append("Diff");
    let tree_struct = StructModel {
        attrs: copy_attrs(&attrs),
        vis: vis.clone(),
        ident: ident.clone(),
        generics: generics.clone(),
        where_clause: where_clause.clone(),
        form,
        fields,
    };
    let diff_struct = StructModel {
        attrs,
        vis,
        ident: diff_ident,
        generics,
        where_clause,
        form,
        fields: new_fields,
    };
    let offspring = if has_children {
        Children::List
    } else if has_child {
        Children::One
    } else {
        Children::Zero
    };
    proof {
        assert(fields_view(diff_struct.fields@) =~= iv.fields.map_values(
            |f: FieldV| FieldV { ty: spec_wrap_in_option(f.ty), ..f },
        ));
    }
    AstType { ast: tree_struct, differ: diff_struct, children: offspring, name: ident }
}

} // verus!
