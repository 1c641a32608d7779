//! The element kinds of the tree, their props and the diff of two props.
use vstd::prelude::*;

verus! {

/// What an optional string holds, as characters.
pub open spec fn opt_str(o: Option<String>) -> Option<Seq<char>> {
    match o {
        Some(s) => Some(s@),
        None => None,
    }
}

/// Compares two optional strings by their characters.
pub fn opt_string_eq(a: &Option<String>, b: &Option<String>) -> (r: bool)
    ensures
        r == (opt_str(*a) == opt_str(*b)),
{
    match (a, b) {
        (Some(x), Some(y)) => *x == *y,
        (None, None) => true,
        _ => false,
    }
}

/// A copy of an optional string.
pub fn clone_opt_string(a: &Option<String>) -> (r: Option<String>)
    ensures
        r == *a,
{
    match a {
        Some(x) => Some(x.clone()),
        None => None,
    }
}

/// `None` when the two strings hold the same characters, else a copy of `new`.
pub fn diff_string(new: &String, old: &String) -> (r: Option<String>)
    ensures
        r == (if new@ == old@ { None } else { Some(*new) }),
{
    if *old == *new {
        None
    } else {
        Some(new.clone())
    }
}

/// `None` when the two optional strings are equal, else a copy of `new`.
pub fn diff_opt_string(new: &Option<String>, old: &Option<String>) -> (r: Option<Option<String>>)
    ensures
        r == (if opt_str(*new) == opt_str(*old) { None } else { Some(*new) }),
{
    if opt_string_eq(old, new) {
        None
    } else {
        Some(clone_opt_string(new))
    }
}

#[derive(Debug)]
pub struct Div {
    pub name: Option<String>,
}

#[derive(Debug, PartialEq)]
pub struct DivDiff {
    pub name: Option<Option<String>>,
}

#[derive(Debug)]
pub struct Cont {}

#[derive(Debug, PartialEq)]
pub struct ContDiff {}

#[derive(Debug)]
pub struct P {
    pub text: String,
}

#[derive(Debug, PartialEq)]
pub struct PDiff {
    pub text: Option<String>,
}

#[derive(Debug)]
pub struct Button {
    pub text: String,
}

#[derive(Debug, PartialEq)]
pub struct ButtonDiff {
    pub text: Option<String>,
}

#[derive(Debug)]
pub struct Input {
    pub prompt: String,
    pub value: Option<String>,
}

#[derive(Debug, PartialEq)]
pub struct InputDiff {
    pub prompt: Option<String>,
    pub value: Option<Option<String>>,
}

impl PartialEq for Div {
    fn eq(&self, other: &Self) -> (r: bool) {
        opt_string_eq(&self.name, &other.name)
    }
}

impl vstd::std_specs::cmp::PartialEqSpecImpl for Div {
    open spec fn obeys_eq_spec() -> bool {
        true
    }

    open spec fn eq_spec(&self, other: &Self) -> bool {
        self@ == other@
    }
}

impl PartialEq for Cont {
    fn eq(&self, other: &Self) -> (r: bool) {
        true
    }
}

impl vstd::std_specs::cmp::PartialEqSpecImpl for Cont {
    open spec fn obeys_eq_spec() -> bool {
        true
    }

    open spec fn eq_spec(&self, other: &Self) -> bool {
        true
    }
}

impl PartialEq for P {
    fn eq(&self, other: &Self) -> (r: bool) {
        self.text == other.text
    }
}

impl vstd::std_specs::cmp::PartialEqSpecImpl for P {
    open spec fn obeys_eq_spec() -> bool {
        true
    }

    open spec fn eq_spec(&self, other: &Self) -> bool {
        self@ == other@
    }
}

impl PartialEq for Button {
    fn eq(&self, other: &Self) -> (r: bool) {
        self.text == other.text
    }
}

impl vstd::std_specs::cmp::PartialEqSpecImpl for Button {
    open spec fn obeys_eq_spec() -> bool {
        true
    }

    open spec fn eq_spec(&self, other: &Self) -> bool {
        self@ == other@
    }
}

impl PartialEq for Input {
    fn eq(&self, other: &Self) -> (r: bool) {
        self.prompt == other.prompt && opt_string_eq(&self.value, &other.value)
    }
}

impl vstd::std_specs::cmp::PartialEqSpecImpl for Input {
    open spec fn obeys_eq_spec() -> bool {
        true
    }

    open spec fn eq_spec(&self, other: &Self) -> bool {
        self@ == other@
    }
}

impl Clone for Div {
    fn clone(&self) -> (r: Self)
        ensures
            r == *self,
    {
        Div { name: clone_opt_string(&self.name) }
    }
}

impl Clone for Cont {
    fn clone(&self) -> (r: Self)
        ensures
            r == *self,
    {
        Cont {  }
    }
}

impl Clone for P {
    fn clone(&self) -> (r: Self)
        ensures
            r == *self,
    {
        P { text: self.text.clone() }
    }
}

impl Clone for Button {
    fn clone(&self) -> (r: Self)
        ensures
            r == *self,
    {
        Button { text: self.text.clone() }
    }
}

impl Clone for Input {
    fn clone(&self) -> (r: Self)
        ensures
            r == *self,
    {
        Input { prompt: self.prompt.clone(), value: clone_opt_string(&self.value) }
    }
}

/// The props of a `Div` as a mathematical value.
pub struct DivV {
    pub name: Option<Seq<char>>,
}

pub struct PV {
    pub text: Seq<char>,
}

pub struct ButtonV {
    pub text: Seq<char>,
}

pub struct InputV {
    pub prompt: Seq<char>,
    pub value: Option<Seq<char>>,
}

pub struct DivDiffV {
    pub name: Option<Option<Seq<char>>>,
}

pub struct PDiffV {
    pub text: Option<Seq<char>>,
}

pub struct ButtonDiffV {
    pub text: Option<Seq<char>>,
}

pub struct InputDiffV {
    pub prompt: Option<Seq<char>>,
    pub value: Option<Option<Seq<char>>>,
}

/// What an optional field diff holds, by characters.
pub open spec fn opt_opt_str(o: Option<Option<String>>) -> Option<Option<Seq<char>>> {
    match o {
        Some(x) => Some(opt_str(x)),
        None => None,
    }
}

/// `None` where the two values agree, else the new one.
pub open spec fn field_diff<T>(new: T, old: T) -> Option<T> {
    if new == old {
        None
    } else {
        Some(new)
    }
}

impl View for Div {
    type V = DivV;

    open spec fn view(&self) -> DivV {
        DivV { name: opt_str(self.name) }
    }
}

impl View for P {
    type V = PV;

    open spec fn view(&self) -> PV {
        PV { text: self.text@ }
    }
}

impl View for Button {
    type V = ButtonV;

    open spec fn view(&self) -> ButtonV {
        ButtonV { text: self.text@ }
    }
}

impl View for Input {
    type V = InputV;

    open spec fn view(&self) -> InputV {
        InputV { prompt: self.prompt@, value: opt_str(self.value) }
    }
}

impl View for Cont {
    type V = Cont;

    open spec fn view(&self) -> Cont {
        *self
    }
}

impl View for DivDiff {
    type V = DivDiffV;

    open spec fn view(&self) -> DivDiffV {
        DivDiffV { name: opt_opt_str(self.name) }
    }
}

impl View for PDiff {
    type V = PDiffV;

    open spec fn view(&self) -> PDiffV {
        PDiffV { text: opt_str(self.text) }
    }
}

impl View for ButtonDiff {
    type V = ButtonDiffV;

    open spec fn view(&self) -> ButtonDiffV {
        ButtonDiffV { text: opt_str(self.text) }
    }
}

impl View for InputDiff {
    type V = InputDiffV;

    open spec fn view(&self) -> InputDiffV {
        InputDiffV { prompt: opt_str(self.prompt), value: opt_opt_str(self.value) }
    }
}

impl View for ContDiff {
    type V = ContDiff;

    open spec fn view(&self) -> ContDiff {
        *self
    }
}

impl DivV {
    /// The diff of `self` against `old`: each field is `None` where they agree.
    pub open spec fn spec_diff(self, old: DivV) -> DivDiffV {
        DivDiffV { name: field_diff(self.name, old.name) }
    }
}

impl PV {
    pub open spec fn spec_diff(self, old: PV) -> PDiffV {
        PDiffV { text: field_diff(self.text, old.text) }
    }
}

impl ButtonV {
    pub open spec fn spec_diff(self, old: ButtonV) -> ButtonDiffV {
        ButtonDiffV { text: field_diff(self.text, old.text) }
    }
}

impl InputV {
    pub open spec fn spec_diff(self, old: InputV) -> InputDiffV {
        InputDiffV {
            prompt: field_diff(self.prompt, old.prompt),
            value: field_diff(self.value, old.value),
        }
    }
}

impl Cont {
    pub open spec fn spec_diff(self, old: Cont) -> ContDiff {
        ContDiff {  }
    }
}

impl Div {
    pub fn diff(&self, old: Div) -> (r: DivDiff)
        ensures
            r@ == self@.spec_diff(old@),
    {
        DivDiff { name: diff_opt_string(&self.name, &old.name) }
    }
}

impl Cont {
    pub fn diff(&self, old: Cont) -> (r: ContDiff)
        ensures
            r@ == self@.spec_diff(old@),
    {
        ContDiff {  }
    }
}

impl P {
    pub fn diff(&self, old: P) -> (r: PDiff)
        ensures
            r@ == self@.spec_diff(old@),
    {
        PDiff { text: diff_string(&self.text, &old.text) }
    }
}

impl Button {
    pub fn diff(&self, old: Button) -> (r: ButtonDiff)
        ensures
            r@ == self@.spec_diff(old@),
    {
        ButtonDiff { text: diff_string(&self.text, &old.text) }
    }
}

impl Input {
    pub fn diff(&self, old: Input) -> (r: InputDiff)
        ensures
            r@ == self@.spec_diff(old@),
    {
        InputDiff {
            prompt: diff_string(&self.prompt, &old.prompt),
            value: diff_opt_string(&self.value, &old.value),
        }
    }
}

} // verus!
