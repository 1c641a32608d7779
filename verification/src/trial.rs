//! Two components that exercise the custom-component machinery: a root that shows
//! a greeting and a counter and embeds a second component.
use vstd::prelude::*;
use crate::ast::{Div, DivV, P, PV};
use crate::render::{Renderer, Request, RequestV, lemma_requests_rank_below, request_rank};

verus! {

/// The props of the root component.
#[derive(Debug)]
pub struct NoProps1 {
    pub name: String,
    pub count: u32,
}

/// The props of the embedded component.
#[derive(Debug)]
pub struct NoProps2 {
    pub name: String,
}

/// The state of the root component.
#[derive(Debug)]
pub struct RootState {}

/// The state of the embedded component.
#[derive(Debug)]
pub struct Differ {
    pub message: String,
}

pub struct NoProps1V {
    pub name: Seq<char>,
    pub count: u32,
}

pub struct NoProps2V {
    pub name: Seq<char>,
}

impl View for NoProps1 {
    type V = NoProps1V;

    open spec fn view(&self) -> NoProps1V {
        NoProps1V { name: self.name@, count: self.count }
    }
}

impl View for NoProps2 {
    type V = NoProps2V;

    open spec fn view(&self) -> NoProps2V {
        NoProps2V { name: self.name@ }
    }
}

impl PartialEq for NoProps1 {
    fn eq(&self, other: &Self) -> (r: bool) {
        self.name == other.name && self.count == other.count
    }
}

impl vstd::std_specs::cmp::PartialEqSpecImpl for NoProps1 {
    open spec fn obeys_eq_spec() -> bool {
        true
    }

    open spec fn eq_spec(&self, other: &Self) -> bool {
        self@ == other@
    }
}

impl PartialEq for NoProps2 {
    fn eq(&self, other: &Self) -> (r: bool) {
        self.name == other.name
    }
}

impl vstd::std_specs::cmp::PartialEqSpecImpl for NoProps2 {
    open spec fn obeys_eq_spec() -> bool {
        true
    }

    open spec fn eq_spec(&self, other: &Self) -> bool {
        self@ == other@
    }
}

impl Default for RootState {
    fn default() -> (r: Self) {
        RootState {  }
    }
}

impl Default for Differ {
    fn default() -> (r: Self)
        ensures
            r.message@ == Seq::<char>::empty(),
    {
        Differ { message: String::new() }
    }
}

/// The decimal digit `d` as a character.
pub open spec fn digit(d: nat) -> char {
    (d + 48) as char
}

/// The decimal representation of `n`, without leading zeros.
pub open spec fn decimal(n: nat) -> Seq<char>
    decreases n,
{
    if n < 10 {
        seq![digit(n)]
    } else {
        decimal(n / 10).push(digit(n % 10))
    }
}

/// The number `n` written in decimal, without leading zeros or sign.
fn decimal_string(n: u32) -> (s: String)
    ensures
        s@ == decimal(n as nat),
    decreases n,
{
    let digits = "0123456789";
    proof {
        reveal_strlit("0123456789");
    }
    let mut s = if n < 10 {
        String::new()
    } else {
        decimal_string(n / 10)
    };
    let d = (n % 10) as usize;
    let last = digits.substring_char(d, d + 1);
    s.append(last);
    proof {
        assert(last@ =~= seq![digit(d as nat)]);
        if n < 10 {
            assert(s@ =~= decimal(n as nat));
        } else {
            assert(s@ =~= decimal(n as nat));
        }
    }
    s
}

/// The two components, each with its props.
#[derive(Debug)]
pub enum TrialComponent {
    Root(NoProps1),
    Differ(NoProps2),
}

pub enum TrialComponentV {
    Root(NoProps1V),
    Differ(NoProps2V),
}

impl View for TrialComponent {
    type V = TrialComponentV;

    open spec fn view(&self) -> TrialComponentV {
        match self {
            TrialComponent::Root(p) => TrialComponentV::Root(p@),
            TrialComponent::Differ(p) => TrialComponentV::Differ(p@),
        }
    }
}

/// What the embedded component asks for.
pub open spec fn spec_render_differ(props: NoProps2V, message: Seq<char>) -> RequestV<TrialComponentV> {
    RequestV::Div(
        DivV { name: None },
        seq![
            RequestV::P(PV { text: "Hey"@ }),
            RequestV::P(PV { text: message }),
            RequestV::P(PV { text: props.name }),
        ],
    )
}

/// What the root component asks for.
pub open spec fn spec_render_root(props: NoProps1V) -> RequestV<TrialComponentV> {
    RequestV::Div(
        DivV { name: Some(props.name) },
        seq![
            RequestV::P(PV { text: "Hello "@ + props.name }),
            RequestV::P(PV { text: "Another message: "@ + decimal(props.count as nat) }),
            RequestV::Custom(TrialComponentV::Differ(NoProps2V { name: props.name })),
        ],
    )
}

/// Renders the embedded component: a greeting, the state's message and the name.
pub fn render_differ(props: &NoProps2, state: &Differ) -> (r: Request<TrialComponent>)
    ensures
        r@ == spec_render_differ(props@, state.message@),
{
    let mut children: Vec<Request<TrialComponent>> = Vec::new();
    children.push(Request::P(P { text: String::from_str("Hey") }));
    children.push(Request::P(P { text: state.message.clone() }));
    children.push(Request::P(P { text: props.name.clone() }));
    let r = Request::Div(Div { name: None }, children);
    proof {
        crate::render::lemma_requests_view(children@);
        assert(crate::render::requests_view(children@) =~= seq![
            RequestV::P(PV { text: "Hey"@ }),
            RequestV::P(PV { text: state.message@ }),
            RequestV::P(PV { text: props.name@ }),
        ]);
    }
    r
}

/// Renders the root component: a greeting, the count, and the embedded component
/// for the same name.
pub fn render_root(props: &NoProps1, state: &RootState) -> (r: Request<TrialComponent>)
    ensures
        r@ == spec_render_root(props@),
{
    let mut hello = String::from_str("Hello ");
    hello.append(props.name.as_str());
    let mut message = String::from_str("Another message: ");
    message.append(decimal_string(props.count).as_str());
    let mut children: Vec<Request<TrialComponent>> = Vec::new();
    children.push(Request::P(P { text: hello }));
    children.push(Request::P(P { text: message }));
    children.push(
        Request::custom(TrialComponent::Differ(NoProps2 { name: props.name.clone() })),
    );
    let r = Request::Div(Div { name: Some(props.name.clone()) }, children);
    proof {
        crate::render::lemma_requests_view(children@);
        assert(crate::render::requests_view(children@) =~= seq![
            RequestV::P(PV { text: "Hello "@ + props.name@ }),
            RequestV::P(PV { text: "Another message: "@ + decimal(props.count as nat) }),
            RequestV::Custom(TrialComponentV::Differ(NoProps2V { name: props.name@ })),
        ]);
    }
    r
}

impl Renderer for TrialComponent {
    open spec fn rank(c: TrialComponentV) -> nat {
        match c {
            TrialComponentV::Root(_) => 2,
            TrialComponentV::Differ(_) => 1,
        }
    }

    open spec fn spec_render(c: TrialComponentV) -> RequestV<TrialComponentV> {
        match c {
            TrialComponentV::Root(p) => spec_render_root(p),
            TrialComponentV::Differ(p) => spec_render_differ(p, Seq::empty()),
        }
    }

    open spec fn spec_same_component(c: TrialComponentV, other: TrialComponentV) -> bool {
        (c is Root && other is Root) || (c is Differ && other is Differ)
    }

    open spec fn spec_same_props(c: TrialComponentV, other: TrialComponentV) -> bool {
        c == other
    }

    proof fn lemma_render_rank(c: TrialComponentV) {
        let f = |d: TrialComponentV| Self::rank(d);
        let s = match c {
            TrialComponentV::Root(p) => spec_render_root(p),
            TrialComponentV::Differ(p) => spec_render_differ(p, Seq::empty()),
        };
        assert(s == Self::spec_render(c));
        match c {
            TrialComponentV::Root(p) => {
                let ch = seq![
                    RequestV::P(PV { text: "Hello "@ + p.name }),
                    RequestV::P(PV { text: "Another message: "@ + decimal(p.count as nat) }),
                    RequestV::Custom(TrialComponentV::Differ(NoProps2V { name: p.name })),
                ];
                assert(request_rank(ch[2], f) == 1);
                assert(request_rank(ch[0], f) == 0);
                assert(request_rank(ch[1], f) == 0);
                lemma_requests_rank_below(ch, f, 2);
            },
            TrialComponentV::Differ(p) => {
                let ch = seq![
                    RequestV::P(PV { text: "Hey"@ }),
                    RequestV::P(PV { text: Seq::<char>::empty() }),
                    RequestV::P(PV { text: p.name }),
                ];
                assert(request_rank(ch[0], f) == 0);
                assert(request_rank(ch[1], f) == 0);
                assert(request_rank(ch[2], f) == 0);
                lemma_requests_rank_below(ch, f, 1);
            },
        }
    }

    fn render(&self) -> (r: Request<TrialComponent>) {
        match self {
            TrialComponent::Root(props) => render_root(props, &RootState::default()),
            TrialComponent::Differ(props) => render_differ(props, &Differ::default()),
        }
    }

    fn same_component(&self, other: &Self) -> (b: bool) {
        match (self, other) {
            (TrialComponent::Root(_), TrialComponent::Root(_)) => true,
            (TrialComponent::Differ(_), TrialComponent::Differ(_)) => true,
            _ => false,
        }
    }

    fn same_props(&self, other: &Self) -> (b: bool) {
        match (self, other) {
            (TrialComponent::Root(p), TrialComponent::Root(q)) => *p == *q,
            (TrialComponent::Differ(p), TrialComponent::Differ(q)) => *p == *q,
            _ => false,
        }
    }
}

/// A render function held as a value.
pub struct FnWrapper<F> {
    pub fun: F,
}

/// Holds `fun` so that it can be called as a renderer.
pub fn wrap<F>(fun: F) -> (r: FnWrapper<F>)
    ensures
        r.fun == fun,
{
    FnWrapper { fun }
}

impl<F> FnWrapper<F> {
    /// Calls the held function on the props and the state.
    pub fn render<A, B, C>(&self, props: &A, state: &B) -> (r: C) where F: Fn(&A, &B) -> C
        requires
            call_requires(self.fun, (props, state)),
        ensures
            call_ensures(self.fun, (props, state), r),
    {
        (self.fun)(props, state)
    }
}

/// The trial components meet what the update laws ask of components: each is of
/// its own type with its own props, and equal props make equal components.
pub proof fn lemma_trial_components_well_behaved()
    ensures
        crate::laws::props_decide::<TrialComponent>(),
        crate::laws::reflexive_components::<TrialComponent>(),
{
}

} // verus!
