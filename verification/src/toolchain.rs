//! Toolchain descriptors: which compiler a job installs.

use vstd::prelude::*;
use crate::step::{action, checkout, multi_step, rust_cache, ActionView, Step, StepView};
use crate::text::{append_joined, begins_with, join};
use crate::views::{lemma_views_push, views};

verus! {

/// How much of a toolchain is installed.
#[derive(Clone, Copy, Debug, PartialEq, Eq, Structural)]
pub enum Profile {
    Minimal,
}

impl Profile {
    /// The profile's name.
    pub open spec fn name(self) -> Seq<char> {
        "minimal"@
    }

    /// The profile's name.
    pub fn as_str(self) -> (name: &'static str)
        ensures
            name@ == self.name(),
    {
        "minimal"
    }
}

/// A part of a toolchain that is installed on request.
#[derive(Clone, Copy, Debug, PartialEq, Eq, Structural)]
pub enum Component {
    Clippy,
    Rustfmt,
}

impl Component {
    /// The component's name.
    pub open spec fn name(self) -> Seq<char> {
        match self {
            Component::Clippy => "clippy"@,
            Component::Rustfmt => "rustfmt"@,
        }
    }

    /// The component's name.
    pub fn as_str(self) -> (name: &'static str)
        ensures
            name@ == self.name(),
    {
        match self {
            Component::Clippy => "clippy",
            Component::Rustfmt => "rustfmt",
        }
    }
}

/// The names of `components`, in order.
pub open spec fn component_names(components: Seq<Component>) -> Seq<Seq<char>> {
    Seq::new(components.len(), |i: int| components[i].name())
}

/// What a [`Rust`] holds.
pub struct RustView {
    /// The channel or version, such as `stable` or `1.73`.
    pub toolchain: Seq<char>,
    pub profile: Option<Profile>,
    /// Whether the toolchain becomes the default one.
    pub default: bool,
    /// The requested components, each once, in the order of the requests.
    pub components: Seq<Component>,
    /// The requested target triples, in the order of the requests.
    pub targets: Option<Seq<Seq<char>>>,
}

impl RustView {
    /// The descriptor of the bare toolchain `toolchain`.
    pub open spec fn bare(toolchain: Seq<char>) -> RustView {
        RustView {
            toolchain,
            profile: None,
            default: false,
            components: Seq::empty(),
            targets: None,
        }
    }

    /// A descriptor asks for no component twice.
    pub open spec fn wf(self) -> bool {
        self.components.no_duplicates()
    }

    /// Whether the toolchain is of the nightly channel: its name begins with
    /// `nightly`.
    pub open spec fn is_nightly(self) -> bool {
        "nightly"@.is_prefix_of(self.toolchain)
    }

    /// The same descriptor, asking for `component` too.
    pub open spec fn component(self, component: Component) -> RustView {
        RustView {
            components: if self.components.contains(component) {
                self.components
            } else {
                self.components.push(component)
            },
            ..self
        }
    }

    /// The same descriptor, asking for the target `triple` too.
    pub open spec fn target(self, triple: Seq<char>) -> RustView {
        RustView {
            targets: Some(
                match self.targets {
                    Some(targets) => targets.push(triple),
                    None => seq![triple],
                },
            ),
            ..self
        }
    }

    /// The parameters that the installing action is given: the toolchain,
    /// then what was asked for of profile, default, components and targets, in
    /// that order. Lists are joined by a comma and a space.
    pub open spec fn parameters(self) -> Seq<(Seq<char>, Seq<char>)> {
        seq![("toolchain"@, self.toolchain)] + (match self.profile {
            Some(profile) => seq![("profile"@, profile.name())],
            None => Seq::empty(),
        }) + (if self.default {
            seq![("default"@, "true"@)]
        } else {
            Seq::empty()
        }) + (if self.components.len() > 0 {
            seq![("components"@, join(component_names(self.components), ", "@))]
        } else {
            Seq::empty()
        }) + (match self.targets {
            Some(targets) => seq![("targets"@, join(targets, ", "@))],
            None => Seq::empty(),
        })
    }

    /// The action that installs the toolchain.
    pub open spec fn action(self) -> ActionView {
        ActionView { uses: "ructions/toolchain@v2"@, with: self.parameters() }
    }

    /// The steps that prepare the toolchain on a fresh host: fetch the
    /// sources, install the toolchain, restore the dependency cache.
    pub open spec fn install(self) -> StepView {
        StepView::Multi(
            seq![
                StepView::Action(ActionView::plain("actions/checkout@v3"@)),
                StepView::Action(self.action()),
                StepView::Action(ActionView::plain("Swatinem/rust-cache@v2"@)),
            ],
        )
    }
}

/// A description of the toolchain that a job installs.
pub struct Rust {
    toolchain: String,
    profile: Option<Profile>,
    default: bool,
    components: Vec<Component>,
    targets: Option<Vec<String>>,
}

impl View for Rust {
    type V = RustView;

    closed spec fn view(&self) -> RustView {
        RustView {
            toolchain: self.toolchain@,
            profile: self.profile,
            default: self.default,
            components: self.components@,
            targets: match self.targets {
                Some(targets) => Some(views(targets@)),
                None => None,
            },
        }
    }
}

/// The descriptor of the toolchain `version`, with nothing else asked for.
pub fn rust_toolchain(version: &str) -> (rust: Rust)
    ensures
        rust@ == RustView::bare(version@),
        rust@.wf(),
{
    Rust {
        toolchain: String::from_str(version),
        profile: None,
        default: false,
        components: Vec::new(),
        targets: None,
    }
}

impl Rust {
    #[verifier::type_invariant]
    spec fn inv(self) -> bool {
        self@.wf()
    }

    /// Whether the toolchain is of the nightly channel.
    pub fn is_nightly(&self) -> (nightly: bool)
        ensures
            nightly == self@.is_nightly(),
    {
        begins_with(self.toolchain.as_str(), "nightly")
    }

    /// The same descriptor, with the WebAssembly target added.
    pub fn wasm(self) -> (rust: Rust)
        ensures
            rust@ == self@.target("wasm32-unknown-unknown"@),
            rust@.wf(),
    {
        proof {
            use_type_invariant(&self);
        }
        let triple = String::from_str("wasm32-unknown-unknown");
        let mut targets = match self.targets {
            Some(targets) => targets,
            None => Vec::new(),
        };
        proof {
            lemma_views_push(targets@, triple);
            if self.targets is None {
                assert(views(targets@).push(triple@) =~= seq![triple@]);
            }
        }
        targets.push(triple);
        Rust {
            toolchain: self.toolchain,
            profile: self.profile,
            default: self.default,
            components: self.components,
            targets: Some(targets),
        }
    }

    /// The same descriptor, with the minimal profile.
    pub fn minimal(self) -> (rust: Rust)
        ensures
            rust@ == (RustView { profile: Some(Profile::Minimal), ..self@ }),
            rust@.wf(),
    {
        proof {
            use_type_invariant(&self);
        }
        Rust {
            toolchain: self.toolchain,
            profile: Some(Profile::Minimal),
            default: self.default,
            components: self.components,
            targets: self.targets,
        }
    }

    /// The same descriptor, installed as the default toolchain.
    pub fn default(self) -> (rust: Rust)
        ensures
            rust@ == (RustView { default: true, ..self@ }),
            rust@.wf(),
    {
        proof {
            use_type_invariant(&self);
        }
        Rust {
            toolchain: self.toolchain,
            profile: self.profile,
            default: true,
            components: self.components,
            targets: self.targets,
        }
    }

    /// The same descriptor, asking for `component` too.
    fn component(self, component: Component) -> (rust: Rust)
        ensures
            rust@ == self@.component(component),
            rust@.wf(),
    {
        proof {
            use_type_invariant(&self);
        }
        let mut found = false;
        let mut i: usize = 0;
        while i < self.components.len()
            invariant
                i <= self.components.len(),
                found == self.components@.take(i as int).contains(component),
            decreases self.components.len() - i,
        {
            if self.components[i] == component {
                found = true;
            }
            proof {
                let before = self.components@.take(i as int);
                let upto = self.components@.take(i + 1);
                assert(upto =~= before.push(self.components@[i as int]));
                if before.contains(component) {
                    let k = choose|k: int| 0 <= k < before.len() && before[k] == component;
                    assert(upto[k] == component);
                }
                if self.components@[i as int] == component {
                    assert(upto[i as int] == component);
                }
            }
            i += 1;
        }
        assert(self.components@.take(self.components.len() as int) =~= self.components@);
        let mut components = self.components;
        if !found {
            components.push(component);
        }
        Rust {
            toolchain: self.toolchain,
            profile: self.profile,
            default: self.default,
            components,
            targets: self.targets,
        }
    }

    /// The same descriptor, asking for the linter too.
    pub fn clippy(self) -> (rust: Rust)
        ensures
            rust@ == self@.component(Component::Clippy),
            rust@.wf(),
    {
        self.component(Component::Clippy)
    }

    /// The same descriptor, asking for the formatter too.
    pub fn rustfmt(self) -> (rust: Rust)
        ensures
            rust@ == self@.component(Component::Rustfmt),
            rust@.wf(),
    {
        self.component(Component::Rustfmt)
    }
}

/// What the conversion from a descriptor gives is stated by the `ensures` of
/// `from`: the strings of the step are made on the way, so no spec function
/// names the step itself.
impl vstd::std_specs::convert::FromSpecImpl<Rust> for Step {
    open spec fn obeys_from_spec() -> bool {
        false
    }

    closed spec fn from_spec(value: Rust) -> Step {
        arbitrary()
    }
}

impl From<Rust> for Step {
    /// The step that installs the toolchain that `value` describes.
    fn from(value: Rust) -> (step: Step)
        ensures
            step@ == StepView::Action(value@.action()),
    {
        let ghost described = value@;
        let mut install = action("ructions/toolchain@v2").with(
            "toolchain",
            value.toolchain.as_str(),
        );
        if let Some(profile) = value.profile {
            install.add_with("profile", profile.as_str());
        }
        if value.default {
            install.add_with("default", "true");
        }
        if value.components.len() > 0 {
            let mut names: Vec<String> = Vec::new();
            let mut i: usize = 0;
            while i < value.components.len()
                invariant
                    i <= value.components.len(),
                    views(names@) == component_names(value.components@).take(i as int),
                decreases value.components.len() - i,
            {
                let name = String::from_str(value.components[i].as_str());
                proof {
                    lemma_views_push(names@, name);
                }
                names.push(name);
                i += 1;
                assert(views(names@) =~= component_names(value.components@).take(i as int));
            }
            assert(component_names(value.components@).take(value.components.len() as int)
                =~= component_names(value.components@));
            let mut list = String::new();
            append_joined(&mut list, &names, ", ");
            assert(list@ =~= join(component_names(described.components), ", "@));
            install.add_with("components", list.as_str());
        }
        if let Some(targets) = value.targets {
            let mut list = String::new();
            append_joined(&mut list, &targets, ", ");
            assert(list@ =~= join(described.targets->Some_0, ", "@));
            install.add_with("targets", list.as_str());
        }
        assert(install@.with =~= described.parameters());
        Step::from(install)
    }
}

/// The steps that prepare the toolchain that `rust` describes.
pub fn install_rust(rust: Rust) -> (step: Step)
    ensures
        step@ == rust@.install(),
{
    let mut steps: Vec<Step> = Vec::new();
    let fetch = checkout();
    proof {
        lemma_views_push(steps@, fetch);
    }
    steps.push(fetch);
    let toolchain = Step::from(rust);
    proof {
        lemma_views_push(steps@, toolchain);
    }
    steps.push(toolchain);
    let cache = rust_cache();
    proof {
        lemma_views_push(steps@, cache);
    }
    steps.push(cache);
    assert(views(steps@) =~= rust@.install()->Multi_0);
    multi_step(steps)
}

/// Asking for more only adds: what a descriptor asked for before, it still
/// asks for, in the same order, and no component is asked for twice.
pub proof fn lemma_requests_only_add(rust: RustView, component: Component, triple: Seq<char>)
    requires
        rust.wf(),
    ensures
        rust.component(component).wf(),
        rust.component(component).components.contains(component),
        rust.components.is_prefix_of(rust.component(component).components),
        rust.target(triple).targets is Some,
        rust.target(triple).targets->Some_0.last() == triple,
        rust.targets matches Some(targets) ==> targets.is_prefix_of(
            rust.target(triple).targets->Some_0,
        ),
{
    let more = rust.component(component).components;
    if rust.components.contains(component) {
        assert(rust.components =~= more.subrange(0, rust.components.len() as int));
    } else {
        assert(more[more.len() - 1] == component);
        assert(rust.components =~= more.subrange(0, rust.components.len() as int));
    }
    match rust.targets {
        Some(targets) => {
            let longer = rust.target(triple).targets->Some_0;
            assert(targets =~= longer.subrange(0, targets.len() as int));
        },
        None => {},
    }
}

} // verus!
