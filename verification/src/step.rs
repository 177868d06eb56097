//! Steps: the units of work that a job is made of.

use vstd::prelude::*;
use crate::command::{all_through_rustup, cmd, Run, RunView};
use crate::replay::{Invocation, InvocationView};
use crate::views::{lemma_views_push, views};

verus! {

/// What an [`Action`] holds: the reusable action it refers to and the
/// parameters it passes, in the order in which they were added.
pub struct ActionView {
    pub uses: Seq<char>,
    pub with: Seq<(Seq<char>, Seq<char>)>,
}

/// The lines of a parameter block, one `key: value` on each.
pub open spec fn with_lines(with: Seq<(Seq<char>, Seq<char>)>) -> Seq<char>
    decreases with.len(),
{
    if with.len() == 0 {
        Seq::empty()
    } else {
        with_lines(with.drop_last()) + "        "@ + with.last().0 + ": "@ + with.last().1 + "\n"@
    }
}

impl ActionView {
    /// The action without parameters that refers to `uses`.
    pub open spec fn plain(uses: Seq<char>) -> ActionView {
        ActionView { uses, with: Seq::empty() }
    }

    /// The same action with one more parameter.
    pub open spec fn with(self, key: Seq<char>, value: Seq<char>) -> ActionView {
        ActionView { uses: self.uses, with: self.with.push((key, value)) }
    }

    /// The action in a workflow document: the reference line and, if there
    /// are parameters, the block that lists them.
    pub open spec fn render(self) -> Seq<char> {
        if self.with.len() == 0 {
            "    - uses: "@ + self.uses + "\n"@
        } else {
            "    - uses: "@ + self.uses + "\n"@ + "      with:\n"@ + with_lines(self.with)
        }
    }
}

/// A reference to a reusable action of the hosted runner, with parameters.
/// It is rendered, and never replayed locally.
pub struct Action {
    uses: String,
    with: Vec<(String, String)>,
}

impl View for Action {
    type V = ActionView;

    closed spec fn view(&self) -> ActionView {
        ActionView { uses: self.uses@, with: views(self.with@) }
    }
}

/// The action that refers to `uses`, without parameters.
pub fn action(uses: &str) -> (action: Action)
    ensures
        action@ == ActionView::plain(uses@),
{
    let action = Action { uses: String::from_str(uses), with: Vec::new() };
    assert(action@.with =~= Seq::empty());
    action
}

impl Action {
    /// The same action with the parameter `key: value` added after the
    /// others.
    pub fn with(self, key: &str, value: &str) -> (action: Action)
        ensures
            action@ == self@.with(key@, value@),
    {
        let mut action = self;
        action.add_with(key, value);
        action
    }

    /// Adds the parameter `key: value` after the others.
    pub fn add_with(&mut self, key: &str, value: &str)
        ensures
            final(self)@ == old(self)@.with(key@, value@),
    {
        let pair = (String::from_str(key), String::from_str(value));
        proof {
            lemma_views_push(self.with@, pair);
        }
        self.with.push(pair);
    }

    /// Appends the action to `out`, as it stands in a workflow document.
    pub fn fmt(&self, out: &mut String)
        ensures
            final(out)@ == old(out)@ + self@.render(),
    {
        out.append("    - uses: ");
        out.append(self.uses.as_str());
        out.append("\n");
        if self.with.len() > 0 {
            out.append("      with:\n");
            let ghost start = out@;
            let ghost with = views(self.with@);
            let mut i: usize = 0;
            while i < self.with.len()
                invariant
                    i <= self.with.len(),
                    with == views(self.with@),
                    out@ == start + with_lines(with.take(i as int)),
                decreases self.with.len() - i,
            {
                out.append("        ");
                out.append(self.with[i].0.as_str());
                out.append(": ");
                out.append(self.with[i].1.as_str());
                out.append("\n");
                proof {
                    assert(with.take(i + 1).drop_last() =~= with.take(i as int));
                    assert(out@ =~= start + with_lines(with.take(i + 1)));
                }
                i += 1;
            }
            proof {
                assert(with.take(self.with.len() as int) =~= with);
                assert(out@ =~= old(out)@ + self@.render());
            }
        } else {
            assert(out@ =~= old(out)@ + self@.render());
        }
    }

    /// The action as it stands in a workflow document.
    pub fn to_string(&self) -> (text: String)
        ensures
            text@ == self@.render(),
    {
        let mut text = String::new();
        self.fmt(&mut text);
        text
    }
}

/// What a [`Step`] is: nothing, a group of steps, an action or a run.
pub enum StepView {
    Empty,
    Multi(Seq<StepView>),
    Action(ActionView),
    Run(RunView),
}

impl StepView {
    /// The step in a workflow document. A group is its members one after the
    /// other; the empty step is no text.
    pub open spec fn render(self) -> Seq<char>
        decreases self,
    {
        match self {
            StepView::Empty => Seq::empty(),
            StepView::Multi(steps) => render_steps(steps),
            StepView::Action(action) => action.render(),
            StepView::Run(run) => run.render(),
        }
    }

    /// The processes that a local run of the step starts, in order: those of
    /// its runs, at any depth. Actions and the empty step start none.
    pub open spec fn plan(self, is_nightly: bool) -> Seq<InvocationView>
        decreases self,
    {
        match self {
            StepView::Empty => Seq::empty(),
            StepView::Multi(steps) => plan_steps(steps, is_nightly),
            StepView::Action(_) => Seq::empty(),
            StepView::Run(run) => run.plan(is_nightly),
        }
    }

    /// The runs of the step, at any depth, in order.
    pub open spec fn runs(self) -> Seq<RunView>
        decreases self,
    {
        match self {
            StepView::Empty => Seq::empty(),
            StepView::Multi(steps) => runs_of(steps),
            StepView::Action(_) => Seq::empty(),
            StepView::Run(run) => seq![run],
        }
    }
}

/// The steps of `steps` in a workflow document, one after the other.
pub open spec fn render_steps(steps: Seq<StepView>) -> Seq<char>
    decreases steps,
{
    if steps.len() == 0 {
        Seq::empty()
    } else {
        render_steps(steps.drop_last()) + steps.last().render()
    }
}

/// The processes that a local run of `steps` starts, in order.
pub open spec fn plan_steps(steps: Seq<StepView>, is_nightly: bool) -> Seq<InvocationView>
    decreases steps,
{
    if steps.len() == 0 {
        Seq::empty()
    } else {
        plan_steps(steps.drop_last(), is_nightly) + steps.last().plan(is_nightly)
    }
}

/// The runs of `steps`, at any depth, in order.
pub open spec fn runs_of(steps: Seq<StepView>) -> Seq<RunView>
    decreases steps,
{
    if steps.len() == 0 {
        Seq::empty()
    } else {
        runs_of(steps.drop_last()) + steps.last().runs()
    }
}

/// The processes that `runs` start, in order.
pub open spec fn plan_runs(runs: Seq<RunView>, is_nightly: bool) -> Seq<InvocationView>
    decreases runs.len(),
{
    if runs.len() == 0 {
        Seq::empty()
    } else {
        plan_runs(runs.drop_last(), is_nightly) + runs.last().plan(is_nightly)
    }
}

/// One unit of pipeline work.
pub struct Step(StepEnum);

enum StepEnum {
    Empty,
    Multi(Vec<Step>),
    Action(Action),
    Run(Run),
}

impl View for Step {
    type V = StepView;

    closed spec fn view(&self) -> StepView {
        self.seen()
    }
}

impl vstd::std_specs::convert::FromSpecImpl<Action> for Step {
    open spec fn obeys_from_spec() -> bool {
        true
    }

    closed spec fn from_spec(value: Action) -> Step {
        Step(StepEnum::Action(value))
    }
}

impl vstd::std_specs::convert::FromSpecImpl<Run> for Step {
    open spec fn obeys_from_spec() -> bool {
        true
    }

    closed spec fn from_spec(value: Run) -> Step {
        Step(StepEnum::Run(value))
    }
}

impl From<Action> for Step {
    /// The step that is `value`.
    fn from(value: Action) -> (step: Step)
        ensures
            step@ == StepView::Action(value@),
    {
        Step(StepEnum::Action(value))
    }
}

impl From<Run> for Step {
    /// The step that is `value`.
    fn from(value: Run) -> (step: Step)
        ensures
            step@ == StepView::Run(value@),
    {
        Step(StepEnum::Run(value))
    }
}

/// The step that groups `steps`, in order.
pub fn multi_step(steps: Vec<Step>) -> (step: Step)
    ensures
        step@ == StepView::Multi(views(steps@)),
{
    let step = Step(StepEnum::Multi(steps));
    proof {
        step.lemma_group(steps);
    }
    step
}

/// `step` if `condition` holds, the empty step if not.
pub fn when(condition: bool, step: Step) -> (chosen: Step)
    ensures
        chosen@ == if condition {
            step@
        } else {
            StepView::Empty
        },
{
    if condition {
        step
    } else {
        Step(StepEnum::Empty)
    }
}

/// The step that fetches the sources.
pub fn checkout() -> (step: Step)
    ensures
        step@ == StepView::Action(ActionView::plain("actions/checkout@v3"@)),
{
    Step::from(action("actions/checkout@v3"))
}

/// The step that stores the files under `path` as the artifact `name`.
pub fn upload_artifact(name: &str, path: &str) -> (step: Step)
    ensures
        step@ == StepView::Action(
            ActionView::plain("actions/upload-artifact@v3"@).with("name"@, name@).with(
                "path"@,
                path@,
            ),
        ),
{
    Step::from(action("actions/upload-artifact@v3").with("name", name).with("path", path))
}

/// The step that restores the dependency cache.
pub fn rust_cache() -> (step: Step)
    ensures
        step@ == StepView::Action(ActionView::plain("Swatinem/rust-cache@v2"@)),
{
    Step::from(action("Swatinem/rust-cache@v2"))
}

/// The step that installs `version` of the crate `crate_name` with cargo.
pub fn install(crate_name: &str, version: &str) -> (step: Step)
    ensures
        step@ == StepView::Run(
            RunView::single(
                "cargo"@,
                seq!["install"@, crate_name@, "--locked"@, "--version"@, version@],
            ),
        ),
{
    let args = ["install", crate_name, "--locked", "--version", version];
    assert(views(args@) =~= seq!["install"@, crate_name@, "--locked"@, "--version"@, version@]);
    Step::from(cmd("cargo", &args))
}

impl Step {
    /// What the step is, member by member.
    spec fn seen(&self) -> StepView
        decreases self,
    {
        match self.0 {
            StepEnum::Empty => StepView::Empty,
            StepEnum::Multi(steps) => StepView::Multi(
                Seq::new(
                    steps.len() as nat,
                    |i: int|
                        if 0 <= i < steps.len() {
                            steps[i].seen()
                        } else {
                            StepView::Empty
                        },
                ),
            ),
            StepEnum::Action(action) => StepView::Action(action@),
            StepEnum::Run(run) => StepView::Run(run@),
        }
    }

    /// A group is seen as the group of what its members are seen as.
    proof fn lemma_group(self, steps: Vec<Step>)
        requires
            self.0 == StepEnum::Multi(steps),
        ensures
            self@ == StepView::Multi(views(steps@)),
    {
        let members = self@->Multi_0;
        assert(members.len() == steps.len());
        assert forall|j: int| 0 <= j < steps.len() implies members[j] == steps[j]@ by {}
        assert(members =~= views(steps@));
    }

    /// The same step. Kept for pipelines that mark steps to run after a
    /// failure; the mark is not rendered.
    pub fn if_failed(self) -> (step: Step)
        ensures
            step == self,
    {
        self
    }

    /// Appends the step to `out`, as it stands in a workflow document.
    pub fn fmt(&self, out: &mut String)
        ensures
            final(out)@ == old(out)@ + self@.render(),
        decreases self,
    {
        match &self.0 {
            StepEnum::Empty => {},
            StepEnum::Multi(steps) => {
                let ghost members = views(steps@);
                proof {
                    self.lemma_group(*steps);
                }
                let mut i: usize = 0;
                while i < steps.len()
                    invariant
                        i <= steps.len(),
                        members == views(steps@),
                        out@ == old(out)@ + render_steps(members.take(i as int)),
                        forall|j: int| 0 <= j < steps.len() ==> decreases_to!(self => steps[j]),
                    decreases steps.len() - i,
                {
                    steps[i].fmt(out);
                    proof {
                        assert(members.take(i + 1).drop_last() =~= members.take(i as int));
                    }
                    i += 1;
                }
                proof {
                    assert(members.take(steps.len() as int) =~= members);
                }
            },
            StepEnum::Action(action) => action.fmt(out),
            StepEnum::Run(run) => run.fmt(out),
        }
    }

    /// The step as it stands in a workflow document.
    pub fn to_string(&self) -> (text: String)
        ensures
            text@ == self@.render(),
    {
        let mut text = String::new();
        self.fmt(&mut text);
        text
    }

    /// Appends to `plan` the processes that a local run of the step starts.
    pub fn invocations(&self, is_nightly: bool, plan: &mut Vec<Invocation>)
        ensures
            views(final(plan)@) == views(old(plan)@) + self@.plan(is_nightly),
        decreases self,
    {
        match &self.0 {
            StepEnum::Empty => {
                assert(views(plan@) =~= views(old(plan)@) + self@.plan(is_nightly));
            },
            StepEnum::Multi(steps) => {
                let ghost members = views(steps@);
                proof {
                    self.lemma_group(*steps);
                }
                assert(views(plan@) =~= views(old(plan)@) + plan_steps(
                    members.take(0),
                    is_nightly,
                ));
                let mut i: usize = 0;
                while i < steps.len()
                    invariant
                        i <= steps.len(),
                        members == views(steps@),
                        views(plan@) == views(old(plan)@) + plan_steps(
                            members.take(i as int),
                            is_nightly,
                        ),
                        forall|j: int| 0 <= j < steps.len() ==> decreases_to!(self => steps[j]),
                    decreases steps.len() - i,
                {
                    steps[i].invocations(is_nightly, plan);
                    proof {
                        assert(members.take(i + 1).drop_last() =~= members.take(i as int));
                        assert(views(plan@) =~= views(old(plan)@) + plan_steps(
                            members.take(i + 1),
                            is_nightly,
                        ));
                    }
                    i += 1;
                }
                proof {
                    assert(members.take(steps.len() as int) =~= members);
                }
            },
            StepEnum::Action(_) => {
                assert(views(plan@) =~= views(old(plan)@) + self@.plan(is_nightly));
            },
            StepEnum::Run(run) => run.invocations(is_nightly, plan),
        }
    }
}

/// On a nightly toolchain a step starts the processes it starts otherwise,
/// each handed to `rustup`.
pub proof fn lemma_nightly_plan(step: StepView)
    ensures
        step.plan(true) == all_through_rustup(step.plan(false)),
    decreases step,
{
    match step {
        StepView::Multi(steps) => lemma_nightly_plan_steps(steps),
        _ => {},
    }
    assert(step.plan(true) =~= all_through_rustup(step.plan(false)));
}

/// On a nightly toolchain a sequence of steps starts the processes it starts
/// otherwise, each handed to `rustup`.
pub proof fn lemma_nightly_plan_steps(steps: Seq<StepView>)
    ensures
        plan_steps(steps, true) == all_through_rustup(plan_steps(steps, false)),
    decreases steps,
{
    if steps.len() > 0 {
        lemma_nightly_plan_steps(steps.drop_last());
        lemma_nightly_plan(steps.last());
    }
    assert(plan_steps(steps, true) =~= all_through_rustup(plan_steps(steps, false)));
}

/// A local run of a step starts the processes of its runs, in order, and no
/// others: groups, actions and the empty step start nothing of their own.
pub proof fn lemma_plan_is_plan_of_runs(step: StepView, is_nightly: bool)
    ensures
        step.plan(is_nightly) == plan_runs(step.runs(), is_nightly),
    decreases step,
{
    match step {
        StepView::Multi(steps) => lemma_plan_steps_is_plan_of_runs(steps, is_nightly),
        StepView::Run(run) => {
            reveal_with_fuel(plan_runs, 2);
            assert(seq![run].drop_last() =~= Seq::<RunView>::empty());
            assert(plan_runs(seq![run], is_nightly) =~= run.plan(is_nightly));
        },
        _ => {},
    }
}

/// A local run of a sequence of steps starts the processes of their runs, in
/// order, and no others.
pub proof fn lemma_plan_steps_is_plan_of_runs(steps: Seq<StepView>, is_nightly: bool)
    ensures
        plan_steps(steps, is_nightly) == plan_runs(runs_of(steps), is_nightly),
    decreases steps,
{
    if steps.len() > 0 {
        lemma_plan_steps_is_plan_of_runs(steps.drop_last(), is_nightly);
        lemma_plan_is_plan_of_runs(steps.last(), is_nightly);
        lemma_plan_runs_concat(runs_of(steps.drop_last()), steps.last().runs(), is_nightly);
    }
}

/// The processes of two sequences of runs, one after the other, are those of
/// the first followed by those of the second.
pub proof fn lemma_plan_runs_concat(a: Seq<RunView>, b: Seq<RunView>, is_nightly: bool)
    ensures
        plan_runs(a + b, is_nightly) == plan_runs(a, is_nightly) + plan_runs(b, is_nightly),
    decreases b.len(),
{
    if b.len() == 0 {
        assert(a + b =~= a);
        assert(plan_runs(a, is_nightly) + plan_runs(b, is_nightly) =~= plan_runs(a, is_nightly));
    } else {
        lemma_plan_runs_concat(a, b.drop_last(), is_nightly);
        assert((a + b).drop_last() =~= a + b.drop_last());
        assert((a + b).last() == b.last());
        assert(plan_runs(a + b, is_nightly) =~= plan_runs(a, is_nightly) + plan_runs(
            b,
            is_nightly,
        ));
    }
}

} // verus!
