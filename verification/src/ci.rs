//! Building pipelines: task lists, and the pipeline that holds them.

use vstd::prelude::*;
use crate::command::{all_through_rustup, cmd, script, script_commands, RunView, ScriptView};
use crate::platform::Platform;
use crate::replay::{
    lemma_all_succeed, lemma_empty_plan, Invocation, InvocationView, Replay, ReplayView,
};
use crate::step::{
    install, lemma_nightly_plan_steps, lemma_plan_steps_is_plan_of_runs, plan_runs, plan_steps,
    runs_of, Step, StepView,
};
use crate::toolchain::{install_rust, rust_toolchain, Component, Profile, Rust, RustView};
use crate::views::{lemma_views_push, views};
use crate::workflow::{pull_request, push, workflow, FileUpdate, JobView, Workflow, WorkflowView};

verus! {

/// The step that runs `cargo` with `args`.
pub open spec fn cargo(args: Seq<Seq<char>>) -> StepView {
    StepView::Run(RunView::single("cargo"@, args))
}

/// The steps of the standard test job: the generated code is up to date,
/// the linter finds nothing, the tests pass, everything builds, the
/// documentation builds.
pub open spec fn tests_steps() -> Seq<StepView> {
    seq![
        cargo(seq!["xtask"@, "codegen"@, "--check"@]),
        cargo(
            seq![
                "clippy"@,
                "--all-targets"@,
                "--"@,
                "-D"@,
                "warnings"@,
                "-D"@,
                "clippy::all"@,
            ],
        ),
        cargo(seq!["test"@]),
        cargo(seq!["build"@, "--all-targets"@]),
        cargo(seq!["doc"@]),
    ]
}

/// The step of the standard release-test job: the tests and benchmarks pass
/// in release mode.
pub open spec fn release_tests_steps() -> Seq<StepView> {
    seq![cargo(seq!["test"@, "--benches"@, "--tests"@, "--release"@])]
}

/// The steps of the standard lint job: the code is formatted, and, with
/// `cargo-udeps` installed at `udeps_version`, no dependency is unused.
pub open spec fn lints_steps(udeps_version: Seq<char>) -> Seq<StepView> {
    seq![
        cargo(seq!["fmt"@, "--all"@, "--"@, "--check"@]),
        cargo(seq!["install"@, "cargo-udeps"@, "--locked"@, "--version"@, udeps_version]),
        cargo(seq!["udeps"@, "--all-targets"@]),
    ]
}

/// What a [`Tasks`] holds.
pub struct TasksView {
    pub name: Seq<char>,
    pub platform: Platform,
    /// Whether the commands of the list run on a nightly toolchain.
    pub is_nightly: bool,
    pub steps: Seq<StepView>,
}

impl TasksView {
    /// The task list `name` for `platform`, holding only the steps that
    /// prepare the toolchain `rust`.
    pub open spec fn new(name: Seq<char>, platform: Platform, rust: RustView) -> TasksView {
        TasksView { name, platform, is_nightly: rust.is_nightly(), steps: seq![rust.install()] }
    }

    /// The same list with `more` added after its steps.
    pub open spec fn with_steps(self, more: Seq<StepView>) -> TasksView {
        TasksView { steps: self.steps + more, ..self }
    }

    /// The job that the list becomes in a workflow document.
    pub open spec fn job(self) -> JobView {
        JobView { name: self.name, runs_on: self.platform, steps: self.steps }
    }

    /// The processes that a local run starts on a host that reports the
    /// operating system `os`, in order: those of the list's steps where the
    /// host is of the list's platform, none elsewhere.
    pub open spec fn plan(self, os: Seq<char>) -> Seq<InvocationView> {
        if os == self.platform.os() {
            plan_steps(self.steps, self.is_nightly)
        } else {
            Seq::empty()
        }
    }
}

/// An ordered list of steps for one platform, under a name: a job in the
/// making.
pub struct Tasks {
    name: String,
    platform: Platform,
    is_nightly: bool,
    steps: Vec<Step>,
}

impl View for Tasks {
    type V = TasksView;

    closed spec fn view(&self) -> TasksView {
        TasksView {
            name: self.name@,
            platform: self.platform,
            is_nightly: self.is_nightly,
            steps: views(self.steps@),
        }
    }
}

impl Tasks {
    /// The task list `name` for `platform`. It begins with the steps that
    /// prepare the toolchain `rust`, and its commands run on a nightly
    /// toolchain if `rust` names one.
    pub fn new(name: &str, platform: Platform, rust: Rust) -> (tasks: Tasks)
        ensures
            tasks@ == TasksView::new(name@, platform, rust@),
    {
        let is_nightly = rust.is_nightly();
        let tasks = Tasks { name: String::from_str(name), platform, is_nightly, steps: Vec::new() };
        assert(tasks@.steps =~= Seq::empty());
        let tasks = tasks.step(install_rust(rust));
        assert(tasks@.steps =~= seq![rust@.install()]);
        tasks
    }

    /// The same list with `step` added after its steps.
    pub fn step(self, step: Step) -> (tasks: Tasks)
        ensures
            tasks@ == self@.with_steps(seq![step@]),
    {
        let mut tasks = self;
        proof {
            lemma_views_push(tasks.steps@, step);
        }
        tasks.steps.push(step);
        assert(tasks@.steps =~= self@.steps + seq![step@]);
        tasks
    }

    /// The same list with the command `program args..` added after its steps.
    pub fn cmd(self, program: &str, args: &[&str]) -> (tasks: Tasks)
        ensures
            tasks@ == self@.with_steps(seq![StepView::Run(RunView::single(program@, views(args@)))]),
    {
        self.step(Step::from(cmd(program, args)))
    }

    /// The same list with a script added after its steps: several commands,
    /// each given as a line of words, the program first. A line must name its
    /// program.
    pub fn script(self, lines: &[&[&str]]) -> (tasks: Tasks)
        requires
            forall|i: int| 0 <= i < lines.len() ==> (#[trigger] lines[i]).len() > 0,
        ensures
            tasks@ == self@.with_steps(
                seq![
                    StepView::Run(
                        RunView {
                            script: ScriptView::Multi(script_commands(lines@)),
                            directory: None,
                        },
                    ),
                ],
            ),
    {
        self.step(Step::from(script(lines)))
    }

    /// The same list with the steps of the standard test job added.
    pub fn tests(self) -> (tasks: Tasks)
        ensures
            tasks@ == self@.with_steps(tests_steps()),
    {
        let codegen = ["xtask", "codegen", "--check"];
        assert(views(codegen@) =~= seq!["xtask"@, "codegen"@, "--check"@]);
        let clippy = ["clippy", "--all-targets", "--", "-D", "warnings", "-D", "clippy::all"];
        assert(views(clippy@) =~= seq![
            "clippy"@,
            "--all-targets"@,
            "--"@,
            "-D"@,
            "warnings"@,
            "-D"@,
            "clippy::all"@,
        ]);
        let test = ["test"];
        assert(views(test@) =~= seq!["test"@]);
        let build = ["build", "--all-targets"];
        assert(views(build@) =~= seq!["build"@, "--all-targets"@]);
        let doc = ["doc"];
        assert(views(doc@) =~= seq!["doc"@]);
        let tasks = self.cmd("cargo", &codegen).cmd("cargo", &clippy).cmd("cargo", &test).cmd(
            "cargo",
            &build,
        ).cmd("cargo", &doc);
        assert(tasks@.steps =~= self@.steps + tests_steps());
        tasks
    }

    /// The same list with the step of the standard release-test job added.
    pub fn release_tests(self) -> (tasks: Tasks)
        ensures
            tasks@ == self@.with_steps(release_tests_steps()),
    {
        let test = ["test", "--benches", "--tests", "--release"];
        assert(views(test@) =~= seq!["test"@, "--benches"@, "--tests"@, "--release"@]);
        let tasks = self.cmd("cargo", &test);
        assert(tasks@.steps =~= self@.steps + release_tests_steps());
        tasks
    }

    /// The same list with the steps of the standard lint job added, with
    /// `cargo-udeps` at `udeps_version`.
    pub fn lints(self, udeps_version: &str) -> (tasks: Tasks)
        ensures
            tasks@ == self@.with_steps(lints_steps(udeps_version@)),
    {
        let fmt = ["fmt", "--all", "--", "--check"];
        assert(views(fmt@) =~= seq!["fmt"@, "--all"@, "--"@, "--check"@]);
        let udeps = ["udeps", "--all-targets"];
        assert(views(udeps@) =~= seq!["udeps"@, "--all-targets"@]);
        let tasks = self.cmd("cargo", &fmt).step(install("cargo-udeps", udeps_version)).cmd(
            "cargo",
            &udeps,
        );
        assert(tasks@.steps =~= self@.steps + lints_steps(udeps_version@));
        tasks
    }

    /// Appends to `plan` the processes that a local run of the list starts on
    /// a host that reports the operating system `os`.
    pub fn invocations(&self, os: &str, plan: &mut Vec<Invocation>)
        ensures
            views(final(plan)@) == views(old(plan)@) + self@.plan(os@),
    {
        if self.platform.is_current(os) {
            let ghost steps = views(self.steps@);
            assert(views(plan@) =~= views(old(plan)@) + plan_steps(steps.take(0), self.is_nightly));
            let mut i: usize = 0;
            while i < self.steps.len()
                invariant
                    i <= self.steps.len(),
                    steps == views(self.steps@),
                    views(plan@) == views(old(plan)@) + plan_steps(
                        steps.take(i as int),
                        self.is_nightly,
                    ),
                decreases self.steps.len() - i,
            {
                self.steps[i].invocations(self.is_nightly, plan);
                proof {
                    assert(steps.take(i + 1).drop_last() =~= steps.take(i as int));
                    assert(views(plan@) =~= views(old(plan)@) + plan_steps(
                        steps.take(i + 1),
                        self.is_nightly,
                    ));
                }
                i += 1;
            }
            assert(steps.take(self.steps.len() as int) =~= steps);
        } else {
            assert(views(plan@) =~= views(old(plan)@) + self@.plan(os@));
        }
    }

    /// Starts a local run of the list on a host that reports the operating
    /// system `os`. On a host of another platform the run has nothing to
    /// start and has ended well; elsewhere it starts the commands of the
    /// list's runs in order, up to the first that fails.
    pub fn run(self, os: &str) -> (replay: Replay)
        ensures
            replay@ == ReplayView::start(self@.plan(os@)),
    {
        let mut plan: Vec<Invocation> = Vec::new();
        self.invocations(os, &mut plan);
        assert(views(plan@) =~= self@.plan(os@));
        Replay::new(plan)
    }
}

/// The toolchain of the standard jobs: `version` with the minimal profile,
/// installed as the default.
pub open spec fn standard_toolchain(version: Seq<char>) -> RustView {
    RustView { profile: Some(Profile::Minimal), default: true, ..RustView::bare(version) }
}

/// The standard test job for `platform`, on the toolchain `version` with the
/// linter.
pub open spec fn tests_job(platform: Platform, version: Seq<char>) -> TasksView {
    TasksView::new(
        "tests"@,
        platform,
        standard_toolchain(version).component(Component::Clippy),
    ).with_steps(tests_steps())
}

/// The standard release-test job for `platform`, on the toolchain `version`.
pub open spec fn release_tests_job(platform: Platform, version: Seq<char>) -> TasksView {
    TasksView::new("release-tests"@, platform, standard_toolchain(version)).with_steps(
        release_tests_steps(),
    )
}

/// The standard lint job, on the toolchain `rustc_version` with the formatter
/// and with `cargo-udeps` at `udeps_version`.
pub open spec fn lints_job(rustc_version: Seq<char>, udeps_version: Seq<char>) -> TasksView {
    TasksView::new(
        "lints"@,
        Platform::UbuntuLatest,
        standard_toolchain(rustc_version).component(Component::Rustfmt),
    ).with_steps(lints_steps(udeps_version))
}

/// The standard test jobs, one for each supported platform.
pub open spec fn tests_jobs(version: Seq<char>) -> Seq<TasksView> {
    Seq::new(Platform::all().len(), |i: int| tests_job(Platform::all()[i], version))
}

/// The standard release-test jobs, one for each supported platform.
pub open spec fn release_tests_jobs(version: Seq<char>) -> Seq<TasksView> {
    Seq::new(Platform::all().len(), |i: int| release_tests_job(Platform::all()[i], version))
}

/// The jobs of the standard pipeline: tests and release tests on every
/// supported platform, then the lints.
pub open spec fn standard_jobs() -> Seq<TasksView> {
    tests_jobs("1.73"@) + release_tests_jobs("1.73"@) + seq![
        lints_job("nightly-2023-10-14"@, "0.1.43"@),
    ]
}

/// The jobs that task lists become in a workflow document, in order.
pub open spec fn jobs_of(tasks: Seq<TasksView>) -> Seq<JobView> {
    Seq::new(tasks.len(), |i: int| tasks[i].job())
}

/// The workflow that task lists become: `ci-tests`, started by pushes and
/// pull requests, with one job for each list.
pub open spec fn workflow_of(tasks: Seq<TasksView>) -> WorkflowView {
    WorkflowView {
        name: "ci-tests"@,
        triggers: seq!["push"@, "pull_request"@],
        jobs: jobs_of(tasks),
    }
}

/// The processes that a local run of `tasks` starts on a host that reports
/// the operating system `os`: those of each list in turn.
pub open spec fn plan_all(tasks: Seq<TasksView>, os: Seq<char>) -> Seq<InvocationView>
    decreases tasks.len(),
{
    if tasks.len() == 0 {
        Seq::empty()
    } else {
        plan_all(tasks.drop_last(), os) + tasks.last().plan(os)
    }
}

/// A pipeline in the making: task lists in the order in which they were
/// added.
pub struct CI(Vec<Tasks>);

impl View for CI {
    type V = Seq<TasksView>;

    closed spec fn view(&self) -> Seq<TasksView> {
        views(self.0@)
    }
}

impl CI {
    /// The pipeline without task lists.
    pub fn new() -> (ci: CI)
        ensures
            ci@ == Seq::<TasksView>::empty(),
    {
        let ci = CI(Vec::new());
        assert(ci@ =~= Seq::empty());
        ci
    }

    /// The standard pipeline.
    pub fn standard_workflow() -> (ci: CI)
        ensures
            ci@ == standard_jobs(),
    {
        let ci = CI::new().standard_tests("1.73").standard_release_tests("1.73").standard_lints(
            "nightly-2023-10-14",
            "0.1.43",
        );
        assert(ci@ =~= standard_jobs());
        ci
    }

    /// The same pipeline with the standard lint job added.
    pub fn standard_lints(self, rustc_version: &str, udeps_version: &str) -> (ci: CI)
        ensures
            ci@ == self@.push(lints_job(rustc_version@, udeps_version@)),
    {
        self.job(
            Tasks::new(
                "lints",
                Platform::UbuntuLatest,
                rust_toolchain(rustc_version).minimal().default().rustfmt(),
            ).lints(udeps_version),
        )
    }

    /// The same pipeline with the standard test jobs added, one for each
    /// supported platform.
    pub fn standard_tests(self, rustc_version: &str) -> (ci: CI)
        ensures
            ci@ == self@ + tests_jobs(rustc_version@),
    {
        let mut ci = self;
        let platforms = Platform::latest();
        let mut i: usize = 0;
        while i < platforms.len()
            invariant
                i <= platforms.len(),
                platforms@ == Platform::all(),
                ci@ == self@ + tests_jobs(rustc_version@).take(i as int),
            decreases platforms.len() - i,
        {
            ci.add_job(
                Tasks::new(
                    "tests",
                    platforms[i],
                    rust_toolchain(rustc_version).minimal().default().clippy(),
                ).tests(),
            );
            i += 1;
            assert(ci@ =~= self@ + tests_jobs(rustc_version@).take(i as int));
        }
        assert(tests_jobs(rustc_version@).take(platforms.len() as int) =~= tests_jobs(
            rustc_version@,
        ));
        ci
    }

    /// The same pipeline with the standard release-test jobs added, one for
    /// each supported platform.
    pub fn standard_release_tests(self, rustc_version: &str) -> (ci: CI)
        ensures
            ci@ == self@ + release_tests_jobs(rustc_version@),
    {
        let mut ci = self;
        let platforms = Platform::latest();
        let mut i: usize = 0;
        while i < platforms.len()
            invariant
                i <= platforms.len(),
                platforms@ == Platform::all(),
                ci@ == self@ + release_tests_jobs(rustc_version@).take(i as int),
            decreases platforms.len() - i,
        {
            ci.add_job(
                Tasks::new(
                    "release-tests",
                    platforms[i],
                    rust_toolchain(rustc_version).minimal().default(),
                ).release_tests(),
            );
            i += 1;
            assert(ci@ =~= self@ + release_tests_jobs(rustc_version@).take(i as int));
        }
        assert(release_tests_jobs(rustc_version@).take(platforms.len() as int)
            =~= release_tests_jobs(rustc_version@));
        ci
    }

    /// The same pipeline with `tasks` added after the others.
    pub fn job(self, tasks: Tasks) -> (ci: CI)
        ensures
            ci@ == self@.push(tasks@),
    {
        let mut ci = self;
        ci.add_job(tasks);
        ci
    }

    /// Adds `tasks` after the others.
    pub fn add_job(&mut self, tasks: Tasks)
        ensures
            final(self)@ == old(self)@.push(tasks@),
    {
        proof {
            lemma_views_push(self.0@, tasks);
        }
        self.0.push(tasks);
    }

    /// The request that keeps the pipeline's workflow file up to date.
    pub fn write(self, check: bool) -> (update: FileUpdate)
        ensures
            views(update.path@) == workflow_of(self@).path(),
            update.content@ == workflow_of(self@).render(),
            update.check == check,
    {
        self.into_workflow().write(check)
    }

    /// Starts a local run of the pipeline on a host that reports the
    /// operating system `os`: the task lists in the order in which they were
    /// added, up to the first command that fails.
    pub fn run(self, os: &str) -> (replay: Replay)
        ensures
            replay@ == ReplayView::start(plan_all(self@, os@)),
    {
        let mut plan: Vec<Invocation> = Vec::new();
        let ghost lists = self@;
        assert(views(plan@) =~= plan_all(lists.take(0), os@));
        let mut i: usize = 0;
        while i < self.0.len()
            invariant
                i <= self.0.len(),
                lists == views(self.0@),
                views(plan@) == plan_all(lists.take(i as int), os@),
            decreases self.0.len() - i,
        {
            self.0[i].invocations(os, &mut plan);
            proof {
                assert(lists.take(i + 1).drop_last() =~= lists.take(i as int));
            }
            i += 1;
        }
        assert(lists.take(self.0.len() as int) =~= lists);
        Replay::new(plan)
    }

    /// The pipeline as a workflow: `ci-tests`, started by pushes and pull
    /// requests, with one job for each task list.
    pub fn into_workflow(self) -> (workflow: Workflow)
        ensures
            workflow@ == workflow_of(self@),
    {
        let mut events = Vec::new();
        events.push(push());
        events.push(pull_request());
        let mut workflow = workflow("ci-tests").on(events);
        assert(workflow@.triggers =~= seq!["push"@, "pull_request"@]);
        let ghost lists = self@;
        let mut rest = self.0;
        let ghost all = rest@;
        let ghost mut done: int = 0;
        assert(workflow@.jobs =~= jobs_of(lists).take(0));
        while rest.len() > 0
            invariant
                lists == views(all),
                done + rest.len() == all.len(),
                rest@ == all.skip(done),
                0 <= done,
                workflow@ == (WorkflowView { jobs: jobs_of(lists).take(done), ..workflow_of(lists) }),
            decreases rest.len(),
        {
            let task = rest.remove(0);
            assert(task == all[done]);
            workflow.add_job(task.name.as_str(), task.platform, task.steps);
            proof {
                done = done + 1;
            }
            assert(rest@ =~= all.skip(done));
            assert(workflow@.jobs =~= jobs_of(lists).take(done));
        }
        assert(jobs_of(lists).take(done) =~= jobs_of(lists));
        workflow
    }
}

impl Default for CI {
    /// The pipeline without task lists.
    fn default() -> (ci: CI)
        ensures
            ci@ == Seq::<TasksView>::empty(),
    {
        CI::new()
    }
}

/// On a host of another platform, a local run of a task list starts no
/// process and has ended well, before and after anything is reported.
pub proof fn lemma_other_host_starts_nothing(
    tasks: TasksView,
    os: Seq<char>,
    outcomes: Seq<Result<(), Seq<char>>>,
)
    requires
        os != tasks.platform.os(),
    ensures
        tasks.plan(os) == Seq::<InvocationView>::empty(),
        ReplayView::start(tasks.plan(os)).finished(),
        ReplayView::start(tasks.plan(os)).after(outcomes).trace() == Seq::<InvocationView>::empty(),
        ReplayView::start(tasks.plan(os)).after(outcomes).result() == Some(Ok::<(), Seq<char>>(())),
{
    lemma_empty_plan(outcomes);
}

/// On a host of its platform, a local run of a task list starts the processes
/// of the runs among its steps, at any depth, in the order in which the steps
/// were added, and no others. Where each of them succeeds, each has been
/// started once and the run has ended well.
pub proof fn lemma_matching_host_replays_runs(
    tasks: TasksView,
    outcomes: Seq<Result<(), Seq<char>>>,
)
    requires
        forall|i: int| 0 <= i < outcomes.len() ==> outcomes[i] is Ok,
        outcomes.len() >= tasks.plan(tasks.platform.os()).len(),
    ensures
        tasks.plan(tasks.platform.os()) == plan_runs(runs_of(tasks.steps), tasks.is_nightly),
        ReplayView::start(tasks.plan(tasks.platform.os())).after(outcomes).trace() == tasks.plan(
            tasks.platform.os(),
        ),
        ReplayView::start(tasks.plan(tasks.platform.os())).after(outcomes).result() == Some(
            Ok::<(), Seq<char>>(()),
        ),
{
    lemma_plan_steps_is_plan_of_runs(tasks.steps, tasks.is_nightly);
    lemma_all_succeed(tasks.plan(tasks.platform.os()), outcomes);
}

/// The toolchain that a task list was made for decides how its commands run,
/// whatever steps are added: as they are written, or, where the toolchain's
/// name begins with `nightly`, each handed to `rustup run nightly`.
pub proof fn lemma_toolchain_decides_wrapping(
    name: Seq<char>,
    platform: Platform,
    rust: RustView,
    more: Seq<StepView>,
)
    ensures
        ({
            let tasks = TasksView::new(name, platform, rust).with_steps(more);
            let written = plan_runs(runs_of(tasks.steps), false);
            tasks.plan(platform.os()) == if "nightly"@.is_prefix_of(rust.toolchain) {
                all_through_rustup(written)
            } else {
                written
            }
        }),
{
    let tasks = TasksView::new(name, platform, rust).with_steps(more);
    lemma_nightly_plan_steps(tasks.steps);
    lemma_plan_steps_is_plan_of_runs(tasks.steps, false);
}

/// The standard pipeline holds one test job and one release-test job for each
/// supported platform and one lint job, and no two of them stand under the
/// same name in the workflow document.
pub proof fn lemma_standard_jobs()
    ensures
        tests_jobs("1.73"@).len() == Platform::all().len(),
        release_tests_jobs("1.73"@).len() == Platform::all().len(),
        standard_jobs().len() == 2 * Platform::all().len() + 1,
        workflow_of(standard_jobs()).identities().no_duplicates(),
{
    reveal_strlit("tests");
    reveal_strlit("release-tests");
    reveal_strlit("lints");
    reveal_strlit("-");
    reveal_strlit("ubuntu-latest");
    reveal_strlit("macos-latest");
    reveal_strlit("windows-latest");
    let jobs = standard_jobs();
    let names = workflow_of(jobs).identities();
    assert(names.len() == 7);
    assert(names[0] == "tests"@ + "-"@ + "ubuntu-latest"@);
    assert(names[1] == "tests"@ + "-"@ + "macos-latest"@);
    assert(names[2] == "tests"@ + "-"@ + "windows-latest"@);
    assert(names[3] == "release-tests"@ + "-"@ + "ubuntu-latest"@);
    assert(names[4] == "release-tests"@ + "-"@ + "macos-latest"@);
    assert(names[5] == "release-tests"@ + "-"@ + "windows-latest"@);
    assert(names[6] == "lints"@ + "-"@ + "ubuntu-latest"@);
    assert(names[0].len() == 19 && names[0][0] == 't');
    assert(names[1].len() == 18);
    assert(names[2].len() == 20);
    assert(names[3].len() == 27);
    assert(names[4].len() == 26);
    assert(names[5].len() == 28);
    assert(names[6].len() == 19 && names[6][0] == 'l');
}

} // verus!
