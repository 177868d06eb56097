//! Workflow documents: the jobs of a pipeline as text for a hosted runner.

use vstd::prelude::*;
use crate::platform::Platform;
use crate::step::{render_steps, Step, StepView};
use crate::text::join;
use crate::views::{lemma_views_push, views};

verus! {

/// Something that happens to a repository and starts a workflow.
pub struct Event(&'static str);

impl View for Event {
    type V = Seq<char>;

    closed spec fn view(&self) -> Seq<char> {
        self.0@
    }
}

/// A push to the repository.
pub fn push() -> (event: Event)
    ensures
        event@ == "push"@,
{
    Event("push")
}

/// A pull request being opened or updated.
pub fn pull_request() -> (event: Event)
    ensures
        event@ == "pull_request"@,
{
    Event("pull_request")
}

/// What a [`Job`] holds.
pub struct JobView {
    /// The name of the task list the job was made from.
    pub name: Seq<char>,
    pub runs_on: Platform,
    pub steps: Seq<StepView>,
}

impl JobView {
    /// The name under which the job stands in the document: the task name,
    /// a hyphen and the platform's label.
    pub open spec fn identity(self) -> Seq<char> {
        self.name + "-"@ + self.runs_on.label()
    }

    /// The job in a workflow document.
    pub open spec fn render(self) -> Seq<char> {
        "  "@ + self.identity() + ":\n"@ + "    runs-on: "@ + self.runs_on.label() + "\n"@
            + "    steps:\n"@ + render_steps(self.steps)
    }
}

/// The jobs of `jobs` in a workflow document, one after the other.
pub open spec fn render_jobs(jobs: Seq<JobView>) -> Seq<char>
    decreases jobs.len(),
{
    if jobs.len() == 0 {
        Seq::empty()
    } else {
        render_jobs(jobs.drop_last()) + jobs.last().render()
    }
}

/// A named group of steps bound to a platform.
pub struct Job {
    name: String,
    runs_on: Platform,
    steps: Vec<Step>,
}

impl View for Job {
    type V = JobView;

    closed spec fn view(&self) -> JobView {
        JobView { name: self.name@, runs_on: self.runs_on, steps: views(self.steps@) }
    }
}

impl Job {
    /// The job `name` that runs `steps` on `runs_on`.
    pub fn new(name: &str, runs_on: Platform, steps: Vec<Step>) -> (job: Job)
        ensures
            job@ == (JobView { name: name@, runs_on, steps: views(steps@) }),
    {
        Job { name: String::from_str(name), runs_on, steps }
    }

    /// Appends the job to `out`, as it stands in a workflow document.
    pub fn fmt(&self, out: &mut String)
        ensures
            final(out)@ == old(out)@ + self@.render(),
    {
        let runs_on = self.runs_on.as_str();
        out.append("  ");
        out.append(self.name.as_str());
        out.append("-");
        out.append(runs_on);
        out.append(":\n");
        out.append("    runs-on: ");
        out.append(runs_on);
        out.append("\n");
        out.append("    steps:\n");
        let ghost start = out@;
        let ghost steps = views(self.steps@);
        let mut i: usize = 0;
        while i < self.steps.len()
            invariant
                i <= self.steps.len(),
                steps == views(self.steps@),
                out@ == start + render_steps(steps.take(i as int)),
            decreases self.steps.len() - i,
        {
            self.steps[i].fmt(out);
            proof {
                assert(steps.take(i + 1).drop_last() =~= steps.take(i as int));
            }
            i += 1;
        }
        proof {
            assert(steps.take(self.steps.len() as int) =~= steps);
            assert(out@ =~= old(out)@ + self@.render());
        }
    }

    /// The job as it stands in a workflow document.
    pub fn to_string(&self) -> (text: String)
        ensures
            text@ == self@.render(),
    {
        let mut text = String::new();
        self.fmt(&mut text);
        text
    }
}

/// What a [`Workflow`] holds.
pub struct WorkflowView {
    pub name: Seq<char>,
    /// The names of the events that start the workflow.
    pub triggers: Seq<Seq<char>>,
    pub jobs: Seq<JobView>,
}

impl WorkflowView {
    /// The workflow `name`, started by nothing and holding no job.
    pub open spec fn named(name: Seq<char>) -> WorkflowView {
        WorkflowView { name, triggers: Seq::empty(), jobs: Seq::empty() }
    }

    /// The same workflow with one more job.
    pub open spec fn job(self, job: JobView) -> WorkflowView {
        WorkflowView { jobs: self.jobs.push(job), ..self }
    }

    /// The names under which the jobs stand in the document, in order.
    pub open spec fn identities(self) -> Seq<Seq<char>> {
        Seq::new(self.jobs.len(), |i: int| self.jobs[i].identity())
    }

    /// The workflow document: the name, the events, then the jobs.
    pub open spec fn render(self) -> Seq<char> {
        "name: "@ + self.name + "\n"@ + "on: ["@ + join(self.triggers, ", "@) + "]\n"@ + "jobs:\n"@
            + render_jobs(self.jobs)
    }

    /// Where the document is kept, as the components of a relative path.
    pub open spec fn path(self) -> Seq<Seq<char>> {
        seq![".github"@, "workflows"@, self.name + ".yml"@]
    }
}

/// A named pipeline document: what starts it, and its jobs.
#[must_use]
pub struct Workflow {
    name: String,
    triggers: Vec<Event>,
    jobs: Vec<Job>,
}

impl View for Workflow {
    type V = WorkflowView;

    closed spec fn view(&self) -> WorkflowView {
        WorkflowView { name: self.name@, triggers: views(self.triggers@), jobs: views(self.jobs@) }
    }
}

/// The workflow `name`, started by nothing and holding no job.
pub fn workflow(name: &str) -> (workflow: Workflow)
    ensures
        workflow@ == WorkflowView::named(name@),
{
    let workflow = Workflow { name: String::from_str(name), triggers: Vec::new(), jobs: Vec::new() };
    assert(workflow@.triggers =~= Seq::empty());
    assert(workflow@.jobs =~= Seq::empty());
    workflow
}

/// A request to the collaborator that keeps files up to date: bring the file
/// at `path` to `content`, or, when `check` is set, only report whether it
/// differs.
#[derive(Clone, Debug, PartialEq, Eq)]
pub struct FileUpdate {
    /// The components of the file's path, relative to the repository.
    pub path: Vec<String>,
    pub content: String,
    pub check: bool,
}

impl Workflow {
    /// The same workflow, started by `events` too.
    pub fn on(self, events: Vec<Event>) -> (workflow: Workflow)
        ensures
            workflow@ == (WorkflowView { triggers: self@.triggers + views(events@), ..self@ }),
    {
        let mut workflow = self;
        let mut events = events;
        let ghost added = events@;
        workflow.triggers.append(&mut events);
        assert(views(workflow.triggers@) =~= views(self.triggers@) + views(added));
        workflow
    }

    /// Adds the job `name` that runs `steps` on `runs_on`, after the others.
    pub fn add_job(&mut self, name: &str, runs_on: Platform, steps: Vec<Step>)
        ensures
            final(self)@ == old(self)@.job(JobView { name: name@, runs_on, steps: views(steps@) }),
    {
        let job = Job::new(name, runs_on, steps);
        proof {
            lemma_views_push(self.jobs@, job);
        }
        self.jobs.push(job);
    }

    /// The same workflow with the job `name` that runs `steps` on `runs_on`
    /// added after the others.
    pub fn job(self, name: &str, runs_on: Platform, steps: Vec<Step>) -> (workflow: Workflow)
        ensures
            workflow@ == self@.job(JobView { name: name@, runs_on, steps: views(steps@) }),
    {
        let mut workflow = self;
        workflow.add_job(name, runs_on, steps);
        workflow
    }

    /// Appends the workflow document to `out`.
    pub fn fmt(&self, out: &mut String)
        ensures
            final(out)@ == old(out)@ + self@.render(),
    {
        out.append("name: ");
        out.append(self.name.as_str());
        out.append("\n");
        out.append("on: [");
        let ghost head = out@;
        let ghost triggers = views(self.triggers@);
        let mut i: usize = 0;
        while i < self.triggers.len()
            invariant
                i <= self.triggers.len(),
                triggers == views(self.triggers@),
                out@ == head + join(triggers.take(i as int), ", "@),
            decreases self.triggers.len() - i,
        {
            if i > 0 {
                out.append(", ");
            }
            out.append(self.triggers[i].0);
            proof {
                assert(triggers.take(i + 1) =~= triggers.take(i as int).push(triggers[i as int]));
                crate::text::lemma_join_push(triggers.take(i as int), ", "@, triggers[i as int]);
            }
            i += 1;
        }
        proof {
            assert(triggers.take(self.triggers.len() as int) =~= triggers);
        }
        out.append("]\n");
        out.append("jobs:\n");
        let ghost start = out@;
        let ghost jobs = views(self.jobs@);
        let mut k: usize = 0;
        while k < self.jobs.len()
            invariant
                k <= self.jobs.len(),
                jobs == views(self.jobs@),
                out@ == start + render_jobs(jobs.take(k as int)),
            decreases self.jobs.len() - k,
        {
            self.jobs[k].fmt(out);
            proof {
                assert(jobs.take(k + 1).drop_last() =~= jobs.take(k as int));
            }
            k += 1;
        }
        proof {
            assert(jobs.take(self.jobs.len() as int) =~= jobs);
            assert(out@ =~= old(out)@ + self@.render());
        }
    }

    /// The workflow document.
    pub fn to_string(&self) -> (text: String)
        ensures
            text@ == self@.render(),
    {
        let mut text = String::new();
        self.fmt(&mut text);
        text
    }

    /// The request that keeps the workflow's file up to date: the document,
    /// under `.github/workflows/` and the workflow's name with `.yml`.
    pub fn write(&self, check: bool) -> (update: FileUpdate)
        ensures
            views(update.path@) == self@.path(),
            update.content@ == self@.render(),
            update.check == check,
    {
        let mut path: Vec<String> = Vec::new();
        let github = String::from_str(".github");
        proof {
            lemma_views_push(path@, github);
        }
        path.push(github);
        let workflows = String::from_str("workflows");
        proof {
            lemma_views_push(path@, workflows);
        }
        path.push(workflows);
        let mut file = self.name.clone();
        file.append(".yml");
        proof {
            lemma_views_push(path@, file);
        }
        path.push(file);
        assert(views(path@) =~= self@.path());
        FileUpdate { path, content: self.to_string(), check }
    }
}

/// Two jobs made from one task name for different platforms stand under
/// different names in the document, and each asks for its own platform.
pub proof fn lemma_identity_tells_platforms_apart(a: JobView, b: JobView)
    requires
        a.name == b.name,
        a.runs_on != b.runs_on,
    ensures
        a.identity() != b.identity(),
        a.identity() == a.name + "-"@ + a.runs_on.label(),
        b.identity() == b.name + "-"@ + b.runs_on.label(),
{
    crate::platform::lemma_labels_differ(a.runs_on, b.runs_on);
    assert(a.identity().len() == a.name.len() + "-"@.len() + a.runs_on.label().len());
    assert(b.identity().len() == b.name.len() + "-"@.len() + b.runs_on.label().len());
}

/// Jobs on one platform stand under different names in the document if and
/// only if they were made from different task names.
pub proof fn lemma_identity_tells_names_apart(a: JobView, b: JobView)
    requires
        a.runs_on == b.runs_on,
    ensures
        a.identity() == b.identity() <==> a.name == b.name,
{
    let tail = "-"@ + a.runs_on.label();
    assert(a.identity() =~= a.name + tail);
    assert(b.identity() =~= b.name + tail);
    if a.identity() == b.identity() {
        assert(a.name.len() == b.name.len()) by {
            assert((a.name + tail).len() == (b.name + tail).len());
        }
        assert(a.name =~= (a.name + tail).subrange(0, a.name.len() as int));
        assert(b.name =~= (b.name + tail).subrange(0, b.name.len() as int));
    }
}

/// Workflows that hold the same are written to the same file with the same
/// document, however often they are rendered.
pub proof fn lemma_rendering_is_repeatable(a: Workflow, b: Workflow)
    requires
        a@ == b@,
    ensures
        a@.render() == b@.render(),
        a@.path() == b@.path(),
{
}

} // verus!
