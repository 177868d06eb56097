//! Replaying a pipeline on the local machine.
//!
//! The library never starts a process. It hands out, one at a time, the
//! invocations that a run consists of, and is told how each one ended. The
//! first failure ends the run.

use vstd::prelude::*;
use crate::views::views;

verus! {

/// One process to start: a program, its arguments and, if set, the
/// directory to start it in.
#[derive(Clone, Debug, PartialEq, Eq)]
pub struct Invocation {
    pub program: String,
    pub args: Vec<String>,
    pub dir: Option<String>,
}

/// What an [`Invocation`] holds.
pub struct InvocationView {
    pub program: Seq<char>,
    pub args: Seq<Seq<char>>,
    pub dir: Option<Seq<char>>,
}

impl View for Invocation {
    type V = InvocationView;

    open spec fn view(&self) -> InvocationView {
        InvocationView {
            program: self.program@,
            args: views(self.args@),
            dir: match self.dir {
                Some(dir) => Some(dir@),
                None => None,
            },
        }
    }
}

/// Why a process did not end well: it could not be started, or it exited
/// with a status other than zero.
#[derive(Clone, Debug, PartialEq, Eq)]
pub struct ProcessError {
    pub message: String,
}

impl View for ProcessError {
    type V = Seq<char>;

    open spec fn view(&self) -> Seq<char> {
        self.message@
    }
}

/// What a reported outcome holds.
pub open spec fn outcome_view(outcome: Result<(), ProcessError>) -> Result<(), Seq<char>> {
    match outcome {
        Ok(_) => Ok(()),
        Err(error) => Err(error@),
    }
}

/// A run in progress, as a value.
pub struct ReplayView {
    /// Everything the run would start if nothing failed.
    pub plan: Seq<InvocationView>,
    /// How many invocations of the plan have been started and reported.
    pub spawned: nat,
    /// The failure that ended the run, if one did.
    pub failure: Option<Seq<char>>,
}

impl ReplayView {
    /// A run of `plan` of which nothing has been started yet.
    pub open spec fn start(plan: Seq<InvocationView>) -> ReplayView {
        ReplayView { plan, spawned: 0, failure: None }
    }

    /// The states that a run can be in.
    pub open spec fn wf(self) -> bool {
        &&& self.spawned <= self.plan.len()
        &&& self.failure is Some ==> self.spawned >= 1
    }

    /// The invocation to start next, if the run goes on.
    pub open spec fn pending(self) -> Option<InvocationView> {
        if self.failure is None && self.spawned < self.plan.len() {
            Some(self.plan[self.spawned as int])
        } else {
            None
        }
    }

    /// Whether nothing is left to start.
    pub open spec fn finished(self) -> bool {
        self.pending() is None
    }

    /// The invocations started so far, in the order in which they were
    /// started.
    pub open spec fn trace(self) -> Seq<InvocationView> {
        self.plan.take(self.spawned as int)
    }

    /// How the run ended, once it has.
    pub open spec fn result(self) -> Option<Result<(), Seq<char>>> {
        match self.failure {
            Some(error) => Some(Err(error)),
            None => if self.spawned == self.plan.len() {
                Some(Ok(()))
            } else {
                None
            },
        }
    }

    /// The run after the pending invocation ended with `outcome`. A run that
    /// has finished takes no more reports.
    pub open spec fn report(self, outcome: Result<(), Seq<char>>) -> ReplayView {
        if self.finished() {
            self
        } else {
            ReplayView {
                plan: self.plan,
                spawned: self.spawned + 1,
                failure: match outcome {
                    Ok(_) => None,
                    Err(error) => Some(error),
                },
            }
        }
    }

    /// The run after one report for each of `outcomes`, in order.
    pub open spec fn after(self, outcomes: Seq<Result<(), Seq<char>>>) -> ReplayView
        decreases outcomes.len(),
    {
        if outcomes.len() == 0 {
            self
        } else {
            self.after(outcomes.drop_last()).report(outcomes.last())
        }
    }
}

/// A run in progress. Ask it for the pending invocation, start that process,
/// report how it ended, and go on until nothing is pending.
pub struct Replay {
    plan: Vec<Invocation>,
    spawned: usize,
    failure: Option<ProcessError>,
}

impl View for Replay {
    type V = ReplayView;

    closed spec fn view(&self) -> ReplayView {
        ReplayView {
            plan: views(self.plan@),
            spawned: self.spawned as nat,
            failure: match self.failure {
                Some(error) => Some(error@),
                None => None,
            },
        }
    }
}

impl Replay {
    #[verifier::type_invariant]
    spec fn inv(self) -> bool {
        self@.wf()
    }

    /// A run of `plan`, of which nothing has been started yet.
    pub fn new(plan: Vec<Invocation>) -> (replay: Replay)
        ensures
            replay@ == ReplayView::start(views(plan@)),
    {
        Replay { plan, spawned: 0, failure: None }
    }

    /// The invocation to start next, or `None` when the run has finished.
    pub fn pending(&self) -> (next: Option<&Invocation>)
        ensures
            match next {
                Some(invocation) => self@.pending() == Some(invocation@),
                None => self@.pending() is None,
            },
    {
        proof {
            use_type_invariant(self);
        }
        if self.failure.is_none() && self.spawned < self.plan.len() {
            Some(&self.plan[self.spawned])
        } else {
            None
        }
    }

    /// Takes the outcome of the pending invocation. A run that has finished
    /// stays as it is.
    pub fn report(&mut self, outcome: Result<(), ProcessError>)
        ensures
            final(self)@ == old(self)@.report(outcome_view(outcome)),
    {
        proof {
            use_type_invariant(&*self);
        }
        if self.failure.is_none() && self.spawned < self.plan.len() {
            self.spawned = self.spawned + 1;
            match outcome {
                Ok(_) => {},
                Err(error) => {
                    self.failure = Some(error);
                },
            }
        }
    }

    /// Whether nothing is left to start.
    pub fn is_finished(&self) -> (finished: bool)
        ensures
            finished == self@.finished(),
    {
        proof {
            use_type_invariant(self);
        }
        !(self.failure.is_none() && self.spawned < self.plan.len())
    }

    /// How many invocations have been started and reported.
    pub fn spawned(&self) -> (count: usize)
        ensures
            count == self@.spawned,
    {
        self.spawned
    }

    /// How the run ended: `None` while an invocation is pending, else success
    /// or the failure that ended it.
    pub fn finish(self) -> (result: Option<Result<(), ProcessError>>)
        ensures
            match result {
                Some(outcome) => self@.result() == Some(outcome_view(outcome)),
                None => self@.result() is None,
            },
    {
        proof {
            use_type_invariant(&self);
        }
        let plan_len = self.plan.len();
        match self.failure {
            Some(error) => Some(Err(error)),
            None => if self.spawned == plan_len {
                Some(Ok(()))
            } else {
                None
            },
        }
    }
}

/// Reports change neither the plan nor what was started before them: a run
/// starts the invocations of its plan in order, each at most once.
pub proof fn lemma_trace_grows(run: ReplayView, outcomes: Seq<Result<(), Seq<char>>>)
    requires
        run.wf(),
    ensures
        run.after(outcomes).wf(),
        run.after(outcomes).plan == run.plan,
        run.spawned <= run.after(outcomes).spawned <= run.spawned + outcomes.len(),
        run.trace().is_prefix_of(run.after(outcomes).trace()),
        run.after(outcomes).trace().is_prefix_of(run.plan),
    decreases outcomes.len(),
{
    if outcomes.len() > 0 {
        lemma_trace_grows(run, outcomes.drop_last());
    }
    let end = run.after(outcomes);
    assert(run.trace() =~= end.trace().subrange(0, run.trace().len() as int));
    assert(end.trace() =~= run.plan.subrange(0, end.trace().len() as int));
}

/// After a failure nothing more is started, whatever is reported.
pub proof fn lemma_failure_is_final(run: ReplayView, outcomes: Seq<Result<(), Seq<char>>>)
    requires
        run.failure is Some,
    ensures
        run.after(outcomes) == run,
    decreases outcomes.len(),
{
    if outcomes.len() > 0 {
        lemma_failure_is_final(run, outcomes.drop_last());
    }
}

/// A run whose plan is empty has finished well before anything is started,
/// and stays so.
pub proof fn lemma_empty_plan(outcomes: Seq<Result<(), Seq<char>>>)
    ensures
        ReplayView::start(Seq::empty()).finished(),
        ReplayView::start(Seq::empty()).result() == Some(Ok::<(), Seq<char>>(())),
        ReplayView::start(Seq::empty()).after(outcomes).trace() == Seq::<InvocationView>::empty(),
        ReplayView::start(Seq::empty()).after(outcomes).result() == Some(Ok::<(), Seq<char>>(())),
    decreases outcomes.len(),
{
    let run = ReplayView::start(Seq::empty());
    if outcomes.len() > 0 {
        lemma_empty_plan(outcomes.drop_last());
    }
    lemma_trace_grows(run, outcomes);
    assert(run.after(outcomes).trace() =~= Seq::<InvocationView>::empty());
}

/// While every invocation succeeds, a run starts as many invocations of its
/// plan as outcomes were reported. Once one outcome was reported for each,
/// the whole plan has been started, in order, and the run has ended well.
pub proof fn lemma_all_succeed(plan: Seq<InvocationView>, outcomes: Seq<Result<(), Seq<char>>>)
    requires
        forall|i: int| 0 <= i < outcomes.len() ==> outcomes[i] is Ok,
    ensures
        outcomes.len() <= plan.len() ==> ReplayView::start(plan).after(outcomes) == (ReplayView {
            plan,
            spawned: outcomes.len(),
            failure: None,
        }),
        outcomes.len() >= plan.len() ==> ReplayView::start(plan).after(outcomes).trace() == plan,
        outcomes.len() >= plan.len() ==> ReplayView::start(plan).after(outcomes).result() == Some(
            Ok::<(), Seq<char>>(()),
        ),
    decreases outcomes.len(),
{
    let run = ReplayView::start(plan);
    if outcomes.len() > 0 {
        lemma_all_succeed(plan, outcomes.drop_last());
        let before = run.after(outcomes.drop_last());
        if outcomes.len() > plan.len() {
            assert(before.trace() == plan);
            assert(before.spawned == plan.len()) by {
                assert(before.trace().len() == plan.len());
                lemma_trace_grows(run, outcomes.drop_last());
            }
            assert(before.failure is None);
        }
    }
    if outcomes.len() >= plan.len() {
        assert(run.after(outcomes).trace() =~= plan);
    }
}

/// The first failure ends the run: the invocations before it and the failing
/// one have been started, in order, nothing after it is, and the run ends with
/// that failure.
pub proof fn lemma_first_failure(
    plan: Seq<InvocationView>,
    outcomes: Seq<Result<(), Seq<char>>>,
    first: int,
)
    requires
        0 <= first < plan.len(),
        first < outcomes.len(),
        forall|i: int| 0 <= i < first ==> outcomes[i] is Ok,
        outcomes[first] is Err,
    ensures
        ReplayView::start(plan).after(outcomes).trace() == plan.take(first + 1),
        ReplayView::start(plan).after(outcomes).result() == Some(
            Err::<(), Seq<char>>(outcomes[first]->Err_0),
        ),
        ReplayView::start(plan).after(outcomes).finished(),
{
    let run = ReplayView::start(plan);
    let head = outcomes.take(first);
    let upto = outcomes.take(first + 1);
    lemma_all_succeed(plan, head);
    assert(upto.drop_last() =~= head);
    assert(upto.last() == outcomes[first]);
    let failed = run.after(upto);
    assert(failed == ReplayView {
        plan,
        spawned: (first + 1) as nat,
        failure: Some(outcomes[first]->Err_0),
    });
    lemma_after_split(run, outcomes, first + 1);
    lemma_failure_is_final(failed, outcomes.skip(first + 1));
}

/// Reporting a sequence of outcomes is reporting its beginning and then its
/// rest.
pub proof fn lemma_after_split(run: ReplayView, outcomes: Seq<Result<(), Seq<char>>>, at: int)
    requires
        0 <= at <= outcomes.len(),
    ensures
        run.after(outcomes) == run.after(outcomes.take(at)).after(outcomes.skip(at)),
    decreases outcomes.len(),
{
    if at == outcomes.len() {
        assert(outcomes.take(at) =~= outcomes);
        assert(outcomes.skip(at) =~= Seq::<Result<(), Seq<char>>>::empty());
    } else {
        lemma_after_split(run, outcomes.drop_last(), at);
        assert(outcomes.drop_last().take(at) =~= outcomes.take(at));
        assert(outcomes.drop_last().skip(at) =~= outcomes.skip(at).drop_last());
        assert(outcomes.skip(at).last() == outcomes.last());
    }
}

} // verus!
