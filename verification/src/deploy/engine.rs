//! The stage engine: the stages of the script run strictly in order, and
//! the first that fails ends the run.

use vstd::prelude::*;
use crate::deploy::config::Stage;
use crate::deploy::containers::Context;

verus! {

/// Where a run stands.
#[derive(Clone, Copy, Debug, PartialEq, Eq, Structural)]
pub enum RunState {
    /// The stage at this place of the script is to be executed next.
    Running { stage: usize },
    /// The stage at this place failed; no later stage was executed.
    Failed { stage: usize },
    /// Every stage succeeded in a dry run: the version is ready for deploy.
    Ready,
    /// Every stage succeeded: the version is deployed.
    Deployed,
}

impl RunState {
    /// The status that the process exits with once the run is over: zero
    /// after a run that succeeded, one after a run that failed; none while
    /// a stage is still to be executed.
    pub fn exit_status(&self) -> (r: Option<i32>)
        ensures
            r == match *self {
                RunState::Running { .. } => None,
                RunState::Failed { .. } => Some(1i32),
                RunState::Ready => Some(0i32),
                RunState::Deployed => Some(0i32),
            },
    {
        match self {
            RunState::Running { .. } => None,
            RunState::Failed { .. } => Some(1),
            RunState::Ready => Some(0),
            RunState::Deployed => Some(0),
        }
    }
}

/// The number of results at the start of `results` that are successes.
pub open spec fn leading_successes(results: Seq<bool>) -> nat
    decreases results.len(),
{
    if results.len() > 0 && results[0] {
        1 + leading_successes(results.drop_first())
    } else {
        0
    }
}

/// The state of a run of `stages` stages after the given results were
/// reported, one for each stage that the engine asked for: the stages
/// before the first failure have run, the failed one is where the run
/// stopped, and a run without failure ends when the script does.
pub open spec fn state_after(stages: usize, dry_run: bool, results: Seq<bool>) -> RunState {
    let done = leading_successes(results);
    if done >= stages {
        if dry_run {
            RunState::Ready
        } else {
            RunState::Deployed
        }
    } else if done < results.len() {
        RunState::Failed { stage: done as usize }
    } else {
        RunState::Running { stage: done as usize }
    }
}

/// Successes at the start are counted up to the first failure, whatever
/// follows it.
pub proof fn lemma_leading_successes(results: Seq<bool>, next: bool)
    ensures
        leading_successes(results) <= results.len(),
        leading_successes(results) < results.len() ==> leading_successes(results.push(next))
            == leading_successes(results),
        leading_successes(results) == results.len() ==> leading_successes(results.push(next))
            == results.len() + if next {
            1nat
        } else {
            0nat
        },
    decreases results.len(),
{
    let more = results.push(next);
    if results.len() > 0 {
        lemma_leading_successes(results.drop_first(), next);
        assert(more.drop_first() =~= results.drop_first().push(next));
        assert(more[0] == results[0]);
    } else {
        assert(more.drop_first() =~= Seq::<bool>::empty());
        assert(more[0] == next);
        assert(leading_successes(more.drop_first()) == 0);
    }
}

/// A stage is asked for only after every stage before it has succeeded,
/// and once a stage has failed no result changes the outcome.
pub proof fn lemma_strict_order(
    stages: usize,
    dry_run: bool,
    results: Seq<bool>,
    later: Seq<bool>,
)
    ensures
        state_after(stages, dry_run, results) matches RunState::Running { stage } ==> stage
            == results.len() && forall|i: int| 0 <= i < results.len() ==> results[i],
        state_after(stages, dry_run, results) is Failed ==> state_after(
            stages,
            dry_run,
            results + later,
        ) == state_after(stages, dry_run, results),
    decreases later.len(),
{
    lemma_all_successes(results);
    if later.len() > 0 {
        lemma_strict_order(stages, dry_run, results, later.drop_last());
        lemma_leading_successes(results + later.drop_last(), later.last());
        lemma_leading_successes(results, true);
        assert((results + later.drop_last()).push(later.last()) =~= results + later);
        lemma_prefix_successes(results, later.drop_last());
    } else {
        assert(results + later =~= results);
    }
}

/// Where every result counts as a leading success, every result is a
/// success.
pub proof fn lemma_all_successes(results: Seq<bool>)
    ensures
        leading_successes(results) <= results.len(),
        leading_successes(results) == results.len() ==> forall|i: int|
            0 <= i < results.len() ==> results[i],
    decreases results.len(),
{
    if results.len() > 0 {
        lemma_all_successes(results.drop_first());
        if leading_successes(results) == results.len() {
            assert forall|i: int| 0 <= i < results.len() implies results[i] by {
                if i > 0 {
                    assert(results.drop_first()[i - 1] == results[i]);
                }
            }
        }
    }
}

/// A failure among the results stops the count for good.
pub proof fn lemma_prefix_successes(results: Seq<bool>, later: Seq<bool>)
    ensures
        leading_successes(results) < results.len() ==> leading_successes(results + later)
            == leading_successes(results),
    decreases later.len(),
{
    if later.len() > 0 {
        lemma_prefix_successes(results, later.drop_last());
        lemma_leading_successes(results + later.drop_last(), later.last());
        lemma_all_successes(results);
        assert((results + later.drop_last()).push(later.last()) =~= results + later);
    } else {
        assert(results + later =~= results);
    }
}

/// A run of the script.
pub struct Engine {
    stages: usize,
    dry_run: bool,
    done: usize,
    failed: bool,
    results: Ghost<Seq<bool>>,
}

impl Engine {
    /// The number of stages of the script.
    pub closed spec fn stages(&self) -> usize {
        self.stages
    }

    /// Whether the run only prepares.
    pub closed spec fn is_dry_run(&self) -> bool {
        self.dry_run
    }

    /// The results that were reported and counted so far.
    pub closed spec fn results(&self) -> Seq<bool> {
        self.results@
    }

    #[verifier::type_invariant]
    spec fn inv(&self) -> bool {
        &&& self.done <= self.stages
        &&& self.done == leading_successes(self.results@)
        &&& self.failed == (self.done < self.results@.len())
        &&& self.failed ==> self.done < self.stages
        &&& self.results@.len() <= self.done + 1
    }

    /// The run of the script of `ctx`, before its first stage.
    pub fn new(ctx: &Context) -> (r: Engine)
        ensures
            r.stages() == ctx.spec_view().config.script@.len(),
            r.is_dry_run() == ctx.is_dry_run(),
            r.results() == Seq::<bool>::empty(),
    {
        Engine {
            stages: ctx.spec().config.script.len(),
            dry_run: ctx.dry_run(),
            done: 0,
            failed: false,
            results: Ghost(Seq::empty()),
        }
    }

    /// Where the run stands.
    pub fn state(&self) -> (r: RunState)
        ensures
            r == state_after(self.stages(), self.is_dry_run(), self.results()),
    {
        proof {
            use_type_invariant(self);
        }
        if self.failed {
            RunState::Failed { stage: self.done }
        } else if self.done < self.stages {
            RunState::Running { stage: self.done }
        } else if self.dry_run {
            RunState::Ready
        } else {
            RunState::Deployed
        }
    }

    /// The stage of `script` to execute now, if the run is under way.
    pub fn current<'a>(&self, script: &'a Vec<Stage>) -> (r: Option<&'a Stage>)
        ensures
            match state_after(self.stages(), self.is_dry_run(), self.results()) {
                RunState::Running { stage } => if stage < script@.len() {
                    r == Some(&script@[stage as int])
                } else {
                    r is None
                },
                _ => r is None,
            },
    {
        match self.state() {
            RunState::Running { stage } => if stage < script.len() {
                Some(&script[stage])
            } else {
                None
            },
            _ => None,
        }
    }

    /// Takes the result of the stage that was asked for. A result that
    /// comes when no stage is asked for is not counted.
    pub fn report(&mut self, success: bool)
        ensures
            final(self).stages() == old(self).stages(),
            final(self).is_dry_run() == old(self).is_dry_run(),
            final(self).results() == if state_after(
                old(self).stages(),
                old(self).is_dry_run(),
                old(self).results(),
            ) is Running {
                old(self).results().push(success)
            } else {
                old(self).results()
            },
    {
        proof {
            use_type_invariant(&*self);
            lemma_leading_successes(self.results@, success);
        }
        if !self.failed && self.done < self.stages {
            let done = self.done;
            let stages = self.stages;
            let dry_run = self.dry_run;
            let ghost results = self.results@.push(success);
            if success {
                *self = Engine { stages, dry_run, done: done + 1, failed: false, results: Ghost(results) };
            } else {
                *self = Engine { stages, dry_run, done, failed: true, results: Ghost(results) };
            }
        }
    }
}

} // verus!
