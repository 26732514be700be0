use crate::port::{Action, ActionView, Reply, ReplyView};
use crate::stack::{StackConfig, StackView};
use crate::world::{World, WorldView};
use vstd::prelude::*;

verus! {

/// What a push of the stack is waiting for.
#[derive(Clone, Copy, Debug, PartialEq, Eq, Structural)]
pub enum PushPhase {
    /// Whether the branch at hand exists.
    Exists,
    /// The branch being pushed.
    Push,
    /// Nothing: the walk is over.
    Done,
}

/// What a push of the stack did with one branch.
#[derive(Clone, Copy, Debug, PartialEq, Eq, Structural)]
pub enum PushOutcome {
    NotReached,
    /// Skipped: the branch does not exist.
    Missing,
    Pushed,
    /// The push was refused. The walk went on.
    Failed,
}

/// The mathematical value of a push of the stack under way.
pub struct PushState {
    pub names: Seq<Seq<char>>,
    pub force: bool,
    pub phase: PushPhase,
    pub index: int,
    pub outcomes: Seq<PushOutcome>,
    pub error: Option<Seq<char>>,
}

/// The names of the branches of a stack, in order.
pub open spec fn names_of(stack: StackView) -> Seq<Seq<char>> {
    Seq::new(stack.branches.len(), |i: int| stack.branches[i].name)
}

/// How many of the outcomes are `what`.
pub open spec fn tally(outcomes: Seq<PushOutcome>, what: PushOutcome) -> nat
    decreases outcomes.len(),
{
    if outcomes.len() == 0 {
        0
    } else {
        tally(outcomes.drop_last(), what) + if outcomes.last() == what {
            1nat
        } else {
            0nat
        }
    }
}

impl PushState {
    pub open spec fn initial(names: Seq<Seq<char>>, force: bool) -> PushState {
        PushState {
            names,
            force,
            phase: if names.len() == 0 {
                PushPhase::Done
            } else {
                PushPhase::Exists
            },
            index: 0,
            outcomes: Seq::new(names.len(), |i: int| PushOutcome::NotReached),
            error: None,
        }
    }

    /// The invariant of a push of the stack.
    pub open spec fn wf(self) -> bool {
        &&& 0 <= self.index <= self.names.len()
        &&& self.outcomes.len() == self.names.len()
        &&& self.phase != PushPhase::Done ==> self.index < self.names.len()
    }

    /// The call that the walk is waiting for.
    pub open spec fn pending(self) -> ActionView {
        match self.phase {
            PushPhase::Exists => ActionView::BranchExists { branch: self.names[self.index] },
            PushPhase::Push => ActionView::Push {
                branch: self.names[self.index],
                force: self.force,
            },
            PushPhase::Done => ActionView::Finish,
        }
    }

    /// The branch at hand is done with; the walk turns to the next.
    pub open spec fn settle(self, outcome: PushOutcome) -> PushState {
        PushState {
            phase: if self.index + 1 < self.names.len() {
                PushPhase::Exists
            } else {
                PushPhase::Done
            },
            index: self.index + 1,
            outcomes: self.outcomes.update(self.index, outcome),
            ..self
        }
    }

    /// The state after `reply` has come in for the pending call. A push that
    /// fails is noted and the walk goes on; only a failure to find out
    /// whether a branch exists ends it.
    pub open spec fn advance(self, reply: ReplyView) -> PushState {
        match self.phase {
            PushPhase::Exists => match reply {
                ReplyView::Flag { value: true } => PushState { phase: PushPhase::Push, ..self },
                ReplyView::Flag { value: false } => self.settle(PushOutcome::Missing),
                _ => PushState {
                    phase: PushPhase::Done,
                    error: Some(reply.failure_text()),
                    ..self
                },
            },
            PushPhase::Push => match reply {
                ReplyView::Done => self.settle(PushOutcome::Pushed),
                _ => self.settle(PushOutcome::Failed),
            },
            PushPhase::Done => self,
        }
    }

    /// How many calls the walk may still ask for, at most.
    pub open spec fn calls_left(self) -> int {
        match self.phase {
            PushPhase::Exists => 2 * (self.names.len() - self.index),
            PushPhase::Push => 2 * (self.names.len() - self.index) - 1,
            PushPhase::Done => 0,
        }
    }
}

/// A push of the stack, one call at a time.
pub struct PushEngine {
    names: Vec<String>,
    force: bool,
    phase: PushPhase,
    index: usize,
    outcomes: Vec<PushOutcome>,
    error: Option<String>,
}

pub open spec fn text_view(text: Option<String>) -> Option<Seq<char>> {
    match text {
        Some(t) => Some(t@),
        None => None,
    }
}

impl View for PushEngine {
    type V = PushState;

    closed spec fn view(&self) -> PushState {
        PushState {
            names: crate::text::texts(self.names@),
            force: self.force,
            phase: self.phase,
            index: self.index as int,
            outcomes: self.outcomes@,
            error: text_view(self.error),
        }
    }
}

/// What a push of the stack leaves behind.
#[derive(Debug, PartialEq, Eq)]
pub struct PushReport {
    pub outcomes: Vec<PushOutcome>,
    pub pushed: usize,
    pub failed: usize,
    pub error: Option<String>,
}

fn count(outcomes: &Vec<PushOutcome>, what: PushOutcome) -> (n: usize)
    ensures
        n == tally(outcomes@, what),
{
    let mut n: usize = 0;
    let mut i: usize = 0;
    while i < outcomes.len()
        invariant
            i <= outcomes.len(),
            n <= i,
            n == tally(outcomes@.take(i as int), what),
        decreases outcomes.len() - i,
    {
        assert(outcomes@.take(i + 1).drop_last() =~= outcomes@.take(i as int));
        if outcomes[i] == what {
            n += 1;
        }
        i += 1;
    }
    assert(outcomes@.take(outcomes.len() as int) =~= outcomes@);
    n
}

impl PushEngine {
    #[verifier::type_invariant]
    spec fn consistent(self) -> bool {
        self@.wf()
    }

    /// A push of the branches of `config` that has not made a call yet.
    pub fn new(config: &StackConfig, force: bool) -> (engine: Self)
        ensures
            engine@ == PushState::initial(names_of(config@), force),
            engine@.wf(),
    {
        let n = config.branches.len();
        let mut names: Vec<String> = Vec::new();
        let mut outcomes: Vec<PushOutcome> = Vec::new();
        let mut i: usize = 0;
        while i < n
            invariant
                i <= n,
                n == config.branches.len(),
                names.len() == i,
                outcomes.len() == i,
                forall|k: int| 0 <= k < i ==> names[k]@ == config.branches[k].name@,
                forall|k: int| 0 <= k < i ==> outcomes[k] == PushOutcome::NotReached,
            decreases n - i,
        {
            names.push(config.branches[i].name.clone());
            outcomes.push(PushOutcome::NotReached);
            i += 1;
        }
        let phase = if n == 0 {
            PushPhase::Done
        } else {
            PushPhase::Exists
        };
        let engine = PushEngine { names, force, phase, index: 0, outcomes, error: None };
        assert(engine@.names =~= names_of(config@));
        assert(engine@.outcomes =~= PushState::initial(names_of(config@), force).outcomes);
        engine
    }

    /// Whether the walk is over.
    pub fn is_done(&self) -> (r: bool)
        ensures
            r == (self@.phase == PushPhase::Done),
    {
        self.phase == PushPhase::Done
    }

    /// The call to make now.
    pub fn action(&self) -> (action: Action)
        ensures
            self@.wf(),
            action@ == self@.pending(),
    {
        proof {
            use_type_invariant(self);
        }
        match self.phase {
            PushPhase::Exists => Action::BranchExists { branch: self.names[self.index].clone() },
            PushPhase::Push => Action::Push {
                branch: self.names[self.index].clone(),
                force: self.force,
            },
            PushPhase::Done => Action::Finish,
        }
    }

    fn settle(&mut self, outcome: PushOutcome)
        requires
            old(self)@.phase != PushPhase::Done,
        ensures
            final(self)@ == old(self)@.settle(outcome),
    {
        proof {
            use_type_invariant(&*self);
        }
        assert(self.index < self.names.len());
        self.outcomes[self.index] = outcome;
        self.phase = if self.index + 1 < self.names.len() {
            PushPhase::Exists
        } else {
            PushPhase::Done
        };
        self.index = self.index + 1;
    }

    /// Takes what came of the pending call and moves on to the next one.
    pub fn advance(&mut self, reply: Reply)
        ensures
            old(self)@.wf(),
            final(self)@ == old(self)@.advance(reply@),
            final(self)@.wf(),
    {
        proof {
            use_type_invariant(&*self);
        }
        match self.phase {
            PushPhase::Exists => match reply {
                Reply::Flag { value: true } => {
                    self.phase = PushPhase::Push;
                },
                Reply::Flag { value: false } => {
                    self.settle(PushOutcome::Missing);
                },
                _ => {
                    self.error = Some(reply.failure_text());
                    self.phase = PushPhase::Done;
                },
            },
            PushPhase::Push => match reply {
                Reply::Done => {
                    self.settle(PushOutcome::Pushed);
                },
                _ => {
                    self.settle(PushOutcome::Failed);
                },
            },
            PushPhase::Done => {},
        }
    }

    /// What the walk leaves behind: what became of each branch, how many
    /// were pushed and how many were refused.
    pub fn into_report(self) -> (report: PushReport)
        ensures
            report.outcomes@ == self@.outcomes,
            report.pushed == tally(self@.outcomes, PushOutcome::Pushed),
            report.failed == tally(self@.outcomes, PushOutcome::Failed),
            text_view(report.error) == self@.error,
    {
        let pushed = count(&self.outcomes, PushOutcome::Pushed);
        let failed = count(&self.outcomes, PushOutcome::Failed);
        PushReport { outcomes: self.outcomes, pushed, failed, error: self.error }
    }
}

/// A push that is refused does not end the walk: the branch is noted as
/// failed and the next one is at hand.
pub proof fn push_failure_is_not_fatal(s: PushState, reply: ReplyView)
    requires
        s.wf(),
        s.phase == PushPhase::Push,
    ensures
        s.advance(reply).error == s.error,
        s.advance(reply).index == s.index + 1,
        !(reply is Done) ==> s.advance(reply).outcomes[s.index] == PushOutcome::Failed,
        s.advance(reply).phase == PushPhase::Done ==> s.index + 1 == s.names.len(),
{
}

/// A push of the stack comes to its end whatever the replies.
pub proof fn push_terminates(s: PushState, reply: ReplyView)
    requires
        s.wf(),
        s.phase != PushPhase::Done,
    ensures
        s.advance(reply).wf(),
        0 <= s.advance(reply).calls_left() < s.calls_left(),
{
}

/// What holds while the branches `names` are pushed in world `w`.
pub open spec fn pushing(s: PushState, names: Seq<Seq<char>>, force: bool, w: WorldView) -> bool {
    &&& s.wf()
    &&& s.names == names
    &&& s.force == force
    &&& s.error is None
    &&& forall|j: int| 0 <= j < s.index ==> #[trigger] s.outcomes[j] == pushed_in(w, names[j])
    &&& forall|j: int|
        s.index <= j < names.len() ==> #[trigger] s.outcomes[j] == PushOutcome::NotReached
    &&& s.phase == PushPhase::Push ==> w.local.contains(names[s.index])
    &&& s.phase == PushPhase::Done ==> s.index == names.len()
}

/// What becomes of a branch that is pushed in world `w`.
pub open spec fn pushed_in(w: WorldView, name: Seq<char>) -> PushOutcome {
    if w.local.contains(name) {
        PushOutcome::Pushed
    } else {
        PushOutcome::Missing
    }
}

/// Pushes every branch of `config` that exists in `world`, the one next to
/// the base first, and passes over the others.
pub fn run(config: &StackConfig, force: bool, world: &mut World) -> (report: PushReport)
    ensures
        final(world)@ == old(world)@,
        report.error is None,
        report.outcomes@ == Seq::new(
            config@.branches.len(),
            |i: int| pushed_in(old(world)@, config@.branches[i].name),
        ),
        report.pushed == tally(report.outcomes@, PushOutcome::Pushed),
        report.failed == 0,
{
    let ghost names = names_of(config@);
    let ghost w = world@;
    let mut engine = PushEngine::new(config, force);
    while !engine.is_done()
        invariant
            pushing(engine@, names, force, w),
            world@ == w,
        decreases engine@.calls_left(),
    {
        let action = engine.action();
        let reply = world.perform(&action);
        engine.advance(reply);
    }
    let report = engine.into_report();
    proof {
        assert(report.outcomes@ =~= Seq::new(
            config@.branches.len(),
            |i: int| pushed_in(w, config@.branches[i].name),
        ));
        lemma_none_failed(report.outcomes@, w, names, names.len() as int);
        assert(report.outcomes@.take(names.len() as int) =~= report.outcomes@);
    }
    report
}

proof fn lemma_none_failed(outcomes: Seq<PushOutcome>, w: WorldView, names: Seq<Seq<char>>, k: int)
    requires
        0 <= k <= outcomes.len(),
        outcomes.len() == names.len(),
        forall|j: int| 0 <= j < outcomes.len() ==> #[trigger] outcomes[j] == pushed_in(w, names[j]),
    ensures
        tally(outcomes.take(k), PushOutcome::Failed) == 0,
    decreases k,
{
    if k > 0 {
        lemma_none_failed(outcomes, w, names, k - 1);
        assert(outcomes.take(k).drop_last() =~= outcomes.take(k - 1));
    }
}

} // verus!
