use crate::github::{CiStatus, PrState, ReviewStatus};
use crate::port::{Action, ActionView, Reply, ReplyView};
use crate::stack::{StackConfig, StackView};
use crate::world::{World, WorldView};
use vstd::prelude::*;

verus! {

/// What a merge of the stack is waiting for.
#[derive(Clone, Copy, Debug, PartialEq, Eq, Structural)]
pub enum MergePhase {
    /// Where the pull request at hand stands.
    State,
    /// The state of its checks.
    Ci,
    /// Whether it has been approved.
    Review,
    /// The host being asked to merge it once it can.
    AutoMerge,
    /// The host merging it.
    Merge,
    /// Nothing: the walk is over.
    Done,
}

/// What a merge of the stack did with one branch.
#[derive(Clone, Copy, Debug, PartialEq, Eq, Structural)]
pub enum MergeOutcome {
    NotReached,
    /// The branch has no pull request.
    NoPullRequest,
    AlreadyMerged,
    Closed,
    CiPending,
    CiFailing,
    NotApproved,
    AutoMergeEnabled,
    /// The host refused to merge later. The walk went on.
    AutoMergeFailed,
    Merged,
    /// The host refused to merge. The walk ended here.
    MergeFailed,
}

/// Why a merge of the stack could not be carried out.
#[derive(Debug, Clone, PartialEq, Eq)]
pub enum MergeError {
    /// No branch of the stack has a pull request.
    NoPullRequests,
    /// A question to the host failed.
    Tool { message: String },
}

/// The mathematical value of a `MergeError`.
pub enum MergeErrorView {
    NoPullRequests,
    Tool { message: Seq<char> },
}

impl View for MergeError {
    type V = MergeErrorView;

    open spec fn view(&self) -> MergeErrorView {
        match *self {
            MergeError::NoPullRequests => MergeErrorView::NoPullRequests,
            MergeError::Tool { message } => MergeErrorView::Tool { message: message@ },
        }
    }
}

pub open spec fn merge_error_view(error: Option<MergeError>) -> Option<MergeErrorView> {
    match error {
        Some(e) => Some(e@),
        None => None,
    }
}

/// The pull requests of the branches of a stack, in order.
pub open spec fn pulls_of(stack: StackView) -> Seq<Option<u32>> {
    Seq::new(stack.branches.len(), |i: int| stack.branches[i].pr_number)
}

/// The first place from `i` on that holds a pull request, or the length
/// where there is none.
pub open spec fn next_pull(prs: Seq<Option<u32>>, i: int) -> int
    decreases prs.len() - i,
{
    if i < 0 || i >= prs.len() {
        prs.len() as int
    } else if prs[i] is Some {
        i
    } else {
        next_pull(prs, i + 1)
    }
}

/// What is noted for a branch that the walk has not come to.
pub open spec fn unvisited(pr: Option<u32>) -> MergeOutcome {
    if pr is Some {
        MergeOutcome::NotReached
    } else {
        MergeOutcome::NoPullRequest
    }
}

/// The mathematical value of a merge of the stack under way.
pub struct MergeState {
    pub prs: Seq<Option<u32>>,
    pub auto: bool,
    pub wait_ci: bool,
    pub phase: MergePhase,
    pub index: int,
    pub outcomes: Seq<MergeOutcome>,
    pub error: Option<MergeErrorView>,
}

impl MergeState {
    /// The state before the first call. A stack with branches of which none
    /// has a pull request cannot be merged.
    pub open spec fn initial(prs: Seq<Option<u32>>, auto: bool, wait_ci: bool) -> MergeState {
        let first = next_pull(prs, 0);
        MergeState {
            prs,
            auto,
            wait_ci,
            phase: if first < prs.len() {
                MergePhase::State
            } else {
                MergePhase::Done
            },
            index: first,
            outcomes: Seq::new(prs.len(), |i: int| unvisited(prs[i])),
            error: if prs.len() > 0 && first == prs.len() {
                Some(MergeErrorView::NoPullRequests)
            } else {
                None
            },
        }
    }

    /// The invariant of a merge of the stack.
    pub open spec fn wf(self) -> bool {
        &&& 0 <= self.index <= self.prs.len()
        &&& self.outcomes.len() == self.prs.len()
        &&& self.phase != MergePhase::Done ==> self.index < self.prs.len() && self.prs[self.index]
            is Some
        &&& self.phase == MergePhase::Merge ==> !self.auto
        &&& self.phase == MergePhase::AutoMerge ==> self.auto
    }

    /// The pull request at hand.
    pub open spec fn number(self) -> u32 {
        self.prs[self.index]->0
    }

    /// The call that the walk is waiting for.
    pub open spec fn pending(self) -> ActionView {
        match self.phase {
            MergePhase::State => ActionView::PrStatus { number: self.number() },
            MergePhase::Ci => ActionView::CiStatus { number: self.number() },
            MergePhase::Review => ActionView::ReviewStatus { number: self.number() },
            MergePhase::AutoMerge => ActionView::EnableAutoMerge { number: self.number() },
            MergePhase::Merge => ActionView::Merge { number: self.number() },
            MergePhase::Done => ActionView::Finish,
        }
    }

    pub open spec fn at(self, phase: MergePhase) -> MergeState {
        MergeState { phase, ..self }
    }

    /// The pull request at hand is done with; the walk turns to the next.
    pub open spec fn settle(self, outcome: MergeOutcome) -> MergeState {
        let next = next_pull(self.prs, self.index + 1);
        MergeState {
            phase: if next < self.prs.len() {
                MergePhase::State
            } else {
                MergePhase::Done
            },
            index: next,
            outcomes: self.outcomes.update(self.index, outcome),
            ..self
        }
    }

    /// The walk ends at the pull request at hand.
    pub open spec fn stop(self, outcome: MergeOutcome) -> MergeState {
        MergeState {
            phase: MergePhase::Done,
            outcomes: self.outcomes.update(self.index, outcome),
            ..self
        }
    }

    /// A question to the host failed: the walk ends.
    pub open spec fn fail(self, reply: ReplyView) -> MergeState {
        MergeState {
            phase: MergePhase::Done,
            error: Some(MergeErrorView::Tool { message: reply.failure_text() }),
            ..self
        }
    }

    /// The state after `reply` has come in for the pending call.
    pub open spec fn advance(self, reply: ReplyView) -> MergeState {
        match self.phase {
            MergePhase::State => match reply {
                ReplyView::State { state: PrState::Merged } => self.settle(
                    MergeOutcome::AlreadyMerged,
                ),
                ReplyView::State { state: PrState::Closed } => self.settle(MergeOutcome::Closed),
                ReplyView::State { state } => if self.wait_ci {
                    self.at(MergePhase::Ci)
                } else {
                    self.at(MergePhase::Review)
                },
                _ => self.fail(reply),
            },
            MergePhase::Ci => match reply {
                ReplyView::Ci { status: CiStatus::Pending } => self.settle(MergeOutcome::CiPending),
                ReplyView::Ci { status: CiStatus::Failure } => self.settle(MergeOutcome::CiFailing),
                ReplyView::Ci { status } => self.at(MergePhase::Review),
                _ => self.fail(reply),
            },
            MergePhase::Review => match reply {
                ReplyView::Review { decision } => if self.auto {
                    self.at(MergePhase::AutoMerge)
                } else if decision == ReviewStatus::Approved {
                    self.at(MergePhase::Merge)
                } else {
                    self.settle(MergeOutcome::NotApproved)
                },
                _ => self.fail(reply),
            },
            MergePhase::AutoMerge => match reply {
                ReplyView::Done => self.settle(MergeOutcome::AutoMergeEnabled),
                _ => self.settle(MergeOutcome::AutoMergeFailed),
            },
            MergePhase::Merge => match reply {
                ReplyView::Done => self.settle(MergeOutcome::Merged),
                _ => self.stop(MergeOutcome::MergeFailed),
            },
            MergePhase::Done => self,
        }
    }

    /// How many calls the walk may still ask for, at most.
    pub open spec fn calls_left(self) -> int {
        match self.phase {
            MergePhase::State => 4 * (self.prs.len() - self.index),
            MergePhase::Ci => 4 * (self.prs.len() - self.index) - 1,
            MergePhase::Review => 4 * (self.prs.len() - self.index) - 2,
            MergePhase::AutoMerge => 4 * (self.prs.len() - self.index) - 3,
            MergePhase::Merge => 4 * (self.prs.len() - self.index) - 3,
            MergePhase::Done => 0,
        }
    }
}

/// The first place from `i` on that holds a pull request lies between `i`
/// and the length, and no place before it does.
pub proof fn lemma_next_pull(prs: Seq<Option<u32>>, i: int)
    requires
        0 <= i <= prs.len(),
    ensures
        i <= next_pull(prs, i) <= prs.len(),
        next_pull(prs, i) < prs.len() ==> prs[next_pull(prs, i)] is Some,
        forall|j: int| i <= j < next_pull(prs, i) ==> (#[trigger] prs[j]) is None,
    decreases prs.len() - i,
{
    if i < prs.len() && prs[i] is None {
        lemma_next_pull(prs, i + 1);
    }
}

/// A merge of the stack, one call at a time.
pub struct MergeEngine {
    prs: Vec<Option<u32>>,
    auto: bool,
    wait_ci: bool,
    phase: MergePhase,
    index: usize,
    outcomes: Vec<MergeOutcome>,
    error: Option<MergeError>,
}

impl View for MergeEngine {
    type V = MergeState;

    closed spec fn view(&self) -> MergeState {
        MergeState {
            prs: self.prs@,
            auto: self.auto,
            wait_ci: self.wait_ci,
            phase: self.phase,
            index: self.index as int,
            outcomes: self.outcomes@,
            error: merge_error_view(self.error),
        }
    }
}

/// What a merge of the stack leaves behind.
#[derive(Debug, PartialEq, Eq)]
pub struct MergeReport {
    pub outcomes: Vec<MergeOutcome>,
    pub error: Option<MergeError>,
}

fn seek(prs: &Vec<Option<u32>>, from: usize) -> (next: usize)
    requires
        from <= prs.len(),
    ensures
        next == next_pull(prs@, from as int),
        from <= next <= prs.len(),
{
    let mut i: usize = from;
    while i < prs.len() && prs[i].is_none()
        invariant
            from <= i <= prs.len(),
            next_pull(prs@, from as int) == next_pull(prs@, i as int),
        decreases prs.len() - i,
    {
        i += 1;
    }
    i
}

impl MergeEngine {
    #[verifier::type_invariant]
    spec fn consistent(self) -> bool {
        self@.wf()
    }

    /// A merge of the pull requests of `config` that has not made a call
    /// yet. With `auto` the host is asked to merge each one as soon as it
    /// can; without, each one that is approved is merged at once. With
    /// `wait_ci` a pull request whose checks are running or have failed is
    /// left alone.
    pub fn new(config: &StackConfig, auto: bool, wait_ci: bool) -> (engine: Self)
        ensures
            engine@ == MergeState::initial(pulls_of(config@), auto, wait_ci),
            engine@.wf(),
    {
        let n = config.branches.len();
        let mut prs: Vec<Option<u32>> = Vec::new();
        let mut outcomes: Vec<MergeOutcome> = Vec::new();
        let mut i: usize = 0;
        while i < n
            invariant
                i <= n,
                n == config.branches.len(),
                prs.len() == i,
                outcomes.len() == i,
                forall|k: int| 0 <= k < i ==> prs[k] == config.branches[k].pr_number,
                forall|k: int| 0 <= k < i ==> outcomes[k] == unvisited(prs[k]),
            decreases n - i,
        {
            let pr = config.branches[i].pr_number;
            prs.push(pr);
            outcomes.push(
                if pr.is_some() {
                    MergeOutcome::NotReached
                } else {
                    MergeOutcome::NoPullRequest
                },
            );
            i += 1;
        }
        assert(prs@ =~= pulls_of(config@));
        let first = seek(&prs, 0);
        proof {
            lemma_next_pull(prs@, 0);
        }
        let phase = if first < n {
            MergePhase::State
        } else {
            MergePhase::Done
        };
        let error = if n > 0 && first == n {
            Some(MergeError::NoPullRequests)
        } else {
            None
        };
        let engine = MergeEngine { prs, auto, wait_ci, phase, index: first, outcomes, error };
        assert(engine@.outcomes =~= MergeState::initial(pulls_of(config@), auto, wait_ci).outcomes);
        engine
    }

    /// Whether the walk is over.
    pub fn is_done(&self) -> (r: bool)
        ensures
            r == (self@.phase == MergePhase::Done),
    {
        self.phase == MergePhase::Done
    }

    /// The call to make now.
    pub fn action(&self) -> (action: Action)
        ensures
            self@.wf(),
            action@ == self@.pending(),
    {
        proof {
            use_type_invariant(self);
        }
        if self.phase == MergePhase::Done {
            return Action::Finish;
        }
        let number = match self.prs[self.index] {
            Some(number) => number,
            None => 0,
        };
        match self.phase {
            MergePhase::State => Action::PrStatus { number },
            MergePhase::Ci => Action::CiStatus { number },
            MergePhase::Review => Action::ReviewStatus { number },
            MergePhase::AutoMerge => Action::EnableAutoMerge { number },
            MergePhase::Merge => Action::Merge { number },
            MergePhase::Done => Action::Finish,
        }
    }

    fn settle(&mut self, outcome: MergeOutcome)
        requires
            old(self)@.phase != MergePhase::Done,
        ensures
            final(self)@ == old(self)@.settle(outcome),
    {
        proof {
            use_type_invariant(&*self);
            lemma_next_pull(self.prs@, self.index + 1);
        }
        assert(self.index < self.prs.len());
        self.outcomes[self.index] = outcome;
        let next = seek(&self.prs, self.index + 1);
        self.phase = if next < self.prs.len() {
            MergePhase::State
        } else {
            MergePhase::Done
        };
        self.index = next;
    }

    fn fail(&mut self, reply: &Reply)
        ensures
            final(self)@ == old(self)@.fail(reply@),
    {
        proof {
            use_type_invariant(&*self);
        }
        self.error = Some(MergeError::Tool { message: reply.failure_text() });
        self.phase = MergePhase::Done;
    }

    /// Takes what came of the pending call and moves on to the next one.
    pub fn advance(&mut self, reply: Reply)
        ensures
            old(self)@.wf(),
            final(self)@ == old(self)@.advance(reply@),
            final(self)@.wf(),
    {
        proof {
            use_type_invariant(&*self);
            merge_terminates(self@, reply@);
        }
        match self.phase {
            MergePhase::State => match reply {
                Reply::State { state: PrState::Merged } => {
                    self.settle(MergeOutcome::AlreadyMerged);
                },
                Reply::State { state: PrState::Closed } => {
                    self.settle(MergeOutcome::Closed);
                },
                Reply::State { state } => {
                    self.phase = if self.wait_ci {
                        MergePhase::Ci
                    } else {
                        MergePhase::Review
                    };
                },
                _ => {
                    self.fail(&reply);
                },
            },
            MergePhase::Ci => match reply {
                Reply::Ci { status: CiStatus::Pending } => {
                    self.settle(MergeOutcome::CiPending);
                },
                Reply::Ci { status: CiStatus::Failure } => {
                    self.settle(MergeOutcome::CiFailing);
                },
                Reply::Ci { status } => {
                    self.phase = MergePhase::Review;
                },
                _ => {
                    self.fail(&reply);
                },
            },
            MergePhase::Review => match reply {
                Reply::Review { decision } => {
                    if self.auto {
                        self.phase = MergePhase::AutoMerge;
                    } else if decision == ReviewStatus::Approved {
                        self.phase = MergePhase::Merge;
                    } else {
                        self.settle(MergeOutcome::NotApproved);
                    }
                },
                _ => {
                    self.fail(&reply);
                },
            },
            MergePhase::AutoMerge => match reply {
                Reply::Done => {
                    self.settle(MergeOutcome::AutoMergeEnabled);
                },
                _ => {
                    self.settle(MergeOutcome::AutoMergeFailed);
                },
            },
            MergePhase::Merge => match reply {
                Reply::Done => {
                    self.settle(MergeOutcome::Merged);
                },
                _ => {
                    self.outcomes[self.index] = MergeOutcome::MergeFailed;
                    self.phase = MergePhase::Done;
                },
            },
            MergePhase::Done => {},
        }
    }

    /// What the walk leaves behind.
    pub fn into_report(self) -> (report: MergeReport)
        ensures
            report.outcomes@ == self@.outcomes,
            merge_error_view(report.error) == self@.error,
    {
        MergeReport { outcomes: self.outcomes, error: self.error }
    }
}

/// A merge of the stack keeps its invariant and comes to its end whatever
/// the replies.
pub proof fn merge_terminates(s: MergeState, reply: ReplyView)
    requires
        s.wf(),
    ensures
        s.advance(reply).wf(),
        s.advance(reply).auto == s.auto,
        s.advance(reply).wait_ci == s.wait_ci,
        s.advance(reply).prs == s.prs,
        s.phase != MergePhase::Done ==> 0 <= s.advance(reply).calls_left() < s.calls_left(),
{
    if s.phase != MergePhase::Done {
        lemma_next_pull(s.prs, s.index + 1);
    }
}

/// Pull requests are merged in the order of the stack: where the host
/// refuses to merge one at once, the walk ends, and no later one is touched.
pub proof fn merge_failure_ends_the_walk(s: MergeState, reply: ReplyView)
    requires
        s.wf(),
        s.phase == MergePhase::Merge,
        !(reply is Done),
    ensures
        s.advance(reply).phase == MergePhase::Done,
        s.advance(reply).outcomes == s.outcomes.update(s.index, MergeOutcome::MergeFailed),
{
}

/// Where the host is only asked to merge later, a refusal is noted and the
/// walk goes on with the next pull request.
pub proof fn auto_merge_failure_is_not_fatal(s: MergeState, reply: ReplyView)
    requires
        s.wf(),
        s.phase == MergePhase::AutoMerge,
    ensures
        s.advance(reply).error == s.error,
        s.advance(reply).index == next_pull(s.prs, s.index + 1),
        s.advance(reply).phase == MergePhase::Done ==> s.advance(reply).index == s.prs.len(),
{
    lemma_next_pull(s.prs, s.index + 1);
}

/// A walk that asks the host to merge later never merges at once, and one
/// that merges at once never asks for later.
pub proof fn merge_mode_is_kept(s: MergeState)
    requires
        s.wf(),
    ensures
        s.auto ==> !(s.pending() is Merge),
        !s.auto ==> !(s.pending() is EnableAutoMerge),
{
}

/// What a merge does with a branch in world `w` when it comes to it.
pub open spec fn merge_outcome(pr: Option<u32>, w: WorldView, auto: bool, wait_ci: bool) -> MergeOutcome {
    match pr {
        None => MergeOutcome::NoPullRequest,
        Some(n) => if w.state_of(n) == PrState::Merged {
            MergeOutcome::AlreadyMerged
        } else if w.state_of(n) == PrState::Closed {
            MergeOutcome::Closed
        } else if wait_ci && w.status_of(n) == CiStatus::Pending {
            MergeOutcome::CiPending
        } else if wait_ci && w.status_of(n) == CiStatus::Failure {
            MergeOutcome::CiFailing
        } else if auto {
            if w.merges(n) {
                MergeOutcome::AutoMergeEnabled
            } else {
                MergeOutcome::AutoMergeFailed
            }
        } else if w.decision_of(n) != ReviewStatus::Approved {
            MergeOutcome::NotApproved
        } else if w.merges(n) {
            MergeOutcome::Merged
        } else {
            MergeOutcome::MergeFailed
        },
    }
}

/// Where a walk that has come to `i` ends: at the first pull request from
/// there on that the host refuses to merge at once, or behind the last.
pub open spec fn merge_stop(prs: Seq<Option<u32>>, w: WorldView, auto: bool, wait_ci: bool, i: int) -> int
    decreases prs.len() - i,
{
    if i < 0 || i >= prs.len() {
        prs.len() as int
    } else if merge_outcome(prs[i], w, auto, wait_ci) == MergeOutcome::MergeFailed {
        i
    } else {
        merge_stop(prs, w, auto, wait_ci, i + 1)
    }
}

/// What a merge of the pull requests `prs` in world `w` notes for each
/// branch: up to where the walk ends, what it did; from there on, nothing.
pub open spec fn merge_run(prs: Seq<Option<u32>>, w: WorldView, auto: bool, wait_ci: bool) -> Seq<
    MergeOutcome,
> {
    let stop = merge_stop(prs, w, auto, wait_ci, 0);
    Seq::new(
        prs.len(),
        |i: int|
            if i <= stop {
                merge_outcome(prs[i], w, auto, wait_ci)
            } else {
                unvisited(prs[i])
            },
    )
}

/// No pull request before `k` is refused.
pub open spec fn none_refused(prs: Seq<Option<u32>>, w: WorldView, auto: bool, wait_ci: bool, k: int) -> bool {
    forall|j: int|
        0 <= j < k ==> #[trigger] merge_outcome(prs[j], w, auto, wait_ci)
            != MergeOutcome::MergeFailed
}

/// A walk that finds no refusal before `k` ends where a walk from `k` ends.
pub proof fn lemma_merge_stop(prs: Seq<Option<u32>>, w: WorldView, auto: bool, wait_ci: bool, i: int, k: int)
    requires
        0 <= i <= k <= prs.len(),
        forall|j: int|
            i <= j < k ==> #[trigger] merge_outcome(prs[j], w, auto, wait_ci)
                != MergeOutcome::MergeFailed,
    ensures
        merge_stop(prs, w, auto, wait_ci, i) == merge_stop(prs, w, auto, wait_ci, k),
    decreases k - i,
{
    if i < k {
        lemma_merge_stop(prs, w, auto, wait_ci, i + 1, k);
    }
}

/// What holds while the pull requests `prs` are merged in world `w`.
pub open spec fn merging(s: MergeState, prs: Seq<Option<u32>>, w: WorldView) -> bool {
    let n = s.number();
    let open = w.state_of(n) != PrState::Merged && w.state_of(n) != PrState::Closed;
    let checked = open && !(s.wait_ci && (w.status_of(n) == CiStatus::Pending || w.status_of(n)
        == CiStatus::Failure));
    let approved = checked && (s.auto || w.decision_of(n) == ReviewStatus::Approved);
    let stopped = s.index < prs.len() && s.outcomes[s.index] == MergeOutcome::MergeFailed;
    &&& s.wf()
    &&& s.prs == prs
    &&& s.error == MergeState::initial(prs, s.auto, s.wait_ci).error
    &&& forall|j: int|
        0 <= j < s.index ==> #[trigger] s.outcomes[j] == merge_outcome(
            prs[j],
            w,
            s.auto,
            s.wait_ci,
        )
    &&& forall|j: int| s.index < j < prs.len() ==> #[trigger] s.outcomes[j] == unvisited(prs[j])
    &&& none_refused(prs, w, s.auto, s.wait_ci, s.index)
    &&& !stopped ==> s.index < prs.len() ==> s.outcomes[s.index] == unvisited(prs[s.index])
    &&& match s.phase {
        MergePhase::State => true,
        MergePhase::Ci => open && s.wait_ci,
        MergePhase::Review => checked,
        MergePhase::AutoMerge => approved,
        MergePhase::Merge => approved,
        MergePhase::Done => s.index == prs.len() || (stopped && merge_outcome(
            prs[s.index],
            w,
            s.auto,
            s.wait_ci,
        ) == MergeOutcome::MergeFailed),
    }
}

/// The world's answer to the pending call keeps a merge of the stack on the
/// course that the walk describes.
pub proof fn lemma_merge_step(s: MergeState, prs: Seq<Option<u32>>, w: WorldView)
    requires
        merging(s, prs, w),
        s.phase != MergePhase::Done,
    ensures
        merging(s.advance(w.reply(s.pending())), prs, w),
        w.after(s.pending()) == w,
{
    lemma_next_pull(prs, s.index + 1);
}

/// Merges the pull requests of `config` in `world`, the one next to the base
/// first. A stack with branches of which none has a pull request is refused.
pub fn run(config: &StackConfig, auto: bool, wait_ci: bool, world: &mut World) -> (report:
    MergeReport)
    ensures
        final(world)@ == old(world)@,
        merge_error_view(report.error) == MergeState::initial(
            pulls_of(config@),
            auto,
            wait_ci,
        ).error,
        report.outcomes@ == merge_run(pulls_of(config@), old(world)@, auto, wait_ci),
{
    let ghost prs = pulls_of(config@);
    let ghost w = world@;
    let mut engine = MergeEngine::new(config, auto, wait_ci);
    proof {
        lemma_next_pull(prs, 0);
    }
    while !engine.is_done()
        invariant
            merging(engine@, prs, w),
            engine@.auto == auto,
            engine@.wait_ci == wait_ci,
            world@ == w,
        decreases engine@.calls_left(),
    {
        let action = engine.action();
        let reply = world.perform(&action);
        proof {
            lemma_merge_step(engine@, prs, w);
        }
        engine.advance(reply);
    }
    proof {
        let s = engine@;
        lemma_merge_stop(prs, w, auto, wait_ci, 0, s.index);
    }
    engine.into_report()
}

} // verus!
