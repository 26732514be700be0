use crate::github::CiStatus;
use crate::port::{Action, ActionView, Reply, ReplyView};
use crate::stack::{BranchView, StackConfig, StackView};
use vstd::prelude::*;

verus! {

/// What a synchronisation is waiting for.
#[derive(Clone, Copy, Debug, PartialEq, Eq, Structural)]
pub enum SyncPhase {
    /// The name of the branch that is checked out.
    Start,
    /// Whether the branch at hand exists.
    Exists,
    /// The state of the checks of its pull request.
    Ci,
    /// The pull request of its parent.
    Parent,
    /// The branch being checked out.
    Checkout,
    /// The branch being rebased.
    Rebase,
    /// The failed rebase being aborted.
    Abort,
    /// The branch being pushed.
    Push,
    /// The base of its pull request being moved.
    Retarget,
    /// Whether the branch that was checked out at the start still exists.
    RestoreExists,
    /// The name of the branch that is checked out now.
    RestoreCurrent,
    /// The first branch being checked out again.
    Restore,
    /// Nothing: the synchronisation is over.
    Done,
}

impl SyncPhase {
    /// The phase belongs to the work on one branch.
    pub open spec fn at_branch(self) -> bool {
        self == SyncPhase::Exists || self == SyncPhase::Ci || self == SyncPhase::Parent || self
            == SyncPhase::Checkout || self == SyncPhase::Rebase || self == SyncPhase::Abort || self
            == SyncPhase::Push || self == SyncPhase::Retarget
    }

    /// Only a real run comes to the phase, a dry run never.
    pub open spec fn real_only(self) -> bool {
        self == SyncPhase::Checkout || self == SyncPhase::Rebase || self == SyncPhase::Abort || self
            == SyncPhase::Push || self == SyncPhase::Retarget || self == SyncPhase::RestoreExists
            || self == SyncPhase::RestoreCurrent || self == SyncPhase::Restore
    }
}

/// What a synchronisation did with one branch.
#[derive(Clone, Copy, Debug, PartialEq, Eq, Structural)]
pub enum BranchOutcome {
    /// The walk ended before the branch.
    NotReached,
    /// Skipped: the branch does not exist.
    Missing,
    /// Skipped: the checks of its pull request are still running.
    CiPending,
    /// Skipped: the checks of its pull request failed.
    CiFailing,
    /// Dry run: the branch would be rebased, onto the base where `retarget`.
    Planned { retarget: bool },
    /// The branch was rebased and pushed.
    Synced { retarget: bool, base_updated: bool },
    /// The walk failed at this branch.
    Failed,
}

/// Why a synchronisation failed.
#[derive(Debug, Clone, PartialEq, Eq)]
pub enum SyncError {
    /// The rebase of `branch` did not go through.
    Conflict { branch: String, message: String },
    /// Another call failed.
    Tool { message: String },
}

/// The mathematical value of a `SyncError`.
pub enum SyncErrorView {
    Conflict { branch: Seq<char>, message: Seq<char> },
    Tool { message: Seq<char> },
}

impl View for SyncError {
    type V = SyncErrorView;

    open spec fn view(&self) -> SyncErrorView {
        match *self {
            SyncError::Conflict { branch, message } => SyncErrorView::Conflict {
                branch: branch@,
                message: message@,
            },
            SyncError::Tool { message } => SyncErrorView::Tool { message: message@ },
        }
    }
}

pub open spec fn error_view(error: Option<SyncError>) -> Option<SyncErrorView> {
    match error {
        Some(e) => Some(e@),
        None => None,
    }
}

/// The mathematical value of a synchronisation under way.
pub struct SyncState {
    pub stack: StackView,
    pub dry_run: bool,
    pub wait_ci: bool,
    pub phase: SyncPhase,
    /// The place of the branch at hand.
    pub index: int,
    /// The branch that was checked out at the start.
    pub original: Seq<char>,
    /// The parent of the branch at hand was found merged.
    pub retarget: bool,
    /// A branch before the one at hand was moved onto the base.
    pub changed: bool,
    pub outcomes: Seq<BranchOutcome>,
    pub error: Option<SyncErrorView>,
}

impl SyncState {
    /// The state before the first call.
    pub open spec fn initial(stack: StackView, dry_run: bool, wait_ci: bool) -> SyncState {
        SyncState {
            stack,
            dry_run,
            wait_ci,
            phase: if stack.branches.len() == 0 {
                SyncPhase::Done
            } else {
                SyncPhase::Start
            },
            index: 0,
            original: Seq::empty(),
            retarget: false,
            changed: false,
            outcomes: Seq::new(stack.branches.len(), |i: int| BranchOutcome::NotReached),
            error: None,
        }
    }

    pub open spec fn count(self) -> int {
        self.stack.branches.len() as int
    }

    /// The branch at hand.
    pub open spec fn branch(self) -> BranchView {
        self.stack.branches[self.index]
    }

    /// The invariant of a synchronisation.
    pub open spec fn wf(self) -> bool {
        &&& 0 <= self.index <= self.count()
        &&& self.outcomes.len() == self.count()
        &&& self.phase.at_branch() ==> self.index < self.count()
        &&& self.phase == SyncPhase::Start ==> self.index == 0 && self.count() > 0
        &&& self.phase == SyncPhase::Ci || self.phase == SyncPhase::Retarget
            ==> self.branch().pr_number is Some
        &&& self.dry_run ==> !self.phase.real_only()
    }

    /// The branch that the branch at hand is rebased onto.
    pub open spec fn target(self) -> Seq<char> {
        if self.retarget {
            self.stack.base_branch
        } else {
            self.branch().parent
        }
    }

    /// The branch at hand rests on a branch of the stack that has a pull
    /// request: whether that one was merged has to be asked.
    pub open spec fn needs_parent_lookup(self) -> bool {
        let parent = self.branch().parent;
        &&& parent != self.stack.base_branch
        &&& self.stack.has_branch(parent)
        &&& self.stack.branches[self.stack.index_of(parent)].pr_number is Some
    }

    /// Whether the stack is to be saved once the synchronisation is over.
    pub open spec fn should_save(self) -> bool {
        self.changed && !self.dry_run
    }

    /// The call that the synchronisation is waiting for.
    pub open spec fn pending(self) -> ActionView {
        match self.phase {
            SyncPhase::Start => ActionView::CurrentBranch,
            SyncPhase::Exists => ActionView::BranchExists { branch: self.branch().name },
            SyncPhase::Ci => match self.branch().pr_number {
                Some(number) => ActionView::CiStatus { number },
                None => ActionView::Finish,
            },
            SyncPhase::Parent => ActionView::PullRequest { branch: self.branch().parent },
            SyncPhase::Checkout => ActionView::Checkout { branch: self.branch().name },
            SyncPhase::Rebase => ActionView::Rebase { onto: self.target() },
            SyncPhase::Abort => ActionView::AbortRebase,
            SyncPhase::Push => ActionView::Push { branch: self.branch().name, force: true },
            SyncPhase::Retarget => match self.branch().pr_number {
                Some(number) => ActionView::UpdatePrBase { number, base: self.stack.base_branch },
                None => ActionView::Finish,
            },
            SyncPhase::RestoreExists => ActionView::BranchExists { branch: self.original },
            SyncPhase::RestoreCurrent => ActionView::CurrentBranch,
            SyncPhase::Restore => ActionView::Checkout { branch: self.original },
            SyncPhase::Done => ActionView::Finish,
        }
    }

    pub open spec fn at(self, phase: SyncPhase) -> SyncState {
        SyncState { phase, ..self }
    }

    /// The synchronisation ends at once with `error`.
    pub open spec fn halt(self, error: SyncErrorView) -> SyncState {
        SyncState { phase: SyncPhase::Done, error: Some(error), ..self }
    }

    /// The walk fails at the branch at hand. What may have been checked out
    /// is put back before the end.
    pub open spec fn fail(self, error: SyncErrorView) -> SyncState {
        SyncState {
            phase: if self.dry_run {
                SyncPhase::Done
            } else {
                SyncPhase::Restore
            },
            outcomes: self.outcomes.update(self.index, BranchOutcome::Failed),
            error: Some(error),
            ..self
        }
    }

    /// The rebase of the branch at hand failed: it is aborted first.
    pub open spec fn conflict(self, message: Seq<char>) -> SyncState {
        SyncState {
            phase: SyncPhase::Abort,
            outcomes: self.outcomes.update(self.index, BranchOutcome::Failed),
            error: Some(SyncErrorView::Conflict { branch: self.branch().name, message }),
            ..self
        }
    }

    /// The walk turns to the branch at `i`, or to its end where there is none.
    pub open spec fn enter(self, i: int) -> SyncState {
        if i < self.count() {
            SyncState { index: i, phase: SyncPhase::Exists, retarget: false, ..self }
        } else {
            SyncState {
                index: self.count(),
                phase: if self.dry_run {
                    SyncPhase::Done
                } else {
                    SyncPhase::RestoreExists
                },
                retarget: false,
                ..self
            }
        }
    }

    /// The branch at hand is left as it is.
    pub open spec fn skip(self, outcome: BranchOutcome) -> SyncState {
        SyncState { outcomes: self.outcomes.update(self.index, outcome), ..self }.enter(
            self.index + 1,
        )
    }

    /// The work on the branch at hand is over: a move onto the base is now
    /// written into the stack.
    pub open spec fn complete(self, outcome: BranchOutcome) -> SyncState {
        SyncState {
            stack: if self.retarget {
                self.stack.retargeted(self.index)
            } else {
                self.stack
            },
            changed: self.changed || self.retarget,
            outcomes: self.outcomes.update(self.index, outcome),
            ..self
        }.enter(self.index + 1)
    }

    /// It is known whether the parent was merged: a dry run notes what would
    /// be done, a real one starts by checking the branch out.
    pub open spec fn plan(self, merged: bool) -> SyncState {
        let noted = SyncState { retarget: merged, ..self };
        if self.dry_run {
            noted.complete(BranchOutcome::Planned { retarget: merged })
        } else {
            noted.at(SyncPhase::Checkout)
        }
    }

    /// The branch exists and its checks do not hold it back.
    pub open spec fn gate_passed(self) -> SyncState {
        if self.needs_parent_lookup() {
            self.at(SyncPhase::Parent)
        } else {
            self.plan(false)
        }
    }

    /// The state after `reply` has come in for the pending call.
    pub open spec fn advance(self, reply: ReplyView) -> SyncState {
        let tool = SyncErrorView::Tool { message: reply.failure_text() };
        match self.phase {
            SyncPhase::Start => match reply {
                ReplyView::Name { name } => SyncState { original: name, ..self }.enter(0),
                _ => self.halt(tool),
            },
            SyncPhase::Exists => match reply {
                ReplyView::Flag { value: true } => if self.wait_ci && self.branch().pr_number
                    is Some {
                    self.at(SyncPhase::Ci)
                } else {
                    self.gate_passed()
                },
                ReplyView::Flag { value: false } => self.skip(BranchOutcome::Missing),
                _ => self.fail(tool),
            },
            SyncPhase::Ci => match reply {
                ReplyView::Ci { status: CiStatus::Pending } => self.skip(BranchOutcome::CiPending),
                ReplyView::Ci { status: CiStatus::Failure } => self.skip(BranchOutcome::CiFailing),
                _ => self.gate_passed(),
            },
            SyncPhase::Parent => self.plan(reply.reports_merged()),
            SyncPhase::Checkout => match reply {
                ReplyView::Done => self.at(SyncPhase::Rebase),
                _ => self.fail(tool),
            },
            SyncPhase::Rebase => match reply {
                ReplyView::Done => self.at(SyncPhase::Push),
                _ => self.conflict(reply.failure_text()),
            },
            SyncPhase::Abort => self.at(SyncPhase::Restore),
            SyncPhase::Push => match reply {
                ReplyView::Done => if self.retarget && self.branch().pr_number is Some {
                    self.at(SyncPhase::Retarget)
                } else {
                    self.complete(
                        BranchOutcome::Synced { retarget: self.retarget, base_updated: false },
                    )
                },
                _ => self.fail(tool),
            },
            SyncPhase::Retarget => self.complete(
                BranchOutcome::Synced { retarget: self.retarget, base_updated: reply is Done },
            ),
            SyncPhase::RestoreExists => match reply {
                ReplyView::Flag { value: true } => self.at(SyncPhase::RestoreCurrent),
                ReplyView::Flag { value: false } => self.at(SyncPhase::Done),
                _ => self.halt(tool),
            },
            SyncPhase::RestoreCurrent => match reply {
                ReplyView::Name { name } => if name == self.original {
                    self.at(SyncPhase::Done)
                } else {
                    self.at(SyncPhase::Restore)
                },
                _ => self.halt(tool),
            },
            SyncPhase::Restore => if self.error is Some {
                self.at(SyncPhase::Done)
            } else {
                match reply {
                    ReplyView::Done => self.at(SyncPhase::Done),
                    _ => self.halt(tool),
                }
            },
            SyncPhase::Done => self,
        }
    }
}

/// A synchronisation of a stack, one call at a time: it names the call to
/// make, takes what came of it, and names the next.
pub struct SyncEngine {
    config: StackConfig,
    dry_run: bool,
    wait_ci: bool,
    phase: SyncPhase,
    index: usize,
    original: String,
    retarget: bool,
    changed: bool,
    outcomes: Vec<BranchOutcome>,
    error: Option<SyncError>,
}

impl View for SyncEngine {
    type V = SyncState;

    closed spec fn view(&self) -> SyncState {
        SyncState {
            stack: self.config@,
            dry_run: self.dry_run,
            wait_ci: self.wait_ci,
            phase: self.phase,
            index: self.index as int,
            original: self.original@,
            retarget: self.retarget,
            changed: self.changed,
            outcomes: self.outcomes@,
            error: error_view(self.error),
        }
    }
}

/// What a synchronisation leaves behind.
#[derive(Debug, PartialEq, Eq)]
pub struct SyncReport {
    pub config: StackConfig,
    pub outcomes: Vec<BranchOutcome>,
    pub error: Option<SyncError>,
    /// Whether the stack has changed and is to be saved.
    pub save: bool,
}

impl SyncEngine {
    #[verifier::type_invariant]
    spec fn consistent(self) -> bool {
        self@.wf()
    }

    /// A synchronisation of `config` that has not made a call yet. A dry run
    /// only notes what a real one would do; with `wait_ci` a branch whose
    /// checks are running or have failed is left alone.
    pub fn new(config: StackConfig, dry_run: bool, wait_ci: bool) -> (engine: Self)
        ensures
            engine@ == SyncState::initial(config@, dry_run, wait_ci),
            engine@.wf(),
    {
        let n = config.branches.len();
        let mut outcomes: Vec<BranchOutcome> = Vec::new();
        let mut i: usize = 0;
        while i < n
            invariant
                i <= n,
                outcomes.len() == i,
                forall|k: int| 0 <= k < i ==> outcomes[k] == BranchOutcome::NotReached,
            decreases n - i,
        {
            outcomes.push(BranchOutcome::NotReached);
            i += 1;
        }
        let phase = if n == 0 {
            SyncPhase::Done
        } else {
            SyncPhase::Start
        };
        let engine = SyncEngine {
            config,
            dry_run,
            wait_ci,
            phase,
            index: 0,
            original: String::new(),
            retarget: false,
            changed: false,
            outcomes,
            error: None,
        };
        assert(engine@.outcomes =~= SyncState::initial(config@, dry_run, wait_ci).outcomes);
        engine
    }

    /// Whether the synchronisation is over.
    pub fn is_done(&self) -> (r: bool)
        ensures
            r == (self@.phase == SyncPhase::Done),
    {
        self.phase == SyncPhase::Done
    }

    /// The call to make now. In a dry run it never changes the repository
    /// or the host.
    pub fn action(&self) -> (action: Action)
        ensures
            self@.wf(),
            action@ == self@.pending(),
            self@.dry_run ==> !action@.is_mutation(),
    {
        proof {
            use_type_invariant(self);
        }
        match self.phase {
            SyncPhase::Start => Action::CurrentBranch,
            SyncPhase::Exists => Action::BranchExists {
                branch: self.config.branches[self.index].name.clone(),
            },
            SyncPhase::Ci => match self.config.branches[self.index].pr_number {
                Some(number) => Action::CiStatus { number },
                None => Action::Finish,
            },
            SyncPhase::Parent => Action::PullRequest {
                branch: self.config.branches[self.index].parent.clone(),
            },
            SyncPhase::Checkout => Action::Checkout {
                branch: self.config.branches[self.index].name.clone(),
            },
            SyncPhase::Rebase => Action::Rebase {
                onto: if self.retarget {
                    self.config.base_branch.clone()
                } else {
                    self.config.branches[self.index].parent.clone()
                },
            },
            SyncPhase::Abort => Action::AbortRebase,
            SyncPhase::Push => Action::Push {
                branch: self.config.branches[self.index].name.clone(),
                force: true,
            },
            SyncPhase::Retarget => match self.config.branches[self.index].pr_number {
                Some(number) => Action::UpdatePrBase {
                    number,
                    base: self.config.base_branch.clone(),
                },
                None => Action::Finish,
            },
            SyncPhase::RestoreExists => Action::BranchExists { branch: self.original.clone() },
            SyncPhase::RestoreCurrent => Action::CurrentBranch,
            SyncPhase::Restore => Action::Checkout { branch: self.original.clone() },
            SyncPhase::Done => Action::Finish,
        }
    }

    fn enter(&mut self, i: usize)
        requires
            i <= old(self)@.count(),
            old(self)@.phase.at_branch() || old(self)@.phase == SyncPhase::Start,
        ensures
            final(self)@ == old(self)@.enter(i as int),
    {
        proof {
            use_type_invariant(&*self);
        }
        self.retarget = false;
        if i < self.config.branches.len() {
            self.phase = SyncPhase::Exists;
            self.index = i;
        } else {
            self.phase = if self.dry_run {
                SyncPhase::Done
            } else {
                SyncPhase::RestoreExists
            };
            self.index = self.config.branches.len();
        }
    }

    fn skip(&mut self, outcome: BranchOutcome)
        requires
            old(self)@.phase.at_branch(),
        ensures
            final(self)@ == old(self)@.skip(outcome),
    {
        proof {
            use_type_invariant(&*self);
        }
        assert(self.index < self.config.branches.len());
        let next = self.index + 1;
        self.outcomes[self.index] = outcome;
        self.enter(next);
    }

    fn complete(&mut self, outcome: BranchOutcome)
        requires
            old(self)@.phase.at_branch(),
        ensures
            final(self)@ == old(self)@.complete(outcome),
    {
        proof {
            use_type_invariant(&*self);
        }
        assert(self.index < self.config.branches.len());
        let next = self.index + 1;
        self.phase = SyncPhase::Exists;
        if self.retarget {
            let base = self.config.base_branch.clone();
            self.config.branches[self.index].parent = base;
            assert(self.config@.branches =~= old(self).config@.retargeted(
                self.index as int,
            ).branches);
            self.changed = true;
        }
        self.outcomes[self.index] = outcome;
        self.enter(next);
    }

    fn fail(&mut self, error: SyncError)
        requires
            old(self)@.phase.at_branch(),
        ensures
            final(self)@ == old(self)@.fail(error@),
    {
        proof {
            use_type_invariant(&*self);
        }
        self.outcomes[self.index] = BranchOutcome::Failed;
        self.error = Some(error);
        self.phase = if self.dry_run {
            SyncPhase::Done
        } else {
            SyncPhase::Restore
        };
    }

    fn halt(&mut self, error: SyncError)
        ensures
            final(self)@ == old(self)@.halt(error@),
    {
        proof {
            use_type_invariant(&*self);
        }
        self.error = Some(error);
        self.phase = SyncPhase::Done;
    }

    fn plan(&mut self, merged: bool)
        requires
            old(self)@.phase.at_branch(),
        ensures
            final(self)@ == old(self)@.plan(merged),
    {
        proof {
            use_type_invariant(&*self);
        }
        self.retarget = merged;
        if self.dry_run {
            self.complete(BranchOutcome::Planned { retarget: merged });
        } else {
            self.phase = SyncPhase::Checkout;
        }
    }

    fn needs_parent_lookup(&self) -> (r: bool)
        requires
            self@.phase.at_branch(),
        ensures
            r == self@.needs_parent_lookup(),
    {
        proof {
            use_type_invariant(self);
        }
        let branch = &self.config.branches[self.index];
        if *branch.parent.as_str() == *self.config.base_branch.as_str() {
            return false;
        }
        match self.config.find_branch(branch.parent.as_str()) {
            Some(j) => self.config.branches[j].pr_number.is_some(),
            None => false,
        }
    }

    fn gate_passed(&mut self)
        requires
            old(self)@.phase == SyncPhase::Exists || old(self)@.phase == SyncPhase::Ci,
        ensures
            final(self)@ == old(self)@.gate_passed(),
    {
        proof {
            use_type_invariant(&*self);
        }
        if self.needs_parent_lookup() {
            self.phase = SyncPhase::Parent;
        } else {
            self.plan(false);
        }
    }

    /// Takes what came of the pending call and moves on to the next one.
    pub fn advance(&mut self, reply: Reply)
        ensures
            old(self)@.wf(),
            final(self)@ == old(self)@.advance(reply@),
            final(self)@.wf(),
    {
        proof {
            use_type_invariant(&*self);
        }
        match self.phase {
            SyncPhase::Start => match reply {
                Reply::Name { name } => {
                    self.original = name;
                    self.enter(0);
                },
                _ => {
                    let message = reply.failure_text();
                    self.halt(SyncError::Tool { message });
                },
            },
            SyncPhase::Exists => match reply {
                Reply::Flag { value: true } => {
                    if self.wait_ci && self.config.branches[self.index].pr_number.is_some() {
                        self.phase = SyncPhase::Ci;
                    } else {
                        self.gate_passed();
                    }
                },
                Reply::Flag { value: false } => {
                    self.skip(BranchOutcome::Missing);
                },
                _ => {
                    let message = reply.failure_text();
                    self.fail(SyncError::Tool { message });
                },
            },
            SyncPhase::Ci => match reply {
                Reply::Ci { status: CiStatus::Pending } => {
                    self.skip(BranchOutcome::CiPending);
                },
                Reply::Ci { status: CiStatus::Failure } => {
                    self.skip(BranchOutcome::CiFailing);
                },
                _ => {
                    self.gate_passed();
                },
            },
            SyncPhase::Parent => {
                let merged = reply.reports_merged();
                self.plan(merged);
            },
            SyncPhase::Checkout => match reply {
                Reply::Done => {
                    self.phase = SyncPhase::Rebase;
                },
                _ => {
                    let message = reply.failure_text();
                    self.fail(SyncError::Tool { message });
                },
            },
            SyncPhase::Rebase => match reply {
                Reply::Done => {
                    self.phase = SyncPhase::Push;
                },
                _ => {
                    let message = reply.failure_text();
                    let branch = self.config.branches[self.index].name.clone();
                    self.outcomes[self.index] = BranchOutcome::Failed;
                    self.error = Some(SyncError::Conflict { branch, message });
                    self.phase = SyncPhase::Abort;
                },
            },
            SyncPhase::Abort => {
                self.phase = SyncPhase::Restore;
            },
            SyncPhase::Push => match reply {
                Reply::Done => {
                    if self.retarget && self.config.branches[self.index].pr_number.is_some() {
                        self.phase = SyncPhase::Retarget;
                    } else {
                        let retarget = self.retarget;
                        self.complete(BranchOutcome::Synced { retarget, base_updated: false });
                    }
                },
                _ => {
                    let message = reply.failure_text();
                    self.fail(SyncError::Tool { message });
                },
            },
            SyncPhase::Retarget => {
                let base_updated = match reply {
                    Reply::Done => true,
                    _ => false,
                };
                let retarget = self.retarget;
                self.complete(BranchOutcome::Synced { retarget, base_updated });
            },
            SyncPhase::RestoreExists => match reply {
                Reply::Flag { value: true } => {
                    self.phase = SyncPhase::RestoreCurrent;
                },
                Reply::Flag { value: false } => {
                    self.phase = SyncPhase::Done;
                },
                _ => {
                    let message = reply.failure_text();
                    self.halt(SyncError::Tool { message });
                },
            },
            SyncPhase::RestoreCurrent => match reply {
                Reply::Name { name } => {
                    if name == self.original {
                        self.phase = SyncPhase::Done;
                    } else {
                        self.phase = SyncPhase::Restore;
                    }
                },
                _ => {
                    let message = reply.failure_text();
                    self.halt(SyncError::Tool { message });
                },
            },
            SyncPhase::Restore => {
                if self.error.is_some() {
                    self.phase = SyncPhase::Done;
                } else {
                    match reply {
                        Reply::Done => {
                            self.phase = SyncPhase::Done;
                        },
                        _ => {
                            let message = reply.failure_text();
                            self.halt(SyncError::Tool { message });
                        },
                    }
                }
            },
            SyncPhase::Done => {},
        }
    }

    /// What the synchronisation leaves behind.
    pub fn into_report(self) -> (report: SyncReport)
        ensures
            report.config@ == self@.stack,
            report.outcomes@ == self@.outcomes,
            error_view(report.error) == self@.error,
            report.save == self@.should_save(),
    {
        let save = self.changed && !self.dry_run;
        SyncReport { config: self.config, outcomes: self.outcomes, error: self.error, save }
    }
}

/// Every step of a synchronisation keeps its invariant, and never changes
/// what kind of run it is.
pub proof fn sync_keeps_its_invariant(s: SyncState, reply: ReplyView)
    requires
        s.wf(),
    ensures
        s.advance(reply).wf(),
        s.advance(reply).dry_run == s.dry_run,
        s.advance(reply).wait_ci == s.wait_ci,
{
}

/// A dry run never asks for a call that changes the repository or the host,
/// whatever it has found out so far.
pub proof fn dry_run_is_pure(s: SyncState)
    requires
        s.wf(),
        s.dry_run,
    ensures
        !s.pending().is_mutation(),
{
}

/// A rebase that fails is fatal and is cleaned up after: the rebase is
/// aborted, the branch that was checked out at the start is checked out
/// again, and only then is the synchronisation over, with the conflict as
/// its error, whatever the two clean-up calls come to. The branch is noted
/// as failed, no branch after it is touched, and the stack stays as it was
/// before the branch was taken up.
pub proof fn conflict_is_recovered(s: SyncState, failure: ReplyView, r2: ReplyView, r3: ReplyView)
    requires
        s.wf(),
        s.phase == SyncPhase::Rebase,
        !(failure is Done),
    ensures
        ({
            let a = s.advance(failure);
            let b = a.advance(r2);
            let c = b.advance(r3);
            &&& a.pending() == ActionView::AbortRebase
            &&& b.pending() == ActionView::Checkout { branch: s.original }
            &&& c.phase == SyncPhase::Done
            &&& c.error == Some(
                SyncErrorView::Conflict {
                    branch: s.branch().name,
                    message: failure.failure_text(),
                },
            )
            &&& c.outcomes == s.outcomes.update(s.index, BranchOutcome::Failed)
            &&& c.stack == s.stack
            &&& c.changed == s.changed
            &&& c.index == s.index
        }),
{
}

/// A real run that fails while it works on a branch does not end before it
/// has asked for the branch that was checked out at the start to be checked
/// out again.
pub proof fn failure_restores_the_checkout(s: SyncState, reply: ReplyView)
    requires
        s.wf(),
        s.phase.at_branch(),
        !s.dry_run,
        s.error is None,
        s.advance(reply).error is Some,
    ensures
        s.advance(reply).phase == SyncPhase::Abort || s.advance(reply).phase == SyncPhase::Restore,
        s.advance(reply).at(SyncPhase::Restore).pending() == (ActionView::Checkout {
            branch: s.original,
        }),
        s.advance(reply).stack == s.stack,
        s.advance(reply).outcomes == s.outcomes.update(s.index, BranchOutcome::Failed),
{
}

/// Whatever the replies, a synchronisation leaves a well-formed stack well
/// formed, with the same base, the same names and the same pull requests.
pub proof fn advance_keeps_well_formed(s: SyncState, reply: ReplyView)
    requires
        s.wf(),
        s.stack.well_formed(),
    ensures
        s.advance(reply).stack.well_formed(),
        s.advance(reply).stack.base_branch == s.stack.base_branch,
        s.advance(reply).stack.branches.len() == s.stack.branches.len(),
        forall|i: int|
            0 <= i < s.stack.branches.len() ==> (#[trigger] s.advance(reply).stack.branches[i]).name
                == s.stack.branches[i].name && s.advance(reply).stack.branches[i].pr_number
                == s.stack.branches[i].pr_number,
{
    if s.phase.at_branch() {
        crate::stack::retarget_keeps_well_formed(s.stack, s.index);
    }
}

/// The host follows the stack: once the branch at hand has been moved onto
/// the base and pushed, the host is asked to move its pull request onto the
/// base too. Where that call succeeds the branch is noted as moved on both
/// sides; where it fails the walk goes on and the outcome says that the host
/// was left behind. Either way the stack has the branch on the base.
pub proof fn retarget_reaches_the_host(s: SyncState, reply: ReplyView)
    requires
        s.wf(),
        s.phase == SyncPhase::Retarget,
        s.retarget,
    ensures
        s.pending() == (ActionView::UpdatePrBase {
            number: s.branch().pr_number->0,
            base: s.stack.base_branch,
        }),
        s.advance(reply).stack.branches[s.index].parent == s.stack.base_branch,
        s.advance(reply).outcomes[s.index] == (BranchOutcome::Synced {
            retarget: true,
            base_updated: reply is Done,
        }),
        s.advance(reply).error == s.error,
        s.advance(reply).changed,
{
}

} // verus!
