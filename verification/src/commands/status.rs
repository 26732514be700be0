use crate::github::{pr_state_of, PrState};
use crate::port::{Action, ActionView, Reply, ReplyView};
use crate::stack::{BranchView, StackConfig, StackView};
use crate::text::{decimal, decimal_of};
use vstd::prelude::*;
use vstd::string::StringExecFns;

verus! {

/// What a look at the stack is waiting for.
#[derive(Clone, Copy, Debug, PartialEq, Eq, Structural)]
pub enum StatusPhase {
    /// Whether the branch at hand exists.
    Exists,
    /// The pull request of the branch.
    Lookup,
    /// Nothing: the walk is over.
    Done,
}

/// How one branch of the stack stands.
#[derive(Clone, Copy, Debug, PartialEq, Eq, Structural)]
pub enum BranchStatus {
    NotReached,
    /// The branch does not exist any more.
    Deleted,
    NoPullRequest,
    Pull { number: u32, state: PrState },
    /// The stack notes pull request `number`, the host knows none.
    PullNotFound { number: u32 },
    /// The host could not be asked about pull request `number`.
    PullError { number: u32 },
}

/// What is shown for the pull request of a branch.
pub open spec fn label_of(status: BranchStatus) -> Seq<char> {
    match status {
        BranchStatus::NotReached => Seq::empty(),
        BranchStatus::Deleted => "(branch deleted)"@,
        BranchStatus::NoPullRequest => "no PR"@,
        BranchStatus::Pull { number, state } => "PR #"@ + decimal_of(number as nat) + match state {
            PrState::Open => " (open)"@,
            PrState::Merged => " (merged)"@,
            PrState::Closed => " (closed)"@,
            PrState::Unknown => Seq::empty(),
        },
        BranchStatus::PullNotFound { number } => "PR #"@ + decimal_of(number as nat)
            + " (not found)"@,
        BranchStatus::PullError { number } => "PR #"@ + decimal_of(number as nat) + " (error)"@,
    }
}

/// What is shown for the pull request of a branch.
pub fn status_label(status: BranchStatus) -> (label: String)
    ensures
        label@ == label_of(status),
{
    match status {
        BranchStatus::NotReached => String::new(),
        BranchStatus::Deleted => "(branch deleted)".to_owned(),
        BranchStatus::NoPullRequest => "no PR".to_owned(),
        BranchStatus::Pull { number, state } => {
            let label = "PR #".to_owned().concat(decimal(number).as_str());
            match state {
                PrState::Open => label.concat(" (open)"),
                PrState::Merged => label.concat(" (merged)"),
                PrState::Closed => label.concat(" (closed)"),
                PrState::Unknown => {
                    label
                },
            }
        },
        BranchStatus::PullNotFound { number } => "PR #".to_owned().concat(
            decimal(number).as_str(),
        ).concat(" (not found)"),
        BranchStatus::PullError { number } => "PR #".to_owned().concat(
            decimal(number).as_str(),
        ).concat(" (error)"),
    }
}

/// The mathematical value of a look at the stack under way.
pub struct StatusState {
    pub stack: StackView,
    pub phase: StatusPhase,
    pub index: int,
    pub statuses: Seq<BranchStatus>,
    pub error: Option<Seq<char>>,
}

impl StatusState {
    pub open spec fn initial(stack: StackView) -> StatusState {
        StatusState {
            stack,
            phase: if stack.branches.len() == 0 {
                StatusPhase::Done
            } else {
                StatusPhase::Exists
            },
            index: 0,
            statuses: Seq::new(stack.branches.len(), |i: int| BranchStatus::NotReached),
            error: None,
        }
    }

    /// The invariant of a look at the stack.
    pub open spec fn wf(self) -> bool {
        &&& 0 <= self.index <= self.stack.branches.len()
        &&& self.statuses.len() == self.stack.branches.len()
        &&& self.phase != StatusPhase::Done ==> self.index < self.stack.branches.len()
        &&& self.phase == StatusPhase::Lookup ==> self.branch().pr_number is Some
    }

    /// The branch at hand.
    pub open spec fn branch(self) -> BranchView {
        self.stack.branches[self.index]
    }

    /// The call that the walk is waiting for.
    pub open spec fn pending(self) -> ActionView {
        match self.phase {
            StatusPhase::Exists => ActionView::BranchExists { branch: self.branch().name },
            StatusPhase::Lookup => ActionView::PullRequest { branch: self.branch().name },
            StatusPhase::Done => ActionView::Finish,
        }
    }

    /// The branch at hand is done with; the walk turns to the next.
    pub open spec fn settle(self, status: BranchStatus) -> StatusState {
        StatusState {
            phase: if self.index + 1 < self.stack.branches.len() {
                StatusPhase::Exists
            } else {
                StatusPhase::Done
            },
            index: self.index + 1,
            statuses: self.statuses.update(self.index, status),
            ..self
        }
    }

    /// The state after `reply` has come in for the pending call. The host
    /// is asked only about branches that exist and have a pull request
    /// noted; what it says decides the state shown, the number shown is the
    /// one noted.
    pub open spec fn advance(self, reply: ReplyView) -> StatusState {
        match self.phase {
            StatusPhase::Exists => match reply {
                ReplyView::Flag { value: true } => if self.branch().pr_number is Some {
                    StatusState { phase: StatusPhase::Lookup, ..self }
                } else {
                    self.settle(BranchStatus::NoPullRequest)
                },
                ReplyView::Flag { value: false } => self.settle(BranchStatus::Deleted),
                _ => StatusState {
                    phase: StatusPhase::Done,
                    error: Some(reply.failure_text()),
                    ..self
                },
            },
            StatusPhase::Lookup => {
                let number = self.branch().pr_number->0;
                match reply {
                    ReplyView::Pr { found: Some(pr) } => self.settle(
                        BranchStatus::Pull { number, state: pr_state_of(pr.state) },
                    ),
                    ReplyView::Pr { found: None } => self.settle(
                        BranchStatus::PullNotFound { number },
                    ),
                    _ => self.settle(BranchStatus::PullError { number }),
                }
            },
            StatusPhase::Done => self,
        }
    }

    /// How many calls the walk may still ask for, at most.
    pub open spec fn calls_left(self) -> int {
        match self.phase {
            StatusPhase::Exists => 2 * (self.stack.branches.len() - self.index),
            StatusPhase::Lookup => 2 * (self.stack.branches.len() - self.index) - 1,
            StatusPhase::Done => 0,
        }
    }
}

/// A look at each branch of a stack, one call at a time.
pub struct StatusEngine {
    config: StackConfig,
    phase: StatusPhase,
    index: usize,
    statuses: Vec<BranchStatus>,
    error: Option<String>,
}

impl View for StatusEngine {
    type V = StatusState;

    closed spec fn view(&self) -> StatusState {
        StatusState {
            stack: self.config@,
            phase: self.phase,
            index: self.index as int,
            statuses: self.statuses@,
            error: crate::commands::push::text_view(self.error),
        }
    }
}

/// What a look at the stack found.
#[derive(Debug, PartialEq, Eq)]
pub struct StatusReport {
    pub config: StackConfig,
    pub statuses: Vec<BranchStatus>,
    pub error: Option<String>,
}

impl StatusEngine {
    #[verifier::type_invariant]
    spec fn consistent(self) -> bool {
        self@.wf()
    }

    /// A look at the branches of `config` that has not made a call yet.
    pub fn new(config: StackConfig) -> (engine: Self)
        ensures
            engine@ == StatusState::initial(config@),
            engine@.wf(),
    {
        let n = config.branches.len();
        let mut statuses: Vec<BranchStatus> = Vec::new();
        let mut i: usize = 0;
        while i < n
            invariant
                i <= n,
                statuses.len() == i,
                forall|k: int| 0 <= k < i ==> statuses[k] == BranchStatus::NotReached,
            decreases n - i,
        {
            statuses.push(BranchStatus::NotReached);
            i += 1;
        }
        let phase = if n == 0 {
            StatusPhase::Done
        } else {
            StatusPhase::Exists
        };
        let engine = StatusEngine { config, phase, index: 0, statuses, error: None };
        assert(engine@.statuses =~= StatusState::initial(config@).statuses);
        engine
    }

    /// Whether the walk is over.
    pub fn is_done(&self) -> (r: bool)
        ensures
            r == (self@.phase == StatusPhase::Done),
    {
        self.phase == StatusPhase::Done
    }

    /// The call to make now.
    pub fn action(&self) -> (action: Action)
        ensures
            self@.wf(),
            action@ == self@.pending(),
            !action@.is_mutation(),
    {
        proof {
            use_type_invariant(self);
        }
        match self.phase {
            StatusPhase::Exists => Action::BranchExists {
                branch: self.config.branches[self.index].name.clone(),
            },
            StatusPhase::Lookup => Action::PullRequest {
                branch: self.config.branches[self.index].name.clone(),
            },
            StatusPhase::Done => Action::Finish,
        }
    }

    fn settle(&mut self, status: BranchStatus)
        requires
            old(self)@.phase != StatusPhase::Done,
        ensures
            final(self)@ == old(self)@.settle(status),
    {
        proof {
            use_type_invariant(&*self);
        }
        assert(self.index < self.config.branches.len());
        self.statuses[self.index] = status;
        self.phase = if self.index + 1 < self.config.branches.len() {
            StatusPhase::Exists
        } else {
            StatusPhase::Done
        };
        self.index = self.index + 1;
    }

    /// Takes what came of the pending call and moves on to the next one.
    pub fn advance(&mut self, reply: Reply)
        ensures
            old(self)@.wf(),
            final(self)@ == old(self)@.advance(reply@),
            final(self)@.wf(),
    {
        proof {
            use_type_invariant(&*self);
        }
        match self.phase {
            StatusPhase::Exists => match reply {
                Reply::Flag { value: true } => {
                    if self.config.branches[self.index].pr_number.is_some() {
                        self.phase = StatusPhase::Lookup;
                    } else {
                        self.settle(BranchStatus::NoPullRequest);
                    }
                },
                Reply::Flag { value: false } => {
                    self.settle(BranchStatus::Deleted);
                },
                _ => {
                    self.error = Some(reply.failure_text());
                    self.phase = StatusPhase::Done;
                },
            },
            StatusPhase::Lookup => {
                let number = match self.config.branches[self.index].pr_number {
                    Some(number) => number,
                    None => 0,
                };
                match reply {
                    Reply::Pr { found: Some(pr) } => {
                        self.settle(BranchStatus::Pull { number, state: pr.pr_state() });
                    },
                    Reply::Pr { found: None } => {
                        self.settle(BranchStatus::PullNotFound { number });
                    },
                    _ => {
                        self.settle(BranchStatus::PullError { number });
                    },
                }
            },
            StatusPhase::Done => {},
        }
    }

    /// What the walk found.
    pub fn into_report(self) -> (report: StatusReport)
        ensures
            report.config@ == self@.stack,
            report.statuses@ == self@.statuses,
            crate::commands::push::text_view(report.error) == self@.error,
    {
        StatusReport { config: self.config, statuses: self.statuses, error: self.error }
    }
}

/// A look at the stack only asks, and comes to its end whatever the
/// replies.
pub proof fn status_only_asks(s: StatusState, reply: ReplyView)
    requires
        s.wf(),
    ensures
        !s.pending().is_mutation(),
        s.advance(reply).wf(),
        s.advance(reply).stack == s.stack,
        s.phase != StatusPhase::Done ==> 0 <= s.advance(reply).calls_left() < s.calls_left(),
{
}

} // verus!
