use crate::commands::pr::{body_of, generate_stack_visualization};
use crate::commands::push::text_view;
use crate::port::{Action, ActionView, Reply, ReplyView};
use crate::stack::{BranchView, StackConfig, StackView};
use vstd::prelude::*;
use vstd::string::StringExecFns;

verus! {

/// What the opening of pull requests is waiting for.
#[derive(Clone, Copy, Debug, PartialEq, Eq, Structural)]
pub enum CreatePhase {
    /// Whether the branch at hand exists.
    Exists,
    /// The pull request that the branch may have already.
    Lookup,
    /// The subject of the last commit of the branch.
    Title,
    /// The pull request being opened.
    Create,
    /// Nothing: the walk is over.
    Done,
}

/// What the opening of pull requests did with one branch.
#[derive(Clone, Copy, Debug, PartialEq, Eq, Structural)]
pub enum CreateOutcome {
    NotReached,
    /// Skipped: the branch does not exist.
    Missing,
    /// Skipped: the branch had pull request `number` already.
    Found { number: u32 },
    Created { number: u32 },
    /// The host did not open a pull request. The walk went on.
    Failed,
}

/// The stack with pull request `number` noted for the branch at `i`.
pub open spec fn with_pull(m: StackView, i: int, number: u32) -> StackView {
    StackView {
        base_branch: m.base_branch,
        branches: m.branches.update(
            i,
            BranchView {
                name: m.branches[i].name,
                parent: m.branches[i].parent,
                pr_number: Some(number),
            },
        ),
    }
}

/// How many of the outcomes are pull requests that were opened.
pub open spec fn created_in(outcomes: Seq<CreateOutcome>) -> nat
    decreases outcomes.len(),
{
    if outcomes.len() == 0 {
        0
    } else {
        created_in(outcomes.drop_last()) + if outcomes.last() is Created {
            1nat
        } else {
            0nat
        }
    }
}

/// How many of the outcomes are branches that were passed over.
pub open spec fn skipped_in(outcomes: Seq<CreateOutcome>) -> nat
    decreases outcomes.len(),
{
    if outcomes.len() == 0 {
        0
    } else {
        skipped_in(outcomes.drop_last()) + if outcomes.last() is Missing || outcomes.last()
            is Found {
            1nat
        } else {
            0nat
        }
    }
}

/// The mathematical value of an opening of pull requests under way.
pub struct CreateState {
    pub stack: StackView,
    pub draft: bool,
    pub template: Option<Seq<char>>,
    pub phase: CreatePhase,
    pub index: int,
    /// The title of the pull request to open.
    pub title: Seq<char>,
    pub outcomes: Seq<CreateOutcome>,
    pub error: Option<Seq<char>>,
}

impl CreateState {
    pub open spec fn initial(stack: StackView, draft: bool, template: Option<Seq<char>>) -> CreateState {
        CreateState {
            stack,
            draft,
            template,
            phase: if stack.branches.len() == 0 {
                CreatePhase::Done
            } else {
                CreatePhase::Exists
            },
            index: 0,
            title: Seq::empty(),
            outcomes: Seq::new(stack.branches.len(), |i: int| CreateOutcome::NotReached),
            error: None,
        }
    }

    /// The invariant of an opening of pull requests.
    pub open spec fn wf(self) -> bool {
        &&& 0 <= self.index <= self.stack.branches.len()
        &&& self.outcomes.len() == self.stack.branches.len()
        &&& self.phase != CreatePhase::Done ==> self.index < self.stack.branches.len()
    }

    /// The branch at hand.
    pub open spec fn branch(self) -> BranchView {
        self.stack.branches[self.index]
    }

    /// The title of a pull request whose branch has no commit to take it
    /// from.
    pub open spec fn fallback_title(self) -> Seq<char> {
        "Changes in "@ + self.branch().name
    }

    /// The call that the walk is waiting for.
    pub open spec fn pending(self) -> ActionView {
        match self.phase {
            CreatePhase::Exists => ActionView::BranchExists { branch: self.branch().name },
            CreatePhase::Lookup => ActionView::PullRequest { branch: self.branch().name },
            CreatePhase::Title => ActionView::CommitTitle { branch: self.branch().name },
            CreatePhase::Create => ActionView::CreatePr {
                head: self.branch().name,
                base: self.branch().parent,
                title: self.title,
                body: body_of(self.stack, self.branch().name, self.template),
                draft: self.draft,
            },
            CreatePhase::Done => ActionView::Finish,
        }
    }

    pub open spec fn at(self, phase: CreatePhase) -> CreateState {
        CreateState { phase, ..self }
    }

    /// The branch at hand is done with; the walk turns to the next.
    pub open spec fn settle(self, outcome: CreateOutcome) -> CreateState {
        CreateState {
            phase: if self.index + 1 < self.stack.branches.len() {
                CreatePhase::Exists
            } else {
                CreatePhase::Done
            },
            index: self.index + 1,
            outcomes: self.outcomes.update(self.index, outcome),
            ..self
        }
    }

    /// Pull request `number` is noted for the branch at hand.
    pub open spec fn record(self, number: u32) -> CreateState {
        CreateState { stack: with_pull(self.stack, self.index, number), ..self }
    }

    /// The state after `reply` has come in for the pending call. A pull
    /// request that the host does not open is noted and the walk goes on;
    /// only a failure to find out whether a branch exists ends it.
    pub open spec fn advance(self, reply: ReplyView) -> CreateState {
        match self.phase {
            CreatePhase::Exists => match reply {
                ReplyView::Flag { value: true } => self.at(CreatePhase::Lookup),
                ReplyView::Flag { value: false } => self.settle(CreateOutcome::Missing),
                _ => CreateState {
                    phase: CreatePhase::Done,
                    error: Some(reply.failure_text()),
                    ..self
                },
            },
            CreatePhase::Lookup => match reply {
                ReplyView::Pr { found: Some(pr) } => self.record(pr.number).settle(
                    CreateOutcome::Found { number: pr.number },
                ),
                _ => self.at(CreatePhase::Title),
            },
            CreatePhase::Title => match reply {
                ReplyView::Text { text } => CreateState {
                    phase: CreatePhase::Create,
                    title: text,
                    ..self
                },
                _ => CreateState {
                    phase: CreatePhase::Create,
                    title: self.fallback_title(),
                    ..self
                },
            },
            CreatePhase::Create => match reply {
                ReplyView::Number { number } => self.record(number).settle(
                    CreateOutcome::Created { number },
                ),
                _ => self.settle(CreateOutcome::Failed),
            },
            CreatePhase::Done => self,
        }
    }

    /// How many calls the walk may still ask for, at most.
    pub open spec fn calls_left(self) -> int {
        match self.phase {
            CreatePhase::Exists => 4 * (self.stack.branches.len() - self.index),
            CreatePhase::Lookup => 4 * (self.stack.branches.len() - self.index) - 1,
            CreatePhase::Title => 4 * (self.stack.branches.len() - self.index) - 2,
            CreatePhase::Create => 4 * (self.stack.branches.len() - self.index) - 3,
            CreatePhase::Done => 0,
        }
    }
}

/// An opening of pull requests for the branches of a stack, one call at a
/// time.
pub struct CreateEngine {
    config: StackConfig,
    draft: bool,
    template: Option<String>,
    phase: CreatePhase,
    index: usize,
    title: String,
    outcomes: Vec<CreateOutcome>,
    error: Option<String>,
}

impl View for CreateEngine {
    type V = CreateState;

    closed spec fn view(&self) -> CreateState {
        CreateState {
            stack: self.config@,
            draft: self.draft,
            template: text_view(self.template),
            phase: self.phase,
            index: self.index as int,
            title: self.title@,
            outcomes: self.outcomes@,
            error: text_view(self.error),
        }
    }
}

/// What an opening of pull requests leaves behind.
#[derive(Debug, PartialEq, Eq)]
pub struct CreateReport {
    /// The stack with the pull requests that were found or opened.
    pub config: StackConfig,
    pub outcomes: Vec<CreateOutcome>,
    pub created: usize,
    pub skipped: usize,
    pub error: Option<String>,
}

impl CreateEngine {
    #[verifier::type_invariant]
    spec fn consistent(self) -> bool {
        self@.wf()
    }

    /// An opening of pull requests for the branches of `config` that has not
    /// made a call yet. The text of each pull request is written into
    /// `template` where one is given.
    pub fn new(config: StackConfig, draft: bool, template: Option<String>) -> (engine: Self)
        ensures
            engine@ == CreateState::initial(config@, draft, text_view(template)),
            engine@.wf(),
    {
        let n = config.branches.len();
        let mut outcomes: Vec<CreateOutcome> = Vec::new();
        let mut i: usize = 0;
        while i < n
            invariant
                i <= n,
                outcomes.len() == i,
                forall|k: int| 0 <= k < i ==> outcomes[k] == CreateOutcome::NotReached,
            decreases n - i,
        {
            outcomes.push(CreateOutcome::NotReached);
            i += 1;
        }
        let phase = if n == 0 {
            CreatePhase::Done
        } else {
            CreatePhase::Exists
        };
        let engine = CreateEngine {
            config,
            draft,
            template,
            phase,
            index: 0,
            title: String::new(),
            outcomes,
            error: None,
        };
        assert(engine@.outcomes =~= CreateState::initial(
            config@,
            draft,
            text_view(template),
        ).outcomes);
        engine
    }

    /// Whether the walk is over.
    pub fn is_done(&self) -> (r: bool)
        ensures
            r == (self@.phase == CreatePhase::Done),
    {
        self.phase == CreatePhase::Done
    }

    /// The call to make now.
    pub fn action(&self) -> (action: Action)
        ensures
            self@.wf(),
            action@ == self@.pending(),
    {
        proof {
            use_type_invariant(self);
        }
        if self.phase == CreatePhase::Done {
            return Action::Finish;
        }
        let branch = &self.config.branches[self.index];
        match self.phase {
            CreatePhase::Exists => Action::BranchExists { branch: branch.name.clone() },
            CreatePhase::Lookup => Action::PullRequest { branch: branch.name.clone() },
            CreatePhase::Title => Action::CommitTitle { branch: branch.name.clone() },
            CreatePhase::Create => {
                let body = match &self.template {
                    Some(t) => generate_stack_visualization(
                        &self.config,
                        branch.name.as_str(),
                        Some(t.as_str()),
                    ),
                    None => generate_stack_visualization(&self.config, branch.name.as_str(), None),
                };
                Action::CreatePr {
                    head: branch.name.clone(),
                    base: branch.parent.clone(),
                    title: self.title.clone(),
                    body,
                    draft: self.draft,
                }
            },
            CreatePhase::Done => Action::Finish,
        }
    }

    fn settle(&mut self, outcome: CreateOutcome)
        requires
            old(self)@.phase != CreatePhase::Done,
        ensures
            final(self)@ == old(self)@.settle(outcome),
    {
        proof {
            use_type_invariant(&*self);
        }
        assert(self.index < self.config.branches.len());
        self.outcomes[self.index] = outcome;
        self.phase = if self.index + 1 < self.config.branches.len() {
            CreatePhase::Exists
        } else {
            CreatePhase::Done
        };
        self.index = self.index + 1;
    }

    fn record(&mut self, number: u32)
        requires
            old(self)@.phase != CreatePhase::Done,
        ensures
            final(self)@ == old(self)@.record(number),
    {
        proof {
            use_type_invariant(&*self);
        }
        self.config.branches[self.index].pr_number = Some(number);
        assert(self@.stack.branches =~= with_pull(old(self)@.stack, self.index as int, number).branches);
    }

    /// Takes what came of the pending call and moves on to the next one.
    pub fn advance(&mut self, reply: Reply)
        ensures
            old(self)@.wf(),
            final(self)@ == old(self)@.advance(reply@),
            final(self)@.wf(),
    {
        proof {
            use_type_invariant(&*self);
        }
        match self.phase {
            CreatePhase::Exists => match reply {
                Reply::Flag { value: true } => {
                    self.phase = CreatePhase::Lookup;
                },
                Reply::Flag { value: false } => {
                    self.settle(CreateOutcome::Missing);
                },
                _ => {
                    self.error = Some(reply.failure_text());
                    self.phase = CreatePhase::Done;
                },
            },
            CreatePhase::Lookup => match reply {
                Reply::Pr { found: Some(pr) } => {
                    self.record(pr.number);
                    self.settle(CreateOutcome::Found { number: pr.number });
                },
                _ => {
                    self.phase = CreatePhase::Title;
                },
            },
            CreatePhase::Title => {
                match reply {
                    Reply::Text { text } => {
                        self.title = text;
                    },
                    _ => {
                        self.title = "Changes in ".to_owned().concat(
                            self.config.branches[self.index].name.as_str(),
                        );
                    },
                }
                self.phase = CreatePhase::Create;
            },
            CreatePhase::Create => match reply {
                Reply::Number { number } => {
                    self.record(number);
                    self.settle(CreateOutcome::Created { number });
                },
                _ => {
                    self.settle(CreateOutcome::Failed);
                },
            },
            CreatePhase::Done => {},
        }
    }

    /// What the walk leaves behind: the stack with the pull requests that
    /// were found or opened, and how many were opened and passed over.
    pub fn into_report(self) -> (report: CreateReport)
        ensures
            report.config@ == self@.stack,
            report.outcomes@ == self@.outcomes,
            report.created == created_in(self@.outcomes),
            report.skipped == skipped_in(self@.outcomes),
            text_view(report.error) == self@.error,
    {
        let mut created: usize = 0;
        let mut skipped: usize = 0;
        let mut i: usize = 0;
        while i < self.outcomes.len()
            invariant
                i <= self.outcomes.len(),
                created <= i,
                skipped <= i,
                created == created_in(self.outcomes@.take(i as int)),
                skipped == skipped_in(self.outcomes@.take(i as int)),
            decreases self.outcomes.len() - i,
        {
            assert(self.outcomes@.take(i + 1).drop_last() =~= self.outcomes@.take(i as int));
            match self.outcomes[i] {
                CreateOutcome::Created { .. } => {
                    created += 1;
                },
                CreateOutcome::Missing => {
                    skipped += 1;
                },
                CreateOutcome::Found { .. } => {
                    skipped += 1;
                },
                _ => {},
            }
            i += 1;
        }
        assert(self.outcomes@.take(self.outcomes.len() as int) =~= self.outcomes@);
        CreateReport {
            config: self.config,
            outcomes: self.outcomes,
            created,
            skipped,
            error: self.error,
        }
    }
}

/// An opening of pull requests keeps its invariant and comes to its end
/// whatever the replies.
pub proof fn create_terminates(s: CreateState, reply: ReplyView)
    requires
        s.wf(),
    ensures
        s.advance(reply).wf(),
        s.phase != CreatePhase::Done ==> 0 <= s.advance(reply).calls_left() < s.calls_left(),
{
}

/// A pull request that the host does not open does not end the walk, and
/// the stack keeps what it held.
pub proof fn create_failure_is_not_fatal(s: CreateState, reply: ReplyView)
    requires
        s.wf(),
        s.phase == CreatePhase::Create,
        !(reply is Number),
    ensures
        s.advance(reply).error == s.error,
        s.advance(reply).stack == s.stack,
        s.advance(reply).index == s.index + 1,
        s.advance(reply).outcomes[s.index] == CreateOutcome::Failed,
{
}

/// The walk changes nothing of the stack but the pull requests it notes.
pub proof fn create_keeps_the_chain(s: CreateState, reply: ReplyView, i: int)
    requires
        s.wf(),
        0 <= i < s.stack.branches.len(),
    ensures
        s.advance(reply).stack.base_branch == s.stack.base_branch,
        s.advance(reply).stack.branches.len() == s.stack.branches.len(),
        s.advance(reply).stack.branches[i].name == s.stack.branches[i].name,
        s.advance(reply).stack.branches[i].parent == s.stack.branches[i].parent,
        i != s.index ==> s.advance(reply).stack.branches[i] == s.stack.branches[i],
{
}

} // verus!
