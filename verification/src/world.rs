use crate::github::{pr_state_of, CiStatus, PrState, PullRequest, PullRequestView, ReviewStatus};
use crate::port::{Action, ActionView, Reply, ReplyView};
use crate::text::{contains_text, texts};
use vstd::prelude::*;

verus! {

/// The state of the checks of one pull request.
#[derive(Clone, Copy, Debug, PartialEq, Eq, Structural)]
pub struct Check {
    pub number: u32,
    pub status: CiStatus,
}

/// What the approvers of one pull request decided.
#[derive(Clone, Copy, Debug, PartialEq, Eq, Structural)]
pub struct Approval {
    pub number: u32,
    pub decision: ReviewStatus,
}

/// A repository and its host as far as the engines ask about them: which
/// branch is checked out, which branches exist, where the checks and the pull
/// requests stand, which branches cannot be rebased without a conflict, and
/// which pull requests the host refuses to merge.
/// It answers the calls of an engine in place of the real tools.
#[derive(Debug, Clone, PartialEq, Eq)]
pub struct World {
    pub current: String,
    pub local: Vec<String>,
    pub checks: Vec<Check>,
    pub pulls: Vec<PullRequest>,
    pub conflicting: Vec<String>,
    pub approvals: Vec<Approval>,
    pub unmergeable: Vec<u32>,
}

/// The mathematical value of a `World`.
pub struct WorldView {
    pub current: Seq<char>,
    pub local: Seq<Seq<char>>,
    pub checks: Seq<Check>,
    pub pulls: Seq<PullRequestView>,
    pub conflicting: Seq<Seq<char>>,
    pub approvals: Seq<Approval>,
    pub unmergeable: Seq<u32>,
}

pub open spec fn pull_views(pulls: Seq<PullRequest>) -> Seq<PullRequestView> {
    Seq::new(pulls.len(), |i: int| pulls[i]@)
}

impl View for World {
    type V = WorldView;

    open spec fn view(&self) -> WorldView {
        WorldView {
            current: self.current@,
            local: texts(self.local@),
            checks: self.checks@,
            pulls: pull_views(self.pulls@),
            conflicting: texts(self.conflicting@),
            approvals: self.approvals@,
            unmergeable: self.unmergeable@,
        }
    }
}

/// The status of the first check listed for pull request `number`; unknown
/// where none is listed.
pub open spec fn status_in(checks: Seq<Check>, number: u32) -> CiStatus
    decreases checks.len(),
{
    if checks.len() == 0 {
        CiStatus::Unknown
    } else if checks[0].number == number {
        checks[0].status
    } else {
        status_in(checks.drop_first(), number)
    }
}

/// The first pull request listed for `branch`.
pub open spec fn pull_in(pulls: Seq<PullRequestView>, branch: Seq<char>) -> Option<PullRequestView>
    decreases pulls.len(),
{
    if pulls.len() == 0 {
        None
    } else if pulls[0].head_ref == branch {
        Some(pulls[0])
    } else {
        pull_in(pulls.drop_first(), branch)
    }
}

/// The state of the first pull request listed under `number`; unknown where
/// none is listed.
pub open spec fn state_in(pulls: Seq<PullRequestView>, number: u32) -> PrState
    decreases pulls.len(),
{
    if pulls.len() == 0 {
        PrState::Unknown
    } else if pulls[0].number == number {
        pr_state_of(pulls[0].state)
    } else {
        state_in(pulls.drop_first(), number)
    }
}

/// The first decision listed for pull request `number`; pending where none
/// is listed.
pub open spec fn decision_in(approvals: Seq<Approval>, number: u32) -> ReviewStatus
    decreases approvals.len(),
{
    if approvals.len() == 0 {
        ReviewStatus::Pending
    } else if approvals[0].number == number {
        approvals[0].decision
    } else {
        decision_in(approvals.drop_first(), number)
    }
}

/// The pull requests with each one numbered `number` moved onto `base`.
pub open spec fn with_base(pulls: Seq<PullRequestView>, number: u32, base: Seq<char>) -> Seq<
    PullRequestView,
> {
    Seq::new(
        pulls.len(),
        |i: int|
            if pulls[i].number == number {
                PullRequestView {
                    number: pulls[i].number,
                    title: pulls[i].title,
                    base_ref: base,
                    head_ref: pulls[i].head_ref,
                    state: pulls[i].state,
                }
            } else {
                pulls[i]
            },
    )
}

/// Two lists of pull requests differ at most in the bases.
pub open spec fn same_but_bases(a: Seq<PullRequestView>, b: Seq<PullRequestView>) -> bool {
    &&& a.len() == b.len()
    &&& forall|i: int|
        0 <= i < a.len() ==> (#[trigger] a[i]).number == b[i].number && a[i].head_ref
            == b[i].head_ref && a[i].state == b[i].state && a[i].title == b[i].title
}

/// Where pull requests differ at most in the bases, the same ones are found
/// under a branch and under a number, in the same state.
pub proof fn lemma_bases_do_not_decide(
    a: Seq<PullRequestView>,
    b: Seq<PullRequestView>,
    branch: Seq<char>,
    number: u32,
)
    requires
        same_but_bases(a, b),
    ensures
        state_in(a, number) == state_in(b, number),
        pull_in(a, branch) is Some == pull_in(b, branch) is Some,
        pull_in(a, branch) is Some ==> pull_in(a, branch)->0.state == pull_in(b, branch)->0.state
            && pull_in(a, branch)->0.number == pull_in(b, branch)->0.number,
    decreases a.len(),
{
    if a.len() > 0 {
        assert(a[0].number == b[0].number);
        assert(same_but_bases(a.drop_first(), b.drop_first())) by {
            assert forall|i: int| 0 <= i < a.drop_first().len() implies (
            #[trigger] a.drop_first()[i]).number == b.drop_first()[i].number && a.drop_first()[i].head_ref
                == b.drop_first()[i].head_ref && a.drop_first()[i].state == b.drop_first()[i].state
                && a.drop_first()[i].title == b.drop_first()[i].title by {
                assert(a[i + 1].number == b[i + 1].number);
            }
        }
        lemma_bases_do_not_decide(a.drop_first(), b.drop_first(), branch, number);
    }
}

/// The words with which a merge fails in a `World`.
pub open spec fn refusal_text() -> Seq<char> {
    "the pull request is not mergeable"@
}

/// The words with which a rebase fails in a `World`.
pub open spec fn conflict_text() -> Seq<char> {
    "could not apply the commits of the branch"@
}

impl WorldView {
    /// The branch that is checked out is one of the local branches, as it is
    /// in every repository.
    pub open spec fn wf(self) -> bool {
        self.local.contains(self.current)
    }

    /// The branch exists.
    pub open spec fn has_local(self, branch: Seq<char>) -> bool {
        self.local.contains(branch)
    }

    pub open spec fn status_of(self, number: u32) -> CiStatus {
        status_in(self.checks, number)
    }

    pub open spec fn pull_of(self, branch: Seq<char>) -> Option<PullRequestView> {
        pull_in(self.pulls, branch)
    }

    pub open spec fn state_of(self, number: u32) -> PrState {
        state_in(self.pulls, number)
    }

    pub open spec fn decision_of(self, number: u32) -> ReviewStatus {
        decision_in(self.approvals, number)
    }

    /// The host merges pull request `number` when asked to.
    pub open spec fn merges(self, number: u32) -> bool {
        !self.unmergeable.contains(number)
    }

    /// The pull request of `branch` has been merged.
    pub open spec fn is_merged(self, branch: Seq<char>) -> bool {
        self.pull_of(branch) matches Some(pr) && pr.state == "MERGED"@
    }

    /// The world after `action`. A checkout changes the branch that is
    /// checked out, and a move of a pull request its base. Nothing else
    /// leaves a trace.
    pub open spec fn after(self, action: ActionView) -> WorldView {
        match action {
            ActionView::Checkout { branch } => WorldView { current: branch, ..self },
            ActionView::UpdatePrBase { number, base } => WorldView {
                pulls: with_base(self.pulls, number, base),
                ..self
            },
            _ => self,
        }
    }

    /// What the world says to `action`. A rebase fails where the branch that
    /// is checked out is marked as conflicting, a merge where the pull request
    /// is marked as unmergeable; every other call succeeds.
    pub open spec fn reply(self, action: ActionView) -> ReplyView {
        match action {
            ActionView::CurrentBranch => ReplyView::Name { name: self.current },
            ActionView::BranchExists { branch } => ReplyView::Flag {
                value: self.has_local(branch),
            },
            ActionView::CiStatus { number } => ReplyView::Ci { status: self.status_of(number) },
            ActionView::PullRequest { branch } => ReplyView::Pr { found: self.pull_of(branch) },
            ActionView::PrStatus { number } => ReplyView::State { state: self.state_of(number) },
            ActionView::ReviewStatus { number } => ReplyView::Review {
                decision: self.decision_of(number),
            },
            ActionView::Merge { number } => if self.merges(number) {
                ReplyView::Done
            } else {
                ReplyView::Failed { message: refusal_text() }
            },
            ActionView::EnableAutoMerge { number } => if self.merges(number) {
                ReplyView::Done
            } else {
                ReplyView::Failed { message: refusal_text() }
            },
            ActionView::Rebase { onto } => if self.conflicting.contains(self.current) {
                ReplyView::Failed { message: conflict_text() }
            } else {
                ReplyView::Done
            },
            _ => ReplyView::Done,
        }
    }
}

impl World {
    /// Whether the branch that is checked out is one of the local branches,
    /// as it is in every repository.
    pub fn is_settled(&self) -> (r: bool)
        ensures
            r == self@.wf(),
    {
        contains_text(&self.local, self.current.as_str())
    }

    fn status_of(&self, number: u32) -> (status: CiStatus)
        ensures
            status == self@.status_of(number),
    {
        let mut i: usize = 0;
        assert(self.checks@.skip(0) =~= self.checks@);
        while i < self.checks.len()
            invariant
                i <= self.checks.len(),
                status_in(self.checks@, number) == status_in(self.checks@.skip(i as int), number),
            decreases self.checks.len() - i,
        {
            assert(self.checks@.skip(i as int).drop_first() =~= self.checks@.skip(i + 1));
            if self.checks[i].number == number {
                return self.checks[i].status;
            }
            i += 1;
        }
        CiStatus::Unknown
    }

    fn state_of(&self, number: u32) -> (state: PrState)
        ensures
            state == self@.state_of(number),
    {
        let ghost pulls = pull_views(self.pulls@);
        let mut i: usize = 0;
        assert(pulls.skip(0) =~= pulls);
        while i < self.pulls.len()
            invariant
                i <= self.pulls.len(),
                pulls == pull_views(self.pulls@),
                state_in(pulls, number) == state_in(pulls.skip(i as int), number),
            decreases self.pulls.len() - i,
        {
            assert(pulls.skip(i as int).drop_first() =~= pulls.skip(i + 1));
            if self.pulls[i].number == number {
                return self.pulls[i].pr_state();
            }
            i += 1;
        }
        PrState::Unknown
    }

    fn decision_of(&self, number: u32) -> (decision: ReviewStatus)
        ensures
            decision == self@.decision_of(number),
    {
        let mut i: usize = 0;
        assert(self.approvals@.skip(0) =~= self.approvals@);
        while i < self.approvals.len()
            invariant
                i <= self.approvals.len(),
                decision_in(self.approvals@, number) == decision_in(
                    self.approvals@.skip(i as int),
                    number,
                ),
            decreases self.approvals.len() - i,
        {
            assert(self.approvals@.skip(i as int).drop_first() =~= self.approvals@.skip(i + 1));
            if self.approvals[i].number == number {
                return self.approvals[i].decision;
            }
            i += 1;
        }
        ReviewStatus::Pending
    }

    fn merges(&self, number: u32) -> (r: bool)
        ensures
            r == self@.merges(number),
    {
        let mut i: usize = 0;
        while i < self.unmergeable.len()
            invariant
                i <= self.unmergeable.len(),
                forall|k: int| 0 <= k < i ==> self.unmergeable[k] != number,
            decreases self.unmergeable.len() - i,
        {
            if self.unmergeable[i] == number {
                return false;
            }
            i += 1;
        }
        true
    }

    fn move_pull(&mut self, number: u32, base: &str)
        ensures
            final(self)@ == (WorldView {
                pulls: with_base(old(self)@.pulls, number, base@),
                ..old(self)@
            }),
    {
        let ghost before = self@.pulls;
        let n = self.pulls.len();
        let mut i: usize = 0;
        while i < n
            invariant
                i <= n,
                n == self.pulls.len(),
                before.len() == n,
                self.current == old(self).current,
                self.local == old(self).local,
                self.checks == old(self).checks,
                self.conflicting == old(self).conflicting,
                self.approvals == old(self).approvals,
                self.unmergeable == old(self).unmergeable,
                forall|k: int|
                    0 <= k < i ==> (#[trigger] self.pulls[k])@ == with_base(before, number, base@)[k],
                forall|k: int| i <= k < n ==> (#[trigger] self.pulls[k])@ == before[k],
            decreases n - i,
        {
            if self.pulls[i].number == number {
                self.pulls[i].base_ref = base.to_owned();
            }
            i += 1;
        }
        assert(self@.pulls =~= with_base(before, number, base@));
    }

    fn pull_of(&self, branch: &str) -> (found: Option<PullRequest>)
        ensures
            match found {
                Some(pr) => self@.pull_of(branch@) == Some(pr@),
                None => self@.pull_of(branch@) is None,
            },
    {
        let ghost pulls = pull_views(self.pulls@);
        let mut i: usize = 0;
        assert(pulls.skip(0) =~= pulls);
        while i < self.pulls.len()
            invariant
                i <= self.pulls.len(),
                pulls == pull_views(self.pulls@),
                pull_in(pulls, branch@) == pull_in(pulls.skip(i as int), branch@),
            decreases self.pulls.len() - i,
        {
            assert(pulls.skip(i as int).drop_first() =~= pulls.skip(i + 1));
            if *self.pulls[i].head_ref.as_str() == *branch {
                return Some(self.pulls[i].clone());
            }
            i += 1;
        }
        None
    }

    /// Makes the call that `action` names and says what came of it.
    pub fn perform(&mut self, action: &Action) -> (reply: Reply)
        ensures
            reply@ == old(self)@.reply(action@),
            final(self)@ == old(self)@.after(action@),
    {
        match action {
            Action::CurrentBranch => Reply::Name { name: self.current.clone() },
            Action::BranchExists { branch } => {
                Reply::Flag { value: contains_text(&self.local, branch.as_str()) }
            },
            Action::CiStatus { number } => Reply::Ci { status: self.status_of(*number) },
            Action::PullRequest { branch } => Reply::Pr { found: self.pull_of(branch.as_str()) },
            Action::PrStatus { number } => Reply::State { state: self.state_of(*number) },
            Action::ReviewStatus { number } => Reply::Review {
                decision: self.decision_of(*number),
            },
            Action::Merge { number } => {
                if self.merges(*number) {
                    Reply::Done
                } else {
                    Reply::Failed { message: "the pull request is not mergeable".to_owned() }
                }
            },
            Action::EnableAutoMerge { number } => {
                if self.merges(*number) {
                    Reply::Done
                } else {
                    Reply::Failed { message: "the pull request is not mergeable".to_owned() }
                }
            },
            Action::Checkout { branch } => {
                self.current = branch.clone();
                Reply::Done
            },
            Action::UpdatePrBase { number, base } => {
                self.move_pull(*number, base.as_str());
                Reply::Done
            },
            Action::Rebase { onto } => {
                if contains_text(&self.conflicting, self.current.as_str()) {
                    Reply::Failed { message: "could not apply the commits of the branch".to_owned() }
                } else {
                    Reply::Done
                }
            },
            _ => Reply::Done,
        }
    }
}

} // verus!
