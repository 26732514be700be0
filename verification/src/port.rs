use crate::github::{CiStatus, PrState, PullRequest, PullRequestView, ReviewStatus};
use vstd::prelude::*;

verus! {

/// A call on version control or on the host that an engine asks its driver
/// to make, or the notice that the engine has finished.
#[derive(Debug, Clone, PartialEq, Eq)]
pub enum Action {
    CurrentBranch,
    BranchExists { branch: String },
    CiStatus { number: u32 },
    ReviewStatus { number: u32 },
    PrStatus { number: u32 },
    PullRequest { branch: String },
    Checkout { branch: String },
    Rebase { onto: String },
    AbortRebase,
    Push { branch: String, force: bool },
    UpdatePrBase { number: u32, base: String },
    EnableAutoMerge { number: u32 },
    Merge { number: u32 },
    /// Ask for the subject of the last commit of `branch`.
    CommitTitle { branch: String },
    CreatePr { head: String, base: String, title: String, body: String, draft: bool },
    Finish,
}

/// The mathematical value of an `Action`.
pub enum ActionView {
    CurrentBranch,
    BranchExists { branch: Seq<char> },
    CiStatus { number: u32 },
    ReviewStatus { number: u32 },
    PrStatus { number: u32 },
    PullRequest { branch: Seq<char> },
    Checkout { branch: Seq<char> },
    Rebase { onto: Seq<char> },
    AbortRebase,
    Push { branch: Seq<char>, force: bool },
    UpdatePrBase { number: u32, base: Seq<char> },
    EnableAutoMerge { number: u32 },
    Merge { number: u32 },
    CommitTitle { branch: Seq<char> },
    CreatePr { head: Seq<char>, base: Seq<char>, title: Seq<char>, body: Seq<char>, draft: bool },
    Finish,
}

impl View for Action {
    type V = ActionView;

    open spec fn view(&self) -> ActionView {
        match *self {
            Action::CurrentBranch => ActionView::CurrentBranch,
            Action::BranchExists { branch } => ActionView::BranchExists { branch: branch@ },
            Action::CiStatus { number } => ActionView::CiStatus { number },
            Action::ReviewStatus { number } => ActionView::ReviewStatus { number },
            Action::PrStatus { number } => ActionView::PrStatus { number },
            Action::PullRequest { branch } => ActionView::PullRequest { branch: branch@ },
            Action::Checkout { branch } => ActionView::Checkout { branch: branch@ },
            Action::Rebase { onto } => ActionView::Rebase { onto: onto@ },
            Action::AbortRebase => ActionView::AbortRebase,
            Action::Push { branch, force } => ActionView::Push { branch: branch@, force },
            Action::UpdatePrBase { number, base } => ActionView::UpdatePrBase {
                number,
                base: base@,
            },
            Action::EnableAutoMerge { number } => ActionView::EnableAutoMerge { number },
            Action::Merge { number } => ActionView::Merge { number },
            Action::CommitTitle { branch } => ActionView::CommitTitle { branch: branch@ },
            Action::CreatePr { head, base, title, body, draft } => ActionView::CreatePr {
                head: head@,
                base: base@,
                title: title@,
                body: body@,
                draft,
            },
            Action::Finish => ActionView::Finish,
        }
    }
}

impl ActionView {
    /// The action changes the repository or the host. The others only ask.
    pub open spec fn is_mutation(self) -> bool {
        match self {
            ActionView::Checkout { .. } => true,
            ActionView::Rebase { .. } => true,
            ActionView::AbortRebase => true,
            ActionView::Push { .. } => true,
            ActionView::UpdatePrBase { .. } => true,
            ActionView::EnableAutoMerge { .. } => true,
            ActionView::Merge { .. } => true,
            ActionView::CreatePr { .. } => true,
            _ => false,
        }
    }
}

impl Action {
    /// Whether the action changes the repository or the host.
    pub fn is_mutation(&self) -> (r: bool)
        ensures
            r == self@.is_mutation(),
    {
        match self {
            Action::Checkout { .. } => true,
            Action::Rebase { .. } => true,
            Action::AbortRebase => true,
            Action::Push { .. } => true,
            Action::UpdatePrBase { .. } => true,
            Action::EnableAutoMerge { .. } => true,
            Action::Merge { .. } => true,
            Action::CreatePr { .. } => true,
            _ => false,
        }
    }
}

/// What came of an action.
#[derive(Debug, Clone, PartialEq, Eq)]
pub enum Reply {
    /// The call succeeded and has nothing to tell.
    Done,
    /// The call failed, with the tool's own words.
    Failed { message: String },
    Flag { value: bool },
    Name { name: String },
    Ci { status: CiStatus },
    Review { decision: ReviewStatus },
    State { state: PrState },
    Pr { found: Option<PullRequest> },
    Text { text: String },
    Number { number: u32 },
}

/// The mathematical value of a `Reply`.
pub enum ReplyView {
    Done,
    Failed { message: Seq<char> },
    Flag { value: bool },
    Name { name: Seq<char> },
    Ci { status: CiStatus },
    Review { decision: ReviewStatus },
    State { state: PrState },
    Pr { found: Option<PullRequestView> },
    Text { text: Seq<char> },
    Number { number: u32 },
}

impl View for Reply {
    type V = ReplyView;

    open spec fn view(&self) -> ReplyView {
        match *self {
            Reply::Done => ReplyView::Done,
            Reply::Failed { message } => ReplyView::Failed { message: message@ },
            Reply::Flag { value } => ReplyView::Flag { value },
            Reply::Name { name } => ReplyView::Name { name: name@ },
            Reply::Ci { status } => ReplyView::Ci { status },
            Reply::Review { decision } => ReplyView::Review { decision },
            Reply::State { state } => ReplyView::State { state },
            Reply::Pr { found } => ReplyView::Pr {
                found: match found {
                    Some(pr) => Some(pr@),
                    None => None,
                },
            },
            Reply::Text { text } => ReplyView::Text { text: text@ },
            Reply::Number { number } => ReplyView::Number { number },
        }
    }
}

impl ReplyView {
    /// The words to report when the reply is not the one that was hoped for:
    /// the tool's own where the call failed.
    pub open spec fn failure_text(self) -> Seq<char> {
        match self {
            ReplyView::Failed { message } => message,
            _ => "unexpected reply"@,
        }
    }
}

impl ReplyView {
    /// The reply shows a pull request that has been merged.
    pub open spec fn reports_merged(self) -> bool {
        self matches ReplyView::Pr { found: Some(pr) } && pr.state == "MERGED"@
    }
}

impl Reply {
    /// Whether the reply shows a pull request that has been merged.
    pub fn reports_merged(&self) -> (r: bool)
        ensures
            r == self@.reports_merged(),
    {
        match self {
            Reply::Pr { found: Some(pr) } => *pr.state.as_str() == *"MERGED",
            _ => false,
        }
    }

    /// The words to report when the reply is not the one that was hoped for.
    pub fn failure_text(&self) -> (text: String)
        ensures
            text@ == self@.failure_text(),
    {
        match self {
            Reply::Failed { message } => message.clone(),
            _ => "unexpected reply".to_owned(),
        }
    }
}

} // verus!
