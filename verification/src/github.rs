use crate::text::{
    after_last, after_last_at, chars_of, decimal, decimal_of, number_of, parse_number, string_of,
    texts, to_uppercase, trim, trimmed, uppercase_of,
};
use vstd::prelude::*;

verus! {

/// A pull request as the host reports it.
#[derive(Debug, PartialEq, Eq)]
pub struct PullRequest {
    pub number: u32,
    pub title: String,
    pub base_ref: String,
    pub head_ref: String,
    pub state: String,
}

/// The mathematical value of a `PullRequest`.
pub struct PullRequestView {
    pub number: u32,
    pub title: Seq<char>,
    pub base_ref: Seq<char>,
    pub head_ref: Seq<char>,
    pub state: Seq<char>,
}

impl View for PullRequest {
    type V = PullRequestView;

    open spec fn view(&self) -> PullRequestView {
        PullRequestView {
            number: self.number,
            title: self.title@,
            base_ref: self.base_ref@,
            head_ref: self.head_ref@,
            state: self.state@,
        }
    }
}

impl Clone for PullRequest {
    fn clone(&self) -> (r: Self)
        ensures
            r@ == self@,
    {
        PullRequest {
            number: self.number,
            title: self.title.clone(),
            base_ref: self.base_ref.clone(),
            head_ref: self.head_ref.clone(),
            state: self.state.clone(),
        }
    }
}

/// Where a pull request stands.
#[derive(Clone, Copy, Debug, PartialEq, Eq, Structural)]
pub enum PrState {
    Open,
    Merged,
    Closed,
    Unknown,
}

/// What the checks of a pull request say.
#[derive(Clone, Copy, Debug, PartialEq, Eq, Structural)]
pub enum CiStatus {
    Success,
    Pending,
    Failure,
    Unknown,
}

/// Whether a pull request has been approved.
#[derive(Clone, Copy, Debug, PartialEq, Eq, Structural)]
pub enum ReviewStatus {
    Approved,
    Pending,
    ChangesRequested,
    Unknown,
}

/// The state that a tag of the host stands for; a tag that is not one of the
/// host's three is unknown.
pub open spec fn pr_state_of(tag: Seq<char>) -> PrState {
    if tag == "OPEN"@ {
        PrState::Open
    } else if tag == "MERGED"@ {
        PrState::Merged
    } else if tag == "CLOSED"@ {
        PrState::Closed
    } else {
        PrState::Unknown
    }
}

/// The check result that a tag of the host stands for.
pub open spec fn ci_status_of(tag: Seq<char>) -> CiStatus {
    if tag == "SUCCESS"@ {
        CiStatus::Success
    } else if tag == "PENDING"@ {
        CiStatus::Pending
    } else if tag == "FAILURE"@ {
        CiStatus::Failure
    } else {
        CiStatus::Unknown
    }
}

/// The approval that a tag of the host stands for.
pub open spec fn review_status_of(tag: Seq<char>) -> ReviewStatus {
    if tag == "APPROVED"@ {
        ReviewStatus::Approved
    } else if tag == "PENDING"@ {
        ReviewStatus::Pending
    } else if tag == "CHANGES_REQUESTED"@ {
        ReviewStatus::ChangesRequested
    } else {
        ReviewStatus::Unknown
    }
}

impl PrState {
    pub fn of_tag(tag: &str) -> (r: PrState)
        ensures
            r == pr_state_of(tag@),
    {
        if *tag == *"OPEN" {
            PrState::Open
        } else if *tag == *"MERGED" {
            PrState::Merged
        } else if *tag == *"CLOSED" {
            PrState::Closed
        } else {
            PrState::Unknown
        }
    }
}

impl CiStatus {
    pub fn of_tag(tag: &str) -> (r: CiStatus)
        ensures
            r == ci_status_of(tag@),
    {
        if *tag == *"SUCCESS" {
            CiStatus::Success
        } else if *tag == *"PENDING" {
            CiStatus::Pending
        } else if *tag == *"FAILURE" {
            CiStatus::Failure
        } else {
            CiStatus::Unknown
        }
    }
}

impl ReviewStatus {
    pub fn of_tag(tag: &str) -> (r: ReviewStatus)
        ensures
            r == review_status_of(tag@),
    {
        if *tag == *"APPROVED" {
            ReviewStatus::Approved
        } else if *tag == *"PENDING" {
            ReviewStatus::Pending
        } else if *tag == *"CHANGES_REQUESTED" {
            ReviewStatus::ChangesRequested
        } else {
            ReviewStatus::Unknown
        }
    }
}

impl PullRequest {
    /// Where the pull request stands, read off its state tag.
    pub fn pr_state(&self) -> (r: PrState)
        ensures
            r == pr_state_of(self@.state),
    {
        PrState::of_tag(self.state.as_str())
    }
}

/// The tag that a line of output holds: what is left of it without the white
/// space around it, in upper case.
pub open spec fn tag_of(output: Seq<char>) -> Seq<char> {
    uppercase_of(trimmed(output))
}

/// The tag that a line of output holds.
pub fn read_tag(output: &str) -> (tag: String)
    ensures
        tag@ == tag_of(output@),
{
    let inner = trim(output);
    to_uppercase(inner.as_str())
}

/// What a tag says of the checks; no tag at all means that they are running.
pub open spec fn ci_reading(tag: Seq<char>) -> CiStatus {
    if tag.len() == 0 {
        CiStatus::Pending
    } else {
        ci_status_of(tag)
    }
}

/// What a tag says of the approval; no tag at all means that it is pending.
pub open spec fn review_reading(tag: Seq<char>) -> ReviewStatus {
    if tag.len() == 0 {
        ReviewStatus::Pending
    } else {
        review_status_of(tag)
    }
}

impl CiStatus {
    /// What a tag says of the checks.
    pub fn of_reading(tag: &str) -> (r: CiStatus)
        ensures
            r == ci_reading(tag@),
    {
        if tag.is_empty() {
            CiStatus::Pending
        } else {
            CiStatus::of_tag(tag)
        }
    }
}

impl ReviewStatus {
    /// What a tag says of the approval.
    pub fn of_reading(tag: &str) -> (r: ReviewStatus)
        ensures
            r == review_reading(tag@),
    {
        if tag.is_empty() {
            ReviewStatus::Pending
        } else {
            ReviewStatus::of_tag(tag)
        }
    }
}

/// Where a pull request stands, from what the host's tool printed when asked
/// for its state. A call that failed leaves the state unknown.
pub fn get_pr_status(success: bool, output: &str) -> (state: PrState)
    ensures
        state == if success {
            pr_state_of(tag_of(output@))
        } else {
            PrState::Unknown
        },
{
    if success {
        let tag = read_tag(output);
        PrState::of_tag(tag.as_str())
    } else {
        PrState::Unknown
    }
}

/// What the checks of a pull request say, from what the host's tool printed
/// when asked for them. A call that failed leaves them unknown.
pub fn get_ci_status(success: bool, output: &str) -> (status: CiStatus)
    ensures
        status == if success {
            ci_reading(tag_of(output@))
        } else {
            CiStatus::Unknown
        },
{
    if success {
        let tag = read_tag(output);
        CiStatus::of_reading(tag.as_str())
    } else {
        CiStatus::Unknown
    }
}

/// Whether a pull request has been approved, from what the host's tool
/// printed when asked. A call that failed leaves it unknown.
pub fn get_review_status(success: bool, output: &str) -> (decision: ReviewStatus)
    ensures
        decision == if success {
            review_reading(tag_of(output@))
        } else {
            ReviewStatus::Unknown
        },
{
    if success {
        let tag = read_tag(output);
        ReviewStatus::of_reading(tag.as_str())
    } else {
        ReviewStatus::Unknown
    }
}

/// The number of the pull request whose address a line of output ends with:
/// what follows the last slash, without white space around it, read as a
/// number.
pub open spec fn pr_number_of(output: Seq<char>) -> Option<u32> {
    number_of(trimmed(after_last(output, '/')))
}

/// The number of the pull request that the host's tool printed the address
/// of.
pub fn pr_number_in(output: &str) -> (r: Option<u32>)
    ensures
        r == pr_number_of(output@),
{
    let chars = chars_of(output);
    let n = chars.len();
    let k = after_last_at(&chars, n, '/');
    assert(chars@.take(n as int) =~= chars@);
    let tail = string_of(&chars, k, n);
    let inner = trim(tail.as_str());
    parse_number(inner.as_str())
}

/// The arguments that ask the host's tool for the pull request of `branch`.
pub open spec fn get_pr_args(branch: Seq<char>) -> Seq<Seq<char>> {
    seq![
        "pr"@,
        "list"@,
        "--head"@,
        branch,
        "--json"@,
        "number,title,baseRefName,headRefName,state"@,
        "--limit"@,
        "1"@,
    ]
}

/// The arguments that ask the host's tool for the pull request of `branch`.
pub fn get_pr(branch: &str) -> (args: Vec<String>)
    ensures
        texts(args@) == get_pr_args(branch@),
{
    let mut args: Vec<String> = Vec::new();
    args.push("pr".to_owned());
    args.push("list".to_owned());
    args.push("--head".to_owned());
    args.push(branch.to_owned());
    args.push("--json".to_owned());
    args.push("number,title,baseRefName,headRefName,state".to_owned());
    args.push("--limit".to_owned());
    args.push("1".to_owned());
    args
}

/// The arguments that make the host's tool open a pull request.
pub open spec fn create_pr_args(
    head: Seq<char>,
    base: Seq<char>,
    title: Seq<char>,
    body: Seq<char>,
    draft: bool,
) -> Seq<Seq<char>> {
    let args = seq![
        "pr"@,
        "create"@,
        "--head"@,
        head,
        "--base"@,
        base,
        "--title"@,
        title,
        "--body"@,
        body,
    ];
    if draft {
        args.push("--draft"@)
    } else {
        args
    }
}

/// The arguments that make the host's tool open a pull request for `head`
/// against `base`, as a draft if asked.
pub fn create_pr(head: &str, base: &str, title: &str, body: &str, draft: bool) -> (args: Vec<String>)
    ensures
        texts(args@) == create_pr_args(head@, base@, title@, body@, draft),
{
    let mut args: Vec<String> = Vec::new();
    args.push("pr".to_owned());
    args.push("create".to_owned());
    args.push("--head".to_owned());
    args.push(head.to_owned());
    args.push("--base".to_owned());
    args.push(base.to_owned());
    args.push("--title".to_owned());
    args.push(title.to_owned());
    args.push("--body".to_owned());
    args.push(body.to_owned());
    if draft {
        args.push("--draft".to_owned());
    }
    args
}

/// The arguments that make the host's tool set `option` of a pull request.
pub open spec fn edit_pr_args(number: u32, option: Seq<char>, value: Seq<char>) -> Seq<Seq<char>> {
    seq!["pr"@, "edit"@, decimal_of(number as nat), option, value]
}

fn edit_pr(number: u32, option: &str, value: &str) -> (args: Vec<String>)
    ensures
        texts(args@) == edit_pr_args(number, option@, value@),
{
    let mut args: Vec<String> = Vec::new();
    args.push("pr".to_owned());
    args.push("edit".to_owned());
    args.push(decimal(number));
    args.push(option.to_owned());
    args.push(value.to_owned());
    args
}

/// The arguments that make the host's tool move pull request `pr_number`
/// onto `new_base`.
pub fn update_pr_base(pr_number: u32, new_base: &str) -> (args: Vec<String>)
    ensures
        texts(args@) == edit_pr_args(pr_number, "--base"@, new_base@),
{
    edit_pr(pr_number, "--base", new_base)
}

/// The arguments that make the host's tool replace the text of pull request
/// `pr_number`.
pub fn update_pr_body(pr_number: u32, body: &str) -> (args: Vec<String>)
    ensures
        texts(args@) == edit_pr_args(pr_number, "--body"@, body@),
{
    edit_pr(pr_number, "--body", body)
}

} // verus!
