use crate::github::PullRequest;
use crate::stack::{BranchInfo, BranchView, StackConfig, StackView};
use vstd::prelude::*;

verus! {

/// Why a branch cannot be taken into the stack.
#[derive(Clone, Copy, Debug, PartialEq, Eq, Structural)]
pub enum AdoptError {
    /// There is no stack: the base branch has no name.
    NoStack,
    /// The branch is in the stack already.
    AlreadyInStack,
    /// The branch has no pull request.
    NoPullRequest,
}

/// A branch taken into a stack.
#[derive(Debug, PartialEq, Eq)]
pub struct Adoption {
    /// The stack with the branch at its end.
    pub config: StackConfig,
    /// What the branch rests on.
    pub parent: String,
    /// The pull request of the branch.
    pub number: u32,
    /// Whether the base of the pull request on the host has to be moved to
    /// `parent`.
    pub update_base: bool,
}

/// What a branch taken into the stack rests on: the last branch, or the base
/// where there is none.
pub open spec fn tip_of(m: StackView) -> Seq<char> {
    if m.branches.len() == 0 {
        m.base_branch
    } else {
        m.branches.last().name
    }
}

/// Why the branch `current` cannot be taken into stack `m`, if it cannot.
pub open spec fn adopt_refusal(m: StackView, current: Seq<char>) -> Option<AdoptError> {
    if m.base_branch.len() == 0 {
        Some(AdoptError::NoStack)
    } else if m.has_branch(current) {
        Some(AdoptError::AlreadyInStack)
    } else {
        None
    }
}

/// The stack `m` with the branch `current` and its pull request at the end.
pub open spec fn adopted(m: StackView, current: Seq<char>, number: u32) -> StackView {
    StackView {
        base_branch: m.base_branch,
        branches: m.branches.push(
            BranchView { name: current, parent: tip_of(m), pr_number: Some(number) },
        ),
    }
}

/// What the branch `current` would rest on in the stack, or why it cannot be
/// taken in.
pub fn adoption_parent(config: &StackConfig, current: &str) -> (r: Result<String, AdoptError>)
    ensures
        match r {
            Ok(parent) => adopt_refusal(config@, current@) is None && parent@ == tip_of(config@),
            Err(e) => adopt_refusal(config@, current@) == Some(e),
        },
{
    if config.base_branch.as_str().is_empty() {
        return Err(AdoptError::NoStack);
    }
    if config.find_branch(current).is_some() {
        return Err(AdoptError::AlreadyInStack);
    }
    let n = config.branches.len();
    if n == 0 {
        Ok(config.base_branch.clone())
    } else {
        Ok(config.branches[n - 1].name.clone())
    }
}

/// Takes the branch `current`, whose pull request is `pr`, into the stack,
/// on top of its last branch. The base of the pull request has to be moved
/// where it is not that branch already.
pub fn adopt(config: &StackConfig, current: &str, pr: Option<&PullRequest>) -> (r: Result<
    Adoption,
    AdoptError,
>)
    ensures
        match r {
            Ok(a) => adopt_refusal(config@, current@) is None && (pr matches Some(p) && a.config@
                == adopted(config@, current@, p.number) && a.parent@ == tip_of(config@) && a.number
                == p.number && a.update_base == (p@.base_ref != tip_of(config@))),
            Err(e) => match adopt_refusal(config@, current@) {
                Some(refusal) => e == refusal,
                None => e == AdoptError::NoPullRequest && pr is None,
            },
        },
{
    let parent = match adoption_parent(config, current) {
        Ok(parent) => parent,
        Err(e) => {
            return Err(e);
        },
    };
    let pr = match pr {
        Some(pr) => pr,
        None => {
            return Err(AdoptError::NoPullRequest);
        },
    };
    let mut adopted = config.clone();
    adopted.branches.push(
        BranchInfo { name: current.to_owned(), parent: parent.clone(), pr_number: Some(pr.number) },
    );
    assert(adopted@.branches =~= config@.branches.push(
        BranchView { name: current@, parent: parent@, pr_number: Some(pr.number) },
    ));
    let update_base = *pr.base_ref.as_str() != *parent.as_str();
    Ok(Adoption { config: adopted, parent, number: pr.number, update_base })
}

/// Taking a branch into a well-formed stack leaves the stack well formed,
/// and a chain a chain.
pub proof fn adopt_keeps_well_formed(m: StackView, current: Seq<char>, number: u32)
    requires
        m.well_formed(),
        adopt_refusal(m, current) is None,
    ensures
        adopted(m, current, number).well_formed(),
        m.is_chain() ==> adopted(m, current, number).is_chain(),
{
    let a = adopted(m, current, number);
    let n = m.branches.len() as int;
    assert forall|i: int| 0 <= i < a.branches.len() implies a.parent_known(i) by {
        if i < n {
            assert(m.parent_known(i));
            if m.branches[i].parent != m.base_branch {
                let j = choose|j: int| 0 <= j < i && #[trigger] m.branches[j].name
                    == m.branches[i].parent;
                assert(a.branches[j].name == a.branches[i].parent);
            }
        } else if n > 0 {
            assert(a.branches[n - 1].name == a.branches[i].parent);
        }
    }
}

} // verus!
