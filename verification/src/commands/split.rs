use crate::stack::{BranchView, StackConfig, StackView};
use vstd::prelude::*;

verus! {

/// Why a stack cannot be split.
#[derive(Clone, Copy, Debug, PartialEq, Eq, Structural)]
pub enum SplitError {
    /// The stack has fewer than two branches.
    TooFewBranches,
    /// No branch was chosen for the new stack.
    NothingSelected,
}

/// A stack split in two.
#[derive(Debug, PartialEq, Eq)]
pub struct SplitPlan {
    /// What stays in the stack.
    pub remaining: StackConfig,
    /// The new stack. Its first branch rests on the base.
    pub split: StackConfig,
    /// The pull request of the first branch of the new stack, whose base on
    /// the host is to be moved to the base branch.
    pub retarget: Option<u32>,
}

/// The branch resting on `base`.
pub open spec fn onto(b: BranchView, base: Seq<char>) -> BranchView {
    BranchView { name: b.name, parent: base, pr_number: b.pr_number }
}

/// The branches with the first of them resting on `base`.
pub open spec fn rebased(branches: Seq<BranchView>, base: Seq<char>) -> Seq<BranchView> {
    if branches.len() == 0 {
        branches
    } else {
        branches.update(0, onto(branches[0], base))
    }
}

/// Those of the first `n` branches whose place is among `selected`, if
/// `chosen`, or is not, if not; in their order.
pub open spec fn part(branches: Seq<BranchView>, selected: Seq<usize>, chosen: bool, n: int) -> Seq<
    BranchView,
>
    decreases n,
{
    if n <= 0 {
        Seq::empty()
    } else {
        let before = part(branches, selected, chosen, n - 1);
        if selected.contains((n - 1) as usize) == chosen {
            before.push(branches[n - 1])
        } else {
            before
        }
    }
}

/// The pull request of the first of the branches.
pub open spec fn first_pull(branches: Seq<BranchView>) -> Option<u32> {
    if branches.len() == 0 {
        None
    } else {
        branches[0].pr_number
    }
}

fn is_selected(selected: &Vec<usize>, i: usize) -> (r: bool)
    ensures
        r == selected@.contains(i),
{
    let mut k: usize = 0;
    while k < selected.len()
        invariant
            k <= selected.len(),
            forall|j: int| 0 <= j < k ==> selected[j] != i,
        decreases selected.len() - k,
    {
        if selected[k] == i {
            return true;
        }
        k += 1;
    }
    false
}

/// Splits off the branches whose places are `selected` into a stack of
/// their own, in their order, the first of them resting on the base. The
/// others stay. Places beyond the stack choose nothing.
pub fn split(config: &StackConfig, selected: &Vec<usize>) -> (r: Result<SplitPlan, SplitError>)
    ensures
        config@.branches.len() < 2 ==> r == Err::<SplitPlan, SplitError>(SplitError::TooFewBranches),
        config@.branches.len() >= 2 && selected@.len() == 0 ==> r == Err::<SplitPlan, SplitError>(
            SplitError::NothingSelected,
        ),
        config@.branches.len() >= 2 && selected@.len() > 0 ==> (r matches Ok(plan) && {
            let n = config@.branches.len() as int;
            &&& plan.remaining@.base_branch == config@.base_branch
            &&& plan.split@.base_branch == config@.base_branch
            &&& plan.remaining@.branches == part(config@.branches, selected@, false, n)
            &&& plan.split@.branches == rebased(
                part(config@.branches, selected@, true, n),
                config@.base_branch,
            )
            &&& plan.retarget == first_pull(plan.split@.branches)
        }),
{
    let n = config.branches.len();
    if n < 2 {
        return Err(SplitError::TooFewBranches);
    }
    if selected.len() == 0 {
        return Err(SplitError::NothingSelected);
    }
    let mut remaining = StackConfig { base_branch: config.base_branch.clone(), branches: Vec::new() };
    let mut split = StackConfig { base_branch: config.base_branch.clone(), branches: Vec::new() };
    let mut i: usize = 0;
    while i < n
        invariant
            i <= n,
            n == config@.branches.len(),
            remaining@.base_branch == config@.base_branch,
            split@.base_branch == config@.base_branch,
            remaining@.branches == part(config@.branches, selected@, false, i as int),
            split@.branches == part(config@.branches, selected@, true, i as int),
        decreases n - i,
    {
        let b = config.branches[i].clone();
        if is_selected(selected, i) {
            split.branches.push(b);
        } else {
            remaining.branches.push(b);
        }
        i += 1;
    }
    let mut retarget: Option<u32> = None;
    if split.branches.len() > 0 {
        retarget = split.branches[0].pr_number;
        split.retarget(0);
    }
    Ok(SplitPlan { remaining, split, retarget })
}

/// The places from `boundary` up to `len`.
pub fn places_from(boundary: usize, len: usize) -> (selected: Vec<usize>)
    ensures
        selected@.len() == if boundary <= len {
            len - boundary
        } else {
            0
        },
        forall|i: usize| selected@.contains(i) <==> boundary <= i < len,
        forall|k: int| 0 <= k < selected@.len() ==> selected@[k] == boundary + k,
{
    let mut selected: Vec<usize> = Vec::new();
    let mut i: usize = boundary;
    while i < len
        invariant
            boundary <= i,
            i <= len || boundary > len,
            i == boundary || i <= len,
            selected@.len() == i - boundary,
            forall|k: int| 0 <= k < selected@.len() ==> selected@[k] == boundary + k,
        decreases len - i,
    {
        selected.push(i);
        i += 1;
    }
    assert forall|x: usize| selected@.contains(x) <==> boundary <= x < len by {
        if boundary <= x < len {
            assert(selected@[x - boundary] == x);
        }
    }
    selected
}

/// The upper half of the places of a stack of `len` branches: what is split
/// off where the caller does not choose.
pub fn upper_half(len: usize) -> (selected: Vec<usize>)
    ensures
        forall|i: usize| selected@.contains(i) <==> len / 2 <= i < len,
        selected@.len() == len - len / 2,
        forall|k: int| 0 <= k < selected@.len() ==> selected@[k] == len / 2 + k,
{
    places_from(len / 2, len)
}

/// Where the places from `boundary` on are chosen, the branches before it
/// stay and those from it on go.
pub proof fn lemma_part_at_boundary(
    branches: Seq<BranchView>,
    selected: Seq<usize>,
    boundary: int,
    n: int,
)
    requires
        0 <= boundary <= branches.len() <= usize::MAX,
        0 <= n <= branches.len(),
        forall|i: usize| selected.contains(i) <==> boundary <= i < branches.len(),
    ensures
        part(branches, selected, false, n) == branches.take(
            if n <= boundary {
                n
            } else {
                boundary
            },
        ),
        part(branches, selected, true, n) == if n <= boundary {
            Seq::empty()
        } else {
            branches.subrange(boundary, n)
        },
    decreases n,
{
    if n > 0 {
        lemma_part_at_boundary(branches, selected, boundary, n - 1);
        if n - 1 == boundary {
            assert(Seq::<BranchView>::empty().push(branches[n - 1]) =~= branches.subrange(
                boundary,
                n,
            ));
        } else if n > boundary {
            assert(branches.subrange(boundary, n - 1).push(branches[n - 1]) =~= branches.subrange(
                boundary,
                n,
            ));
        }
    }
}

/// Splits the stack in two at `boundary`: the branches before it stay, those
/// from it on form the new stack, the first of them resting on the base.
pub fn split_at(config: &StackConfig, boundary: usize) -> (r: Result<SplitPlan, SplitError>)
    ensures
        config@.branches.len() < 2 ==> r == Err::<SplitPlan, SplitError>(SplitError::TooFewBranches),
        config@.branches.len() >= 2 && boundary >= config@.branches.len() ==> r == Err::<
            SplitPlan,
            SplitError,
        >(SplitError::NothingSelected),
        config@.branches.len() >= 2 && boundary < config@.branches.len() ==> (r matches Ok(plan) && {
            &&& plan.remaining@.base_branch == config@.base_branch
            &&& plan.split@.base_branch == config@.base_branch
            &&& plan.remaining@.branches == config@.branches.take(boundary as int)
            &&& plan.split@.branches == rebased(
                config@.branches.skip(boundary as int),
                config@.base_branch,
            )
            &&& plan.retarget == config@.branches[boundary as int].pr_number
        }),
{
    let selected = places_from(boundary, config.branches.len());
    proof {
        let n = config@.branches.len() as int;
        if boundary <= n {
            lemma_part_at_boundary(config@.branches, selected@, boundary as int, n);
            assert(config@.branches.subrange(boundary as int, n) =~= config@.branches.skip(
                boundary as int,
            ));
        }
    }
    split(config, &selected)
}

/// Splitting a well-formed chain inside it gives two well-formed chains.
pub proof fn split_keeps_chains(m: StackView, boundary: int)
    requires
        m.well_formed(),
        m.is_chain(),
        0 <= boundary <= m.branches.len(),
    ensures
        ({
            let low = StackView { base_branch: m.base_branch, branches: m.branches.take(boundary) };
            let high = StackView {
                base_branch: m.base_branch,
                branches: rebased(m.branches.skip(boundary), m.base_branch),
            };
            &&& low.well_formed()
            &&& low.is_chain()
            &&& high.well_formed()
            &&& high.is_chain()
        }),
{
    let low = StackView { base_branch: m.base_branch, branches: m.branches.take(boundary) };
    let high = StackView {
        base_branch: m.base_branch,
        branches: rebased(m.branches.skip(boundary), m.base_branch),
    };
    assert forall|i: int| 0 <= i < low.branches.len() implies low.parent_known(i) by {
        if i > 0 {
            assert(low.branches[i - 1].name == low.branches[i].parent);
        }
    }
    assert forall|i: int| 0 <= i < high.branches.len() implies (#[trigger] high.branches[i]).parent
        == if i == 0 {
        high.base_branch
    } else {
        high.branches[i - 1].name
    } by {
    }
}

} // verus!
