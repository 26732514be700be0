use crate::commands::sync::{
    error_view, BranchOutcome, SyncEngine, SyncErrorView, SyncPhase, SyncReport, SyncState,
};
use crate::github::{CiStatus, PullRequestView};
use crate::port::ReplyView;
use crate::stack::{BranchView, StackConfig, StackView};
use crate::world::{
    conflict_text, lemma_bases_do_not_decide, same_but_bases, with_base, World, WorldView,
};
use vstd::prelude::*;

verus! {

/// Why the branch at `i` is left alone, if it is: it does not exist, or the
/// run waits for checks and those of its pull request are running or failed.
pub open spec fn gate(m: StackView, w: WorldView, wait_ci: bool, i: int) -> Option<BranchOutcome> {
    let b = m.branches[i];
    if !w.local.contains(b.name) {
        Some(BranchOutcome::Missing)
    } else if wait_ci && b.pr_number is Some && w.status_of(b.pr_number->0) == CiStatus::Pending {
        Some(BranchOutcome::CiPending)
    } else if wait_ci && b.pr_number is Some && w.status_of(b.pr_number->0) == CiStatus::Failure {
        Some(BranchOutcome::CiFailing)
    } else {
        None
    }
}

/// The branch at `i` rests on a branch of the stack, other than the base,
/// that has a pull request.
pub open spec fn stacked_on_pull(m: StackView, i: int) -> bool {
    let parent = m.branches[i].parent;
    &&& parent != m.base_branch
    &&& m.has_branch(parent)
    &&& m.branches[m.index_of(parent)].pr_number is Some
}

/// The branch at `i` rests on a branch of the stack, other than the base,
/// whose pull request has been merged.
pub open spec fn parent_merged(m: StackView, w: WorldView, i: int) -> bool {
    stacked_on_pull(m, i) && w.is_merged(m.branches[i].parent)
}

/// A run that comes to the branch at `i` moves it onto the base.
pub open spec fn moves(m: StackView, w: WorldView, wait_ci: bool, i: int) -> bool {
    gate(m, w, wait_ci, i) is None && parent_merged(m, w, i)
}

/// A real run that comes to the branch at `i` fails to rebase it.
pub open spec fn conflicts_at(m: StackView, w: WorldView, wait_ci: bool, i: int) -> bool {
    gate(m, w, wait_ci, i) is None && w.conflicting.contains(m.branches[i].name)
}

/// Some branch before `k` is moved onto the base.
pub open spec fn any_moves(m: StackView, w: WorldView, wait_ci: bool, k: int) -> bool
    decreases k,
{
    if k <= 0 {
        false
    } else {
        any_moves(m, w, wait_ci, k - 1) || moves(m, w, wait_ci, k - 1)
    }
}

/// The stack once the branches before `k` have been gone through: the ones
/// whose parent was merged rest on the base, all else is as it was.
pub open spec fn pass_stack(m: StackView, w: WorldView, wait_ci: bool, k: int) -> StackView {
    StackView {
        base_branch: m.base_branch,
        branches: Seq::new(
            m.branches.len(),
            |i: int|
                if i < k && moves(m, w, wait_ci, i) {
                    BranchView {
                        name: m.branches[i].name,
                        parent: m.base_branch,
                        pr_number: m.branches[i].pr_number,
                    }
                } else {
                    m.branches[i]
                },
        ),
    }
}

/// What a run does with the branch at `i` when it comes to it and gets
/// through.
pub open spec fn outcome_of(
    m: StackView,
    w: WorldView,
    dry_run: bool,
    wait_ci: bool,
    i: int,
) -> BranchOutcome {
    match gate(m, w, wait_ci, i) {
        Some(outcome) => outcome,
        None => {
            let retarget = parent_merged(m, w, i);
            if dry_run {
                BranchOutcome::Planned { retarget }
            } else {
                BranchOutcome::Synced {
                    retarget,
                    base_updated: retarget && m.branches[i].pr_number is Some,
                }
            }
        },
    }
}

/// The walk ends at `k`: a real run at the first branch that it fails to
/// rebase, any other run behind the last branch.
pub open spec fn is_stop(m: StackView, w: WorldView, dry_run: bool, wait_ci: bool, k: int) -> bool {
    &&& 0 <= k <= m.branches.len()
    &&& forall|j: int| 0 <= j < k ==> dry_run || !#[trigger] conflicts_at(m, w, wait_ci, j)
    &&& k < m.branches.len() ==> !dry_run && conflicts_at(m, w, wait_ci, k)
}

/// Where the walk ends.
pub open spec fn stop_of(m: StackView, w: WorldView, dry_run: bool, wait_ci: bool) -> int {
    choose|k: int| is_stop(m, w, dry_run, wait_ci, k)
}

/// What a synchronisation leaves behind, as a mathematical value.
pub struct SyncRun {
    pub stack: StackView,
    pub outcomes: Seq<BranchOutcome>,
    pub error: Option<SyncErrorView>,
    pub save: bool,
}

/// What a walk that ends at `k` leaves behind.
pub open spec fn stopped_run(
    m: StackView,
    w: WorldView,
    dry_run: bool,
    wait_ci: bool,
    k: int,
) -> SyncRun {
    SyncRun {
        stack: pass_stack(m, w, wait_ci, k),
        outcomes: Seq::new(
            m.branches.len(),
            |i: int|
                if i < k {
                    outcome_of(m, w, dry_run, wait_ci, i)
                } else if i == k {
                    BranchOutcome::Failed
                } else {
                    BranchOutcome::NotReached
                },
        ),
        error: if k < m.branches.len() {
            Some(SyncErrorView::Conflict { branch: m.branches[k].name, message: conflict_text() })
        } else {
            None
        },
        save: !dry_run && any_moves(m, w, wait_ci, k),
    }
}

/// The pull requests on the host once a run has gone through the branches
/// before `k`: a real run has moved the pull request of each branch that it
/// moved onto the base.
pub open spec fn host_after(m: StackView, w: WorldView, dry_run: bool, wait_ci: bool, k: int) -> Seq<
    PullRequestView,
>
    decreases k,
{
    if k <= 0 {
        w.pulls
    } else {
        let before = host_after(m, w, dry_run, wait_ci, k - 1);
        match m.branches[k - 1].pr_number {
            Some(number) => if !dry_run && moves(m, w, wait_ci, k - 1) {
                with_base(before, number, m.base_branch)
            } else {
                before
            },
            None => before,
        }
    }
}

/// The world that the synchronisation of stack `m` in world `w` leaves
/// behind: the same branch is checked out, and the host has followed the
/// moves.
pub open spec fn world_after_sync(m: StackView, w: WorldView, dry_run: bool, wait_ci: bool) -> WorldView {
    WorldView {
        pulls: host_after(m, w, dry_run, wait_ci, stop_of(m, w, dry_run, wait_ci)),
        ..w
    }
}

/// A run changes nothing of the pull requests on the host but bases, and a
/// dry run not even those.
pub proof fn lemma_host_keeps_pulls(m: StackView, w: WorldView, dry_run: bool, wait_ci: bool, k: int)
    ensures
        same_but_bases(host_after(m, w, dry_run, wait_ci, k), w.pulls),
        dry_run ==> host_after(m, w, dry_run, wait_ci, k) == w.pulls,
    decreases k,
{
    if k > 0 {
        lemma_host_keeps_pulls(m, w, dry_run, wait_ci, k - 1);
    }
}

/// What the synchronisation of stack `m` in world `w` leaves behind.
pub open spec fn sync_run(m: StackView, w: WorldView, dry_run: bool, wait_ci: bool) -> SyncRun {
    stopped_run(m, w, dry_run, wait_ci, stop_of(m, w, dry_run, wait_ci))
}

/// What a synchronisation in state `s` would leave behind if it ended now.
pub open spec fn run_of(s: SyncState) -> SyncRun {
    SyncRun { stack: s.stack, outcomes: s.outcomes, error: s.error, save: s.should_save() }
}

impl SyncReport {
    pub open spec fn run_view(self) -> SyncRun {
        SyncRun {
            stack: self.config@,
            outcomes: self.outcomes@,
            error: error_view(self.error),
            save: self.save,
        }
    }
}

/// Two stacks with the same names in the same places find the same branch
/// under a name.
pub proof fn lemma_lookup_agrees(a: StackView, b: StackView, name: Seq<char>)
    requires
        a.branches.len() == b.branches.len(),
        forall|i: int| 0 <= i < a.branches.len() ==> a.branches[i].name == b.branches[i].name,
    ensures
        a.has_branch(name) == b.has_branch(name),
        a.has_branch(name) ==> a.index_of(name) == b.index_of(name) && a.is_first_named(
            name,
            a.index_of(name),
        ),
{
    if a.has_branch(name) {
        let i = choose|i: int| 0 <= i < a.branches.len() && #[trigger] a.branches[i].name == name;
        lemma_first_named_exists(a, name, i);
        lemma_first_named_exists(b, name, i);
    }
}

/// A name that some branch has is the name of a first such branch.
pub proof fn lemma_first_named_exists(a: StackView, name: Seq<char>, i: int)
    requires
        0 <= i < a.branches.len(),
        a.branches[i].name == name,
    ensures
        a.is_first_named(name, a.index_of(name)),
        a.index_of(name) <= i,
    decreases i,
{
    if exists|j: int| 0 <= j < i && (#[trigger] a.branches[j]).name == name {
        let j = choose|j: int| 0 <= j < i && (#[trigger] a.branches[j]).name == name;
        lemma_first_named_exists(a, name, j);
    } else {
        assert(a.is_first_named(name, i));
    }
}

/// How many calls a synchronisation may still ask for, at most.
pub open spec fn calls_left(s: SyncState) -> int {
    match s.phase {
        SyncPhase::Start => 16 * s.count() + 16,
        SyncPhase::Exists => 16 * (s.count() - s.index) + 8,
        SyncPhase::Ci => 16 * (s.count() - s.index) + 7,
        SyncPhase::Parent => 16 * (s.count() - s.index) + 6,
        SyncPhase::Checkout => 16 * (s.count() - s.index) + 5,
        SyncPhase::Rebase => 16 * (s.count() - s.index) + 4,
        SyncPhase::Push => 16 * (s.count() - s.index) + 3,
        SyncPhase::Abort => 16 * (s.count() - s.index) + 2,
        SyncPhase::Retarget => 16 * (s.count() - s.index) + 2,
        SyncPhase::RestoreExists => 3,
        SyncPhase::RestoreCurrent => 2,
        SyncPhase::Restore => 1,
        SyncPhase::Done => 0,
    }
}

/// A synchronisation comes to its end whatever the replies: each of them
/// brings it closer.
pub proof fn sync_terminates(s: SyncState, reply: ReplyView)
    requires
        s.wf(),
        s.phase != SyncPhase::Done,
    ensures
        0 <= calls_left(s.advance(reply)) < calls_left(s),
{
}

/// What holds of the branches that a walk in world `w` has gone through.
pub open spec fn walked(s: SyncState, m: StackView, w: WorldView) -> bool {
    &&& m.branches.len() == s.count()
    &&& s.stack == pass_stack(m, w, s.wait_ci, s.index)
    &&& s.changed == any_moves(m, w, s.wait_ci, s.index)
    &&& forall|j: int|
        0 <= j < s.index ==> #[trigger] s.outcomes[j] == outcome_of(m, w, s.dry_run, s.wait_ci, j)
    &&& forall|j: int|
        0 <= j < s.index ==> s.dry_run || !#[trigger] conflicts_at(m, w, s.wait_ci, j)
    &&& forall|j: int| s.index < j < s.count() ==> #[trigger] s.outcomes[j] == BranchOutcome::NotReached
}

/// The walk has not failed, and the branch at hand is untouched.
pub open spec fn untouched(s: SyncState) -> bool {
    s.error is None && s.outcomes[s.index] == BranchOutcome::NotReached
}

/// The walk failed to rebase the branch at hand.
pub open spec fn failed_here(s: SyncState, m: StackView, w: WorldView) -> bool {
    &&& s.index < s.count()
    &&& !s.dry_run
    &&& conflicts_at(m, w, s.wait_ci, s.index)
    &&& s.outcomes[s.index] == BranchOutcome::Failed
    &&& s.error == Some(
        SyncErrorView::Conflict { branch: m.branches[s.index].name, message: conflict_text() },
    )
}

/// What holds while stack `m` is synchronised in a world that was `w0` at the
/// start and is `w` now.
pub open spec fn replaying(s: SyncState, m: StackView, w0: WorldView, w: WorldView) -> bool {
    let i = s.index;
    let open = gate(m, w0, s.wait_ci, i) is None;
    let decided = open && s.retarget == parent_merged(m, w0, i);
    let here = w.current == m.branches[i].name;
    &&& s.wf()
    &&& w0.wf()
    &&& w == WorldView {
        current: w.current,
        pulls: host_after(m, w0, s.dry_run, s.wait_ci, i),
        ..w0
    }
    &&& w.local.contains(w.current)
    &&& walked(s, m, w0)
    &&& s.dry_run ==> w.current == w0.current
    &&& s.count() == 0 ==> s.phase == SyncPhase::Done
    &&& s.phase != SyncPhase::Start && s.count() > 0 ==> s.original == w0.current
    &&& match s.phase {
        SyncPhase::Start => i == 0 && w == w0 && untouched(s),
        SyncPhase::Exists => untouched(s) && !s.retarget,
        SyncPhase::Ci => untouched(s) && !s.retarget && s.wait_ci && w0.local.contains(
            m.branches[i].name,
        ),
        SyncPhase::Parent => untouched(s) && !s.retarget && open && stacked_on_pull(m, i),
        SyncPhase::Checkout => untouched(s) && decided,
        SyncPhase::Rebase => untouched(s) && decided && here,
        SyncPhase::Push => untouched(s) && decided && here && !w0.conflicting.contains(
            m.branches[i].name,
        ),
        SyncPhase::Retarget => untouched(s) && decided && here && s.retarget
            && !w0.conflicting.contains(m.branches[i].name),
        SyncPhase::Abort => failed_here(s, m, w0),
        SyncPhase::RestoreExists => i == s.count() && s.error is None,
        SyncPhase::RestoreCurrent => i == s.count() && s.error is None,
        SyncPhase::Restore => if s.error is Some {
            failed_here(s, m, w0)
        } else {
            i == s.count()
        },
        SyncPhase::Done => w.current == w0.current && if s.error is Some {
            failed_here(s, m, w0)
        } else {
            i == s.count()
        },
    }
}

/// The world's answer to the pending call keeps a synchronisation on the
/// course that the walk describes.
pub proof fn lemma_replay_step(s: SyncState, m: StackView, w0: WorldView, w: WorldView)
    requires
        replaying(s, m, w0, w),
        s.phase != SyncPhase::Done,
    ensures
        replaying(s.advance(w.reply(s.pending())), m, w0, w.after(s.pending())),
{
    let i = s.index;
    let t = s.advance(w.reply(s.pending()));
    lemma_host_keeps_pulls(m, w0, s.dry_run, s.wait_ci, i);
    if s.phase.at_branch() {
        lemma_bases_do_not_decide(w.pulls, w0.pulls, m.branches[i].parent, 0);
        lemma_lookup_agrees(s.stack, m, m.branches[i].parent);
        if t.index == i + 1 {
            lemma_walk_on(s, t, m, w0);
        }
    }
}

/// Where a step ends the work on a branch with the outcome and the move that
/// the walk foresees, the walk holds of one branch more.
pub proof fn lemma_walk_on(s: SyncState, t: SyncState, m: StackView, w: WorldView)
    requires
        walked(s, m, w),
        s.wf(),
        s.index < s.count(),
        t.index == s.index + 1,
        t.dry_run == s.dry_run,
        t.wait_ci == s.wait_ci,
        t.outcomes == s.outcomes.update(s.index, outcome_of(m, w, s.dry_run, s.wait_ci, s.index)),
        s.dry_run || !conflicts_at(m, w, s.wait_ci, s.index),
        t.changed == (s.changed || moves(m, w, s.wait_ci, s.index)),
        t.stack == if moves(m, w, s.wait_ci, s.index) {
            s.stack.retargeted(s.index)
        } else {
            s.stack
        },
    ensures
        walked(t, m, w),
{
    assert(t.stack.branches =~= pass_stack(m, w, t.wait_ci, t.index).branches);
}

/// A walk ends at one place only.
pub proof fn lemma_stop_is_unique(m: StackView, w: WorldView, dry_run: bool, wait_ci: bool, k: int)
    requires
        is_stop(m, w, dry_run, wait_ci, k),
    ensures
        stop_of(m, w, dry_run, wait_ci) == k,
{
}

/// Every walk ends somewhere.
pub proof fn lemma_stop_exists(m: StackView, w: WorldView, dry_run: bool, wait_ci: bool, k: int)
    requires
        0 <= k <= m.branches.len(),
        forall|j: int| 0 <= j < k ==> dry_run || !#[trigger] conflicts_at(m, w, wait_ci, j),
    ensures
        is_stop(m, w, dry_run, wait_ci, stop_of(m, w, dry_run, wait_ci)),
        k <= stop_of(m, w, dry_run, wait_ci),
    decreases m.branches.len() - k,
{
    if k == m.branches.len() || (!dry_run && conflicts_at(m, w, wait_ci, k)) {
        lemma_stop_is_unique(m, w, dry_run, wait_ci, k);
    } else {
        lemma_stop_exists(m, w, dry_run, wait_ci, k + 1);
    }
}

/// A synchronisation that is over has left behind what the walk describes.
pub proof fn lemma_replay_done(s: SyncState, m: StackView, w0: WorldView, w: WorldView)
    requires
        replaying(s, m, w0, w),
        s.phase == SyncPhase::Done,
    ensures
        w == world_after_sync(m, w0, s.dry_run, s.wait_ci),
        run_of(s) == sync_run(m, w0, s.dry_run, s.wait_ci),
{
    let k = s.index;
    lemma_stop_is_unique(m, w0, s.dry_run, s.wait_ci, k);
    let goal = stopped_run(m, w0, s.dry_run, s.wait_ci, k);
    assert(s.outcomes =~= goal.outcomes);
}

/// Synchronises `config` in `world`: walks the stack from the branch next
/// to the base to the tip, and for each branch that exists and is not held
/// back by its checks, moves it onto the base where the pull request of its
/// parent has been merged, rebases it and pushes it. The first rebase that
/// fails ends the walk. A dry run only notes what it would do. Whatever
/// happens, the branch that was checked out is checked out again at the end,
/// and nothing of the world has changed but the bases of the pull requests
/// of the branches that were moved.
///
/// All this holds of a world in which the branch that is checked out is one
/// of the local branches.
pub fn run(config: StackConfig, dry_run: bool, wait_ci: bool, world: &mut World) -> (report:
    SyncReport)
    ensures
        old(world)@.wf() ==> report.run_view() == sync_run(config@, old(world)@, dry_run, wait_ci),
        old(world)@.wf() ==> final(world)@ == world_after_sync(
            config@,
            old(world)@,
            dry_run,
            wait_ci,
        ),
        old(world)@.wf() && dry_run ==> final(world)@ == old(world)@,
        old(world)@.wf() && config@.well_formed() ==> report.config@.well_formed(),
{
    let ghost m = config@;
    let ghost w0 = world@;
    let mut engine = SyncEngine::new(config, dry_run, wait_ci);
    proof {
        assert(engine@.stack.branches =~= pass_stack(m, w0, wait_ci, 0).branches);
    }
    while !engine.is_done()
        invariant
            engine@.wf(),
            w0.wf() ==> replaying(engine@, m, w0, world@),
            engine@.dry_run == dry_run,
            engine@.wait_ci == wait_ci,
        decreases calls_left(engine@),
    {
        let action = engine.action();
        let ghost before = world@;
        let reply = world.perform(&action);
        proof {
            if w0.wf() {
                lemma_replay_step(engine@, m, w0, before);
            }
        }
        engine.advance(reply);
    }
    proof {
        if w0.wf() {
            lemma_replay_done(engine@, m, w0, world@);
            lemma_host_keeps_pulls(m, w0, dry_run, wait_ci, stop_of(m, w0, dry_run, wait_ci));
            if m.well_formed() {
                sync_keeps_well_formed(m, w0, wait_ci, engine@.index);
            }
        }
    }
    engine.into_report()
}

/// The stack that a synchronisation leaves behind differs from the one it
/// began with only in this: a branch that the walk came to and got through
/// rests on the base if the pull request of its parent had been merged. A
/// branch further up rests where it did, so a merge two levels down does not
/// move it in the same run.
pub proof fn sync_moves_children_of_merged(
    m: StackView,
    w: WorldView,
    dry_run: bool,
    wait_ci: bool,
    i: int,
)
    requires
        0 <= i < m.branches.len(),
    ensures
        ({
            let run = sync_run(m, w, dry_run, wait_ci);
            let moved = i < stop_of(m, w, dry_run, wait_ci) && gate(m, w, wait_ci, i) is None
                && parent_merged(m, w, i);
            &&& run.stack.base_branch == m.base_branch
            &&& run.stack.branches.len() == m.branches.len()
            &&& run.stack.branches[i].name == m.branches[i].name
            &&& run.stack.branches[i].pr_number == m.branches[i].pr_number
            &&& run.stack.branches[i].parent == if moved {
                m.base_branch
            } else {
                m.branches[i].parent
            }
        }),
{
}

/// The lookups that decide about a branch come out the same before and after
/// a walk: a walk changes parents only.
proof fn lemma_pass_keeps_decisions(m: StackView, w: WorldView, wait_ci: bool, k: int, i: int)
    requires
        0 <= i < m.branches.len(),
    ensures
        ({
            let after = pass_stack(m, w, wait_ci, k);
            &&& gate(after, w, wait_ci, i) == gate(m, w, wait_ci, i)
            &&& conflicts_at(after, w, wait_ci, i) == conflicts_at(m, w, wait_ci, i)
            &&& after.branches[i].parent == m.branches[i].parent ==> stacked_on_pull(after, i)
                == stacked_on_pull(m, i)
            &&& after.branches[i].parent == m.base_branch ==> !stacked_on_pull(after, i)
        }),
{
    let after = pass_stack(m, w, wait_ci, k);
    lemma_lookup_agrees(after, m, m.branches[i].parent);
}

/// A second synchronisation right after the first, with nothing merged in
/// between, finds nothing to do: it ends at the same place, moves no branch,
/// leaves the stack as the first run left it, and has nothing to save.
pub proof fn sync_is_idempotent(m: StackView, w: WorldView, dry_run: bool, wait_ci: bool)
    ensures
        ({
            let first = sync_run(m, w, dry_run, wait_ci);
            let second = sync_run(first.stack, w, dry_run, wait_ci);
            &&& second.stack == first.stack
            &&& !second.save
            &&& stop_of(first.stack, w, dry_run, wait_ci) == stop_of(m, w, dry_run, wait_ci)
            &&& forall|i: int|
                0 <= i < m.branches.len() ==> !moves(first.stack, w, wait_ci, i) || i >= stop_of(
                    m,
                    w,
                    dry_run,
                    wait_ci,
                )
            &&& forall|i: int|
                0 <= i < m.branches.len() ==> #[trigger] second.outcomes[i]
                    != BranchOutcome::Planned { retarget: true } && !(second.outcomes[i] matches BranchOutcome::Synced {
                    retarget: true,
                    ..
                })
        }),
{
    lemma_stop_exists(m, w, dry_run, wait_ci, 0);
    let k = stop_of(m, w, dry_run, wait_ci);
    let m1 = pass_stack(m, w, wait_ci, k);
    assert forall|j: int| 0 <= j < m.branches.len() implies conflicts_at(m1, w, wait_ci, j)
        == conflicts_at(m, w, wait_ci, j) by {
    }
    lemma_stop_is_unique(m1, w, dry_run, wait_ci, k);
    assert forall|j: int| 0 <= j < k implies !moves(m1, w, wait_ci, j) by {
        lemma_pass_keeps_decisions(m, w, wait_ci, k, j);
    }
    lemma_no_moves(m1, w, wait_ci, k);
    let m2 = pass_stack(m1, w, wait_ci, k);
    assert(m2.branches =~= m1.branches);
}

/// Where no branch before `k` moves, none does.
proof fn lemma_no_moves(m: StackView, w: WorldView, wait_ci: bool, k: int)
    requires
        forall|j: int| 0 <= j < k ==> !moves(m, w, wait_ci, j),
    ensures
        !any_moves(m, w, wait_ci, k),
    decreases k,
{
    if k > 0 {
        lemma_no_moves(m, w, wait_ci, k - 1);
    }
}

/// A rebase that fails ends the walk there: the run reports the conflict,
/// the branch and all after it are not marked as synchronised, and nothing
/// that the walk saw from that branch on is written into the stack.
pub proof fn sync_stops_at_conflict(m: StackView, w: WorldView, wait_ci: bool, k: int)
    requires
        0 <= k < m.branches.len(),
        conflicts_at(m, w, wait_ci, k),
        forall|j: int| 0 <= j < k ==> !#[trigger] conflicts_at(m, w, wait_ci, j),
    ensures
        ({
            let run = sync_run(m, w, false, wait_ci);
            &&& run.error == Some(
                SyncErrorView::Conflict { branch: m.branches[k].name, message: conflict_text() },
            )
            &&& run.outcomes[k] == BranchOutcome::Failed
            &&& forall|j: int|
                k < j < m.branches.len() ==> #[trigger] run.outcomes[j] == BranchOutcome::NotReached
            &&& forall|j: int|
                k <= j < m.branches.len() ==> #[trigger] run.stack.branches[j] == m.branches[j]
        }),
{
    lemma_stop_is_unique(m, w, false, wait_ci, k);
}

/// A synchronisation leaves a well-formed stack well formed.
pub proof fn sync_keeps_well_formed(m: StackView, w: WorldView, wait_ci: bool, k: int)
    requires
        m.well_formed(),
        0 <= k <= m.branches.len(),
    ensures
        pass_stack(m, w, wait_ci, k).well_formed(),
    decreases k,
{
    if k == 0 {
        assert(pass_stack(m, w, wait_ci, 0).branches =~= m.branches);
    } else {
        sync_keeps_well_formed(m, w, wait_ci, k - 1);
        let before = pass_stack(m, w, wait_ci, k - 1);
        if moves(m, w, wait_ci, k - 1) {
            crate::stack::retarget_keeps_well_formed(before, k - 1);
            assert(pass_stack(m, w, wait_ci, k).branches =~= before.retargeted(k - 1).branches);
        } else {
            assert(pass_stack(m, w, wait_ci, k).branches =~= before.branches);
        }
    }
}

/// Once a real run has moved a pull request onto the base, it stays there
/// for the rest of the run.
proof fn lemma_moved_stays(m: StackView, w: WorldView, wait_ci: bool, i: int, k: int, p: int)
    requires
        0 <= i < k <= m.branches.len(),
        moves(m, w, wait_ci, i),
        m.branches[i].pr_number is Some,
        0 <= p < w.pulls.len(),
        w.pulls[p].number == m.branches[i].pr_number->0,
    ensures
        host_after(m, w, false, wait_ci, k).len() == w.pulls.len(),
        host_after(m, w, false, wait_ci, k)[p].base_ref == m.base_branch,
    decreases k,
{
    lemma_host_keeps_pulls(m, w, false, wait_ci, k - 1);
    if k - 1 > i {
        lemma_moved_stays(m, w, wait_ci, i, k - 1, p);
    }
}

/// The host follows the stack: after a real run, the pull request of each
/// branch that the run moved onto the base has the base branch as its base on
/// the host, as the branch has it as its parent in the stack.
pub proof fn host_follows_the_stack(m: StackView, w: WorldView, wait_ci: bool, i: int, p: int)
    requires
        0 <= i < stop_of(m, w, false, wait_ci),
        moves(m, w, wait_ci, i),
        m.branches[i].pr_number is Some,
        0 <= p < w.pulls.len(),
        w.pulls[p].number == m.branches[i].pr_number->0,
    ensures
        world_after_sync(m, w, false, wait_ci).pulls[p].base_ref == m.base_branch,
        sync_run(m, w, false, wait_ci).stack.branches[i].parent == m.base_branch,
{
    lemma_stop_exists(m, w, false, wait_ci, 0);
    lemma_moved_stays(m, w, wait_ci, i, stop_of(m, w, false, wait_ci), p);
}

/// The bases of the pull requests on the host decide nothing: two worlds
/// that differ in them alone see the same run.
pub proof fn sync_ignores_bases(m: StackView, w: WorldView, v: WorldView, dry_run: bool, wait_ci: bool)
    requires
        same_but_bases(v.pulls, w.pulls),
        v == (WorldView { pulls: v.pulls, ..w }),
    ensures
        sync_run(m, v, dry_run, wait_ci) == sync_run(m, w, dry_run, wait_ci),
{
    assert forall|i: int| 0 <= i < m.branches.len() implies parent_merged(m, v, i) == parent_merged(
        m,
        w,
        i,
    ) by {
        lemma_bases_do_not_decide(v.pulls, w.pulls, m.branches[i].parent, 0);
    }
    assert forall|i: int| 0 <= i < m.branches.len() implies #[trigger] conflicts_at(m, v, wait_ci, i)
        == conflicts_at(m, w, wait_ci, i) by {}
    lemma_stop_exists(m, w, dry_run, wait_ci, 0);
    let k = stop_of(m, w, dry_run, wait_ci);
    assert(is_stop(m, v, dry_run, wait_ci, k));
    lemma_stop_is_unique(m, v, dry_run, wait_ci, k);
    lemma_same_moves(m, w, v, wait_ci, k);
    assert(pass_stack(m, v, wait_ci, k).branches =~= pass_stack(m, w, wait_ci, k).branches);
    assert(stopped_run(m, v, dry_run, wait_ci, k).outcomes =~= stopped_run(
        m,
        w,
        dry_run,
        wait_ci,
        k,
    ).outcomes);
}

/// Two worlds in which the same branches move agree on whether any moves.
proof fn lemma_same_moves(m: StackView, w: WorldView, v: WorldView, wait_ci: bool, k: int)
    requires
        0 <= k <= m.branches.len(),
        forall|i: int|
            0 <= i < m.branches.len() ==> parent_merged(m, v, i) == parent_merged(m, w, i),
        v.local == w.local,
        v.checks == w.checks,
    ensures
        any_moves(m, v, wait_ci, k) == any_moves(m, w, wait_ci, k),
    decreases k,
{
    if k > 0 {
        lemma_same_moves(m, w, v, wait_ci, k - 1);
    }
}

/// Two synchronisations in a row: the second one, in the world that the
/// first one left behind, ends at the same place, moves no branch, leaves
/// the stack and the world as it found them, and has nothing to save.
pub proof fn sync_twice_is_sync_once(m: StackView, w: WorldView, dry_run: bool, wait_ci: bool)
    ensures
        ({
            let first = sync_run(m, w, dry_run, wait_ci);
            let between = world_after_sync(m, w, dry_run, wait_ci);
            let second = sync_run(first.stack, between, dry_run, wait_ci);
            &&& second.stack == first.stack
            &&& !second.save
            &&& world_after_sync(first.stack, between, dry_run, wait_ci) == between
            &&& forall|i: int|
                0 <= i < m.branches.len() ==> #[trigger] second.outcomes[i]
                    != BranchOutcome::Planned { retarget: true } && !(second.outcomes[i] matches BranchOutcome::Synced {
                    retarget: true,
                    ..
                })
        }),
{
    let first = sync_run(m, w, dry_run, wait_ci);
    let between = world_after_sync(m, w, dry_run, wait_ci);
    lemma_stop_exists(m, w, dry_run, wait_ci, 0);
    let k = stop_of(m, w, dry_run, wait_ci);
    lemma_host_keeps_pulls(m, w, dry_run, wait_ci, k);
    sync_ignores_bases(first.stack, w, between, dry_run, wait_ci);
    sync_is_idempotent(m, w, dry_run, wait_ci);
    let m1 = first.stack;
    lemma_stop_exists(m1, w, dry_run, wait_ci, 0);
    assert forall|j: int| 0 <= j < m1.branches.len() implies !moves(m1, between, wait_ci, j) || j
        >= k by {
        lemma_bases_do_not_decide(between.pulls, w.pulls, m1.branches[j].parent, 0);
    }
    assert forall|j: int| 0 <= j < m1.branches.len() implies #[trigger] conflicts_at(
        m1,
        between,
        wait_ci,
        j,
    ) == conflicts_at(m1, w, wait_ci, j) by {}
    assert(is_stop(m1, between, dry_run, wait_ci, k));
    lemma_stop_is_unique(m1, between, dry_run, wait_ci, k);
    lemma_host_unmoved(m1, between, dry_run, wait_ci, k);
}

/// Where no branch before `k` moves, the host is left as it is.
proof fn lemma_host_unmoved(m: StackView, w: WorldView, dry_run: bool, wait_ci: bool, k: int)
    requires
        forall|j: int| 0 <= j < k ==> !moves(m, w, wait_ci, j),
    ensures
        host_after(m, w, dry_run, wait_ci, k) == w.pulls,
    decreases k,
{
    if k > 0 {
        lemma_host_unmoved(m, w, dry_run, wait_ci, k - 1);
    }
}

} // verus!
