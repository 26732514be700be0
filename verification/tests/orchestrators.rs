use gh_flow::commands::adopt::{adopt, adoption_parent, AdoptError};
use gh_flow::commands::merge::{MergeEngine, MergeError, MergeOutcome};
use gh_flow::commands::push::{PushEngine, PushOutcome};
use gh_flow::commands::split::{places_from, split, split_at, upper_half, SplitError};
use gh_flow::github::{CiStatus, PrState, PullRequest, ReviewStatus};
use gh_flow::port::{Action, Reply};
use gh_flow::stack::{BranchInfo, StackConfig};
use gh_flow::world::{Approval, Check, World};

fn branch(name: &str, parent: &str, pr: Option<u32>) -> BranchInfo {
    BranchInfo { name: name.to_string(), parent: parent.to_string(), pr_number: pr }
}

fn pull(number: u32, head: &str, base: &str, state: &str) -> PullRequest {
    PullRequest {
        number,
        title: format!("PR {}", number),
        base_ref: base.to_string(),
        head_ref: head.to_string(),
        state: state.to_string(),
    }
}

fn stack(branches: Vec<BranchInfo>) -> StackConfig {
    StackConfig { base_branch: "main".to_string(), branches }
}

fn abcd() -> StackConfig {
    stack(vec![
        branch("a", "main", Some(1)),
        branch("b", "a", None),
        branch("c", "b", Some(3)),
        branch("d", "c", Some(4)),
    ])
}

fn world() -> World {
    World {
        current: "d".to_string(),
        local: vec!["main".into(), "a".into(), "b".into(), "c".into(), "d".into()],
        checks: vec![],
        pulls: vec![
            pull(1, "a", "main", "OPEN"),
            pull(3, "c", "b", "OPEN"),
            pull(4, "d", "c", "OPEN"),
        ],
        conflicting: vec![],
        approvals: vec![
            Approval { number: 1, decision: ReviewStatus::Approved },
            Approval { number: 3, decision: ReviewStatus::Approved },
            Approval { number: 4, decision: ReviewStatus::Approved },
        ],
        unmergeable: vec![],
    }
}

fn names(config: &StackConfig) -> Vec<(String, String)> {
    config.branches.iter().map(|b| (b.name.clone(), b.parent.clone())).collect()
}

fn pair(name: &str, parent: &str) -> (String, String) {
    (name.to_string(), parent.to_string())
}

fn failed(m: &str) -> Reply {
    Reply::Failed { message: m.to_string() }
}

#[test]
fn push_walks_the_whole_chain() {
    let mut w = world();
    w.local = vec!["a".into(), "c".into(), "d".into()];
    let report = gh_flow::commands::push::run(&abcd(), true, &mut w);
    assert_eq!(
        report.outcomes,
        vec![PushOutcome::Pushed, PushOutcome::Missing, PushOutcome::Pushed, PushOutcome::Pushed]
    );
    assert_eq!(report.pushed, 3);
    assert_eq!(report.failed, 0);
    assert_eq!(report.error, None);
}

#[test]
fn push_counts_failures_and_goes_on() {
    let mut engine = PushEngine::new(&abcd(), false);
    let mut actions = Vec::new();
    let replies = vec![
        Reply::Flag { value: true },
        failed("rejected"),
        Reply::Flag { value: true },
        Reply::Done,
        Reply::Flag { value: false },
        Reply::Flag { value: true },
        failed("rejected again"),
    ];
    for reply in replies {
        assert!(!engine.is_done());
        actions.push(engine.action());
        engine.advance(reply);
    }
    assert!(engine.is_done());
    assert_eq!(engine.action(), Action::Finish);
    assert_eq!(actions[0], Action::BranchExists { branch: "a".to_string() });
    assert_eq!(actions[1], Action::Push { branch: "a".to_string(), force: false });
    assert_eq!(actions[4], Action::BranchExists { branch: "c".to_string() });
    let report = engine.into_report();
    assert_eq!(
        report.outcomes,
        vec![PushOutcome::Failed, PushOutcome::Pushed, PushOutcome::Missing, PushOutcome::Failed]
    );
    assert_eq!(report.pushed, 1);
    assert_eq!(report.failed, 2);
    assert_eq!(report.error, None);
}

#[test]
fn push_passes_the_force_flag() {
    let engine = PushEngine::new(&abcd(), true);
    let mut engine = engine;
    engine.advance(Reply::Flag { value: true });
    assert_eq!(engine.action(), Action::Push { branch: "a".to_string(), force: true });
}

#[test]
fn push_ends_when_existence_cannot_be_told() {
    let mut engine = PushEngine::new(&abcd(), false);
    engine.advance(failed("not a repository"));
    assert!(engine.is_done());
    let report = engine.into_report();
    assert_eq!(report.error, Some("not a repository".to_string()));
    assert_eq!(report.outcomes, vec![PushOutcome::NotReached; 4]);
}

#[test]
fn push_of_an_empty_stack_is_done_at_once() {
    let engine = PushEngine::new(&stack(vec![]), false);
    assert!(engine.is_done());
    let report = engine.into_report();
    assert_eq!(report.pushed, 0);
    assert_eq!(report.failed, 0);
}

#[test]
fn merge_merges_approved_pull_requests_in_order() {
    let mut w = world();
    let mut engine = MergeEngine::new(&abcd(), false, false);
    let mut actions = Vec::new();
    while !engine.is_done() {
        let action = engine.action();
        let reply = w.perform(&action);
        actions.push(action);
        engine.advance(reply);
    }
    assert_eq!(
        actions,
        vec![
            Action::PrStatus { number: 1 },
            Action::ReviewStatus { number: 1 },
            Action::Merge { number: 1 },
            Action::PrStatus { number: 3 },
            Action::ReviewStatus { number: 3 },
            Action::Merge { number: 3 },
            Action::PrStatus { number: 4 },
            Action::ReviewStatus { number: 4 },
            Action::Merge { number: 4 },
        ]
    );
    let report = engine.into_report();
    assert_eq!(
        report.outcomes,
        vec![
            MergeOutcome::Merged,
            MergeOutcome::NoPullRequest,
            MergeOutcome::Merged,
            MergeOutcome::Merged,
        ]
    );
    assert_eq!(report.error, None);
}

#[test]
fn merge_stops_at_the_first_refusal() {
    let mut w = world();
    w.unmergeable = vec![3];
    let report = gh_flow::commands::merge::run(&abcd(), false, false, &mut w);
    assert_eq!(
        report.outcomes,
        vec![
            MergeOutcome::Merged,
            MergeOutcome::NoPullRequest,
            MergeOutcome::MergeFailed,
            MergeOutcome::NotReached,
        ]
    );
    assert_eq!(report.error, None);
}

#[test]
fn auto_merge_goes_on_after_a_refusal() {
    let mut w = world();
    w.unmergeable = vec![3];
    w.approvals = vec![];
    let report = gh_flow::commands::merge::run(&abcd(), true, false, &mut w);
    assert_eq!(
        report.outcomes,
        vec![
            MergeOutcome::AutoMergeEnabled,
            MergeOutcome::NoPullRequest,
            MergeOutcome::AutoMergeFailed,
            MergeOutcome::AutoMergeEnabled,
        ]
    );
}

#[test]
fn merge_skips_what_is_merged_closed_or_unapproved() {
    let mut w = world();
    w.pulls = vec![
        pull(1, "a", "main", "MERGED"),
        pull(3, "c", "b", "CLOSED"),
        pull(4, "d", "c", "OPEN"),
    ];
    w.approvals = vec![Approval { number: 4, decision: ReviewStatus::ChangesRequested }];
    let report = gh_flow::commands::merge::run(&abcd(), false, false, &mut w);
    assert_eq!(
        report.outcomes,
        vec![
            MergeOutcome::AlreadyMerged,
            MergeOutcome::NoPullRequest,
            MergeOutcome::Closed,
            MergeOutcome::NotApproved,
        ]
    );
}

#[test]
fn merge_waits_for_checks_when_asked_to() {
    let mut w = world();
    w.checks = vec![
        Check { number: 1, status: CiStatus::Pending },
        Check { number: 3, status: CiStatus::Failure },
        Check { number: 4, status: CiStatus::Success },
    ];
    let report = gh_flow::commands::merge::run(&abcd(), false, true, &mut w);
    assert_eq!(
        report.outcomes,
        vec![
            MergeOutcome::CiPending,
            MergeOutcome::NoPullRequest,
            MergeOutcome::CiFailing,
            MergeOutcome::Merged,
        ]
    );
    let report = gh_flow::commands::merge::run(&abcd(), false, false, &mut w);
    assert_eq!(report.outcomes[0], MergeOutcome::Merged);
}

#[test]
fn merge_without_pull_requests_is_refused() {
    let config = stack(vec![branch("a", "main", None), branch("b", "a", None)]);
    let engine = MergeEngine::new(&config, false, false);
    assert!(engine.is_done());
    let report = engine.into_report();
    assert_eq!(report.error, Some(MergeError::NoPullRequests));
    assert_eq!(report.outcomes, vec![MergeOutcome::NoPullRequest; 2]);
    let report = MergeEngine::new(&stack(vec![]), false, false).into_report();
    assert_eq!(report.error, None);
}

#[test]
fn merge_ends_when_the_host_cannot_be_asked() {
    let mut engine = MergeEngine::new(&abcd(), false, true);
    engine.advance(Reply::State { state: PrState::Unknown });
    assert_eq!(engine.action(), Action::CiStatus { number: 1 });
    engine.advance(failed("host is down"));
    assert!(engine.is_done());
    let report = engine.into_report();
    assert_eq!(report.error, Some(MergeError::Tool { message: "host is down".to_string() }));
    assert_eq!(report.outcomes[0], MergeOutcome::NotReached);
}

#[test]
fn split_in_the_middle() {
    let config = abcd();
    let plan = match split(&config, &upper_half(config.branches.len())) {
        Ok(plan) => plan,
        Err(e) => panic!("refused: {:?}", e),
    };
    assert_eq!(names(&plan.remaining), vec![pair("a", "main"), pair("b", "a")]);
    assert_eq!(names(&plan.split), vec![pair("c", "main"), pair("d", "c")]);
    assert_eq!(plan.remaining.base_branch, "main");
    assert_eq!(plan.split.base_branch, "main");
    assert_eq!(plan.retarget, Some(3));
    assert_eq!(plan.split.branches[1].pr_number, Some(4));
}

#[test]
fn split_at_a_boundary() {
    let plan = match split_at(&abcd(), 1) {
        Ok(plan) => plan,
        Err(e) => panic!("refused: {:?}", e),
    };
    assert_eq!(names(&plan.remaining), vec![pair("a", "main")]);
    assert_eq!(names(&plan.split), vec![pair("b", "main"), pair("c", "b"), pair("d", "c")]);
    assert_eq!(plan.retarget, None);
    assert_eq!(split_at(&abcd(), 4), Err(SplitError::NothingSelected));
}

#[test]
fn split_of_chosen_places() {
    let plan = match split(&abcd(), &vec![3, 0, 9]) {
        Ok(plan) => plan,
        Err(e) => panic!("refused: {:?}", e),
    };
    assert_eq!(names(&plan.remaining), vec![pair("b", "a"), pair("c", "b")]);
    assert_eq!(names(&plan.split), vec![pair("a", "main"), pair("d", "c")]);
    assert_eq!(plan.retarget, Some(1));
}

#[test]
fn split_refuses_short_stacks_and_empty_choices() {
    let one = stack(vec![branch("a", "main", None)]);
    assert_eq!(split(&one, &vec![0]), Err(SplitError::TooFewBranches));
    assert_eq!(split(&stack(vec![]), &vec![]), Err(SplitError::TooFewBranches));
    assert_eq!(split(&abcd(), &vec![]), Err(SplitError::NothingSelected));
}

#[test]
fn places_are_counted_from_the_boundary() {
    assert_eq!(places_from(2, 5), vec![2, 3, 4]);
    assert_eq!(places_from(5, 5), Vec::<usize>::new());
    assert_eq!(places_from(7, 5), Vec::<usize>::new());
    assert_eq!(upper_half(5), vec![2, 3, 4]);
    assert_eq!(upper_half(2), vec![1]);
}

#[test]
fn adopt_puts_the_branch_on_the_tip() {
    let pr = pull(9, "e", "main", "OPEN");
    let adoption = match adopt(&abcd(), "e", Some(&pr)) {
        Ok(a) => a,
        Err(e) => panic!("refused: {:?}", e),
    };
    assert_eq!(adoption.parent, "d");
    assert_eq!(adoption.number, 9);
    assert!(adoption.update_base);
    assert_eq!(adoption.config.branches.len(), 5);
    assert_eq!(adoption.config.branches[4], branch("e", "d", Some(9)));
    assert_eq!(adoption.config.branches[..4], abcd().branches[..]);
}

#[test]
fn adopt_leaves_a_right_base_alone() {
    let pr = pull(9, "e", "main", "OPEN");
    let adoption = match adopt(&stack(vec![]), "e", Some(&pr)) {
        Ok(a) => a,
        Err(e) => panic!("refused: {:?}", e),
    };
    assert_eq!(adoption.parent, "main");
    assert!(!adoption.update_base);
    assert_eq!(adoption.config.branches, vec![branch("e", "main", Some(9))]);
}

#[test]
fn adopt_refusals() {
    let pr = pull(9, "e", "main", "OPEN");
    let none = StackConfig { base_branch: String::new(), branches: vec![] };
    assert_eq!(adopt(&none, "e", Some(&pr)), Err(AdoptError::NoStack));
    assert_eq!(adopt(&abcd(), "c", Some(&pr)), Err(AdoptError::AlreadyInStack));
    assert_eq!(adopt(&abcd(), "e", None), Err(AdoptError::NoPullRequest));
    assert_eq!(adopt(&abcd(), "c", None), Err(AdoptError::AlreadyInStack));
    assert_eq!(adoption_parent(&abcd(), "e"), Ok("d".to_string()));
    assert_eq!(adoption_parent(&abcd(), "a"), Err(AdoptError::AlreadyInStack));
    assert_eq!(adoption_parent(&none, "a"), Err(AdoptError::NoStack));
}
