use gh_flow::commands::sync::{BranchOutcome, SyncEngine, SyncError, SyncReport};
use gh_flow::commands::sync_run::run;
use gh_flow::github::{CiStatus, PullRequest};
use gh_flow::port::{Action, Reply};
use gh_flow::stack::{BranchInfo, StackConfig};
use gh_flow::world::{Check, World};

fn branch(name: &str, parent: &str, pr: Option<u32>) -> BranchInfo {
    BranchInfo { name: name.to_string(), parent: parent.to_string(), pr_number: pr }
}

fn pull(number: u32, head: &str, base: &str, state: &str) -> PullRequest {
    PullRequest {
        number,
        title: format!("PR {}", number),
        base_ref: base.to_string(),
        head_ref: head.to_string(),
        state: state.to_string(),
    }
}

fn abc() -> StackConfig {
    StackConfig {
        base_branch: "main".to_string(),
        branches: vec![
            branch("a", "main", Some(1)),
            branch("b", "a", Some(2)),
            branch("c", "b", Some(3)),
        ],
    }
}

fn world_with_a_merged() -> World {
    World {
        current: "c".to_string(),
        local: vec!["main".to_string(), "a".to_string(), "b".to_string(), "c".to_string()],
        checks: vec![],
        pulls: vec![
            pull(1, "a", "main", "MERGED"),
            pull(2, "b", "a", "OPEN"),
            pull(3, "c", "b", "OPEN"),
        ],
        conflicting: vec![],
        approvals: vec![],
        unmergeable: vec![],
    }
}

fn parents(config: &StackConfig) -> Vec<String> {
    config.branches.iter().map(|b| b.parent.clone()).collect()
}

fn drive(mut engine: SyncEngine, world: &mut World) -> (SyncReport, Vec<Action>) {
    let mut actions = Vec::new();
    let mut steps = 0;
    while !engine.is_done() {
        let action = engine.action();
        let reply = world.perform(&action);
        actions.push(action);
        engine.advance(reply);
        steps += 1;
        assert!(steps < 1000);
    }
    assert_eq!(engine.action(), Action::Finish);
    (engine.into_report(), actions)
}

fn script(mut engine: SyncEngine, replies: Vec<Reply>) -> (SyncEngine, Vec<Action>) {
    let mut actions = Vec::new();
    for reply in replies {
        actions.push(engine.action());
        engine.advance(reply);
    }
    (engine, actions)
}

fn name(n: &str) -> Reply {
    Reply::Name { name: n.to_string() }
}

fn failed(m: &str) -> Reply {
    Reply::Failed { message: m.to_string() }
}

#[test]
fn sync_retargets_only_the_child_of_a_merged_branch() {
    let mut world = world_with_a_merged();
    let report = run(abc(), false, false, &mut world);
    assert_eq!(report.error, None);
    assert_eq!(parents(&report.config), vec!["main", "main", "b"]);
    assert_eq!(
        report.outcomes,
        vec![
            BranchOutcome::Synced { retarget: false, base_updated: false },
            BranchOutcome::Synced { retarget: true, base_updated: true },
            BranchOutcome::Synced { retarget: false, base_updated: false },
        ]
    );
    assert!(report.save);
    assert_eq!(world.current, "c");
    assert_eq!(world.pulls[0].base_ref, "main");
    assert_eq!(world.pulls[1].base_ref, "main");
    assert_eq!(world.pulls[2].base_ref, "b");
    let mut expected = world_with_a_merged();
    expected.pulls[1].base_ref = "main".to_string();
    assert_eq!(world, expected);
}

#[test]
fn host_follows_every_move() {
    let mut world = world_with_a_merged();
    world.pulls[1].state = "MERGED".to_string();
    world.pulls.push(pull(3, "c-again", "elsewhere", "OPEN"));
    let report = run(abc(), false, false, &mut world);
    assert_eq!(parents(&report.config), vec!["main", "main", "main"]);
    for (branch, number) in [("b", 2u32), ("c", 3u32)] {
        let parent = &report.config.branches.iter().find(|b| b.name == branch).unwrap().parent;
        for p in world.pulls.iter().filter(|p| p.number == number) {
            assert_eq!(&p.base_ref, parent);
        }
    }
}

#[test]
fn sync_twice_changes_nothing_the_second_time() {
    let mut world = world_with_a_merged();
    let first = run(abc(), false, false, &mut world);
    let between = world.clone();
    let second = run(first.config.clone(), false, false, &mut world);
    assert_eq!(world, between);
    assert_eq!(second.config, first.config);
    assert!(!second.save);
    assert_eq!(second.error, None);
    for outcome in &second.outcomes {
        assert_eq!(*outcome, BranchOutcome::Synced { retarget: false, base_updated: false });
    }
    let third = run(second.config.clone(), true, false, &mut world);
    for outcome in &third.outcomes {
        assert_eq!(*outcome, BranchOutcome::Planned { retarget: false });
    }
}

#[test]
fn sync_calls_in_order() {
    let mut world = world_with_a_merged();
    let (report, actions) = drive(SyncEngine::new(abc(), false, false), &mut world);
    assert_eq!(report.error, None);
    let s = |t: &str| t.to_string();
    assert_eq!(
        actions,
        vec![
            Action::CurrentBranch,
            Action::BranchExists { branch: s("a") },
            Action::Checkout { branch: s("a") },
            Action::Rebase { onto: s("main") },
            Action::Push { branch: s("a"), force: true },
            Action::BranchExists { branch: s("b") },
            Action::PullRequest { branch: s("a") },
            Action::Checkout { branch: s("b") },
            Action::Rebase { onto: s("main") },
            Action::Push { branch: s("b"), force: true },
            Action::UpdatePrBase { number: 2, base: s("main") },
            Action::BranchExists { branch: s("c") },
            Action::PullRequest { branch: s("b") },
            Action::Checkout { branch: s("c") },
            Action::Rebase { onto: s("b") },
            Action::Push { branch: s("c"), force: true },
            Action::BranchExists { branch: s("c") },
            Action::CurrentBranch,
        ]
    );
}

#[test]
fn sync_restores_the_first_branch() {
    let mut world = world_with_a_merged();
    world.current = "a".to_string();
    let (report, actions) = drive(SyncEngine::new(abc(), false, false), &mut world);
    assert_eq!(report.error, None);
    assert_eq!(actions.last(), Some(&Action::Checkout { branch: "a".to_string() }));
    assert_eq!(world.current, "a");
}

#[test]
fn dry_run_makes_no_change() {
    let mut world = world_with_a_merged();
    world.conflicting = vec!["b".to_string()];
    let before = world.clone();
    let (report, actions) = drive(SyncEngine::new(abc(), true, false), &mut world);
    for action in &actions {
        assert!(!action.is_mutation());
    }
    assert_eq!(world, before);
    assert_eq!(report.error, None);
    assert!(!report.save);
    assert_eq!(
        report.outcomes,
        vec![
            BranchOutcome::Planned { retarget: false },
            BranchOutcome::Planned { retarget: true },
            BranchOutcome::Planned { retarget: false },
        ]
    );
    assert_eq!(
        actions,
        vec![
            Action::CurrentBranch,
            Action::BranchExists { branch: "a".to_string() },
            Action::BranchExists { branch: "b".to_string() },
            Action::PullRequest { branch: "a".to_string() },
            Action::BranchExists { branch: "c".to_string() },
            Action::PullRequest { branch: "b".to_string() },
        ]
    );
}

#[test]
fn mutating_actions_are_told_apart() {
    let s = |t: &str| t.to_string();
    assert!(Action::Checkout { branch: s("a") }.is_mutation());
    assert!(Action::Rebase { onto: s("a") }.is_mutation());
    assert!(Action::AbortRebase.is_mutation());
    assert!(Action::Push { branch: s("a"), force: false }.is_mutation());
    assert!(Action::UpdatePrBase { number: 1, base: s("a") }.is_mutation());
    assert!(Action::EnableAutoMerge { number: 1 }.is_mutation());
    assert!(Action::Merge { number: 1 }.is_mutation());
    assert!(!Action::CurrentBranch.is_mutation());
    assert!(!Action::BranchExists { branch: s("a") }.is_mutation());
    assert!(!Action::CiStatus { number: 1 }.is_mutation());
    assert!(!Action::ReviewStatus { number: 1 }.is_mutation());
    assert!(!Action::PrStatus { number: 1 }.is_mutation());
    assert!(!Action::PullRequest { branch: s("a") }.is_mutation());
    assert!(!Action::Finish.is_mutation());
}

#[test]
fn conflict_stops_the_walk_and_restores_the_branch() {
    let mut world = world_with_a_merged();
    world.current = "main".to_string();
    world.conflicting = vec!["b".to_string()];
    let (report, actions) = drive(SyncEngine::new(abc(), false, false), &mut world);
    assert_eq!(
        report.error,
        Some(SyncError::Conflict {
            branch: "b".to_string(),
            message: "could not apply the commits of the branch".to_string(),
        })
    );
    assert_eq!(
        report.outcomes,
        vec![
            BranchOutcome::Synced { retarget: false, base_updated: false },
            BranchOutcome::Failed,
            BranchOutcome::NotReached,
        ]
    );
    assert_eq!(world.current, "main");
    let n = actions.len();
    assert_eq!(actions[n - 3], Action::Rebase { onto: "main".to_string() });
    assert_eq!(actions[n - 2], Action::AbortRebase);
    assert_eq!(actions[n - 1], Action::Checkout { branch: "main".to_string() });
    assert!(!actions.contains(&Action::Push { branch: "b".to_string(), force: true }));
    assert!(!actions.contains(&Action::BranchExists { branch: "c".to_string() }));
    assert_eq!(parents(&report.config), vec!["main", "a", "b"]);
    assert!(!report.save);
}

#[test]
fn conflict_keeps_the_moves_made_before_it() {
    let mut world = world_with_a_merged();
    world.conflicting = vec!["c".to_string()];
    let report = run(abc(), false, false, &mut world);
    assert!(matches!(report.error, Some(SyncError::Conflict { .. })));
    assert_eq!(parents(&report.config), vec!["main", "main", "b"]);
    assert!(report.save);
    assert_eq!(report.outcomes[2], BranchOutcome::Failed);
    assert_eq!(world.current, "c");
}

#[test]
fn missing_branch_is_skipped() {
    let mut world = world_with_a_merged();
    world.local = vec!["main".to_string(), "a".to_string(), "c".to_string()];
    let report = run(abc(), false, false, &mut world);
    assert_eq!(report.error, None);
    assert_eq!(report.outcomes[1], BranchOutcome::Missing);
    assert_eq!(parents(&report.config), vec!["main", "a", "b"]);
    assert!(!report.save);
}

#[test]
fn checks_hold_a_branch_back_when_asked_to_wait() {
    let mut world = world_with_a_merged();
    world.checks = vec![
        Check { number: 1, status: CiStatus::Success },
        Check { number: 2, status: CiStatus::Pending },
        Check { number: 3, status: CiStatus::Failure },
    ];
    let report = run(abc(), false, true, &mut world);
    assert_eq!(
        report.outcomes,
        vec![
            BranchOutcome::Synced { retarget: false, base_updated: false },
            BranchOutcome::CiPending,
            BranchOutcome::CiFailing,
        ]
    );
    assert_eq!(parents(&report.config), vec!["main", "a", "b"]);
    let report = run(abc(), false, false, &mut world);
    assert_eq!(parents(&report.config), vec!["main", "main", "b"]);
}

#[test]
fn unknown_checks_do_not_hold_a_branch_back() {
    let mut world = world_with_a_merged();
    world.checks = vec![Check { number: 3, status: CiStatus::Unknown }];
    let report = run(abc(), false, true, &mut world);
    assert_eq!(report.error, None);
    assert_eq!(parents(&report.config), vec!["main", "main", "b"]);
}

#[test]
fn parent_without_pull_request_is_not_asked_about() {
    let mut config = abc();
    config.branches[0].pr_number = None;
    let mut world = world_with_a_merged();
    let (report, actions) = drive(SyncEngine::new(config, false, false), &mut world);
    assert!(!actions.contains(&Action::PullRequest { branch: "a".to_string() }));
    assert_eq!(parents(&report.config), vec!["main", "a", "b"]);
}

#[test]
fn branch_without_pull_request_is_moved_without_host_call() {
    let mut config = abc();
    config.branches[1].pr_number = None;
    let mut world = world_with_a_merged();
    let (report, actions) = drive(SyncEngine::new(config, false, false), &mut world);
    assert_eq!(report.outcomes[1], BranchOutcome::Synced { retarget: true, base_updated: false });
    assert!(actions.iter().all(|a| !matches!(a, Action::UpdatePrBase { .. })));
    assert_eq!(parents(&report.config), vec!["main", "main", "b"]);
}

#[test]
fn empty_stack_is_done_at_once() {
    let config = StackConfig { base_branch: "main".to_string(), branches: vec![] };
    let engine = SyncEngine::new(config, false, false);
    assert!(engine.is_done());
    assert_eq!(engine.action(), Action::Finish);
    let report = engine.into_report();
    assert_eq!(report.error, None);
    assert!(!report.save);
    assert!(report.outcomes.is_empty());
}

#[test]
fn failure_to_name_the_current_branch_is_fatal() {
    let (engine, _) = script(SyncEngine::new(abc(), false, false), vec![failed("not a repository")]);
    assert!(engine.is_done());
    let report = engine.into_report();
    assert_eq!(report.error, Some(SyncError::Tool { message: "not a repository".to_string() }));
    assert_eq!(report.outcomes, vec![BranchOutcome::NotReached; 3]);
}

#[test]
fn failed_push_ends_the_walk_after_restoring() {
    let replies = vec![
        name("main"),
        Reply::Flag { value: true },
        Reply::Done,
        Reply::Done,
        failed("rejected"),
    ];
    let (mut engine, _) = script(SyncEngine::new(abc(), false, false), replies);
    assert_eq!(engine.action(), Action::Checkout { branch: "main".to_string() });
    engine.advance(failed("whatever"));
    assert!(engine.is_done());
    let report = engine.into_report();
    assert_eq!(report.error, Some(SyncError::Tool { message: "rejected".to_string() }));
    assert_eq!(report.outcomes[0], BranchOutcome::Failed);
}

#[test]
fn failed_base_update_is_not_fatal() {
    let replies = vec![
        name("main"),
        Reply::Flag { value: false },
        Reply::Flag { value: true },
        Reply::Pr { found: Some(pull(1, "a", "main", "MERGED")) },
        Reply::Done,
        Reply::Done,
        Reply::Done,
    ];
    let (mut engine, actions) = script(SyncEngine::new(abc(), false, false), replies);
    assert_eq!(actions[6], Action::Push { branch: "b".to_string(), force: true });
    assert_eq!(engine.action(), Action::UpdatePrBase { number: 2, base: "main".to_string() });
    engine.advance(failed("host is down"));
    assert_eq!(engine.action(), Action::BranchExists { branch: "c".to_string() });
    engine.advance(Reply::Flag { value: false });
    engine.advance(Reply::Flag { value: true });
    engine.advance(name("main"));
    assert!(engine.is_done());
    let report = engine.into_report();
    assert_eq!(report.error, None);
    assert_eq!(
        report.outcomes,
        vec![
            BranchOutcome::Missing,
            BranchOutcome::Synced { retarget: true, base_updated: false },
            BranchOutcome::Missing,
        ]
    );
    assert!(report.save);
    assert_eq!(parents(&report.config), vec!["main", "main", "b"]);
}

#[test]
fn failed_lookups_count_as_not_merged_and_unknown() {
    let replies = vec![
        name("main"),
        Reply::Flag { value: false },
        Reply::Flag { value: true },
        failed("checks unavailable"),
        failed("host is down"),
    ];
    let (engine, actions) = script(SyncEngine::new(abc(), true, true), replies);
    assert_eq!(actions[3], Action::CiStatus { number: 2 });
    assert_eq!(actions[4], Action::PullRequest { branch: "a".to_string() });
    assert_eq!(engine.action(), Action::BranchExists { branch: "c".to_string() });
    let report = engine.into_report();
    assert_eq!(report.outcomes[1], BranchOutcome::Planned { retarget: false });
}

#[test]
fn unexpected_reply_is_a_failure() {
    let (engine, _) = script(SyncEngine::new(abc(), false, false), vec![Reply::Done]);
    let report = engine.into_report();
    assert_eq!(report.error, Some(SyncError::Tool { message: "unexpected reply".to_string() }));
}

#[test]
fn closed_pull_request_does_not_move_the_child() {
    let mut world = world_with_a_merged();
    world.pulls[0].state = "CLOSED".to_string();
    let report = run(abc(), false, false, &mut world);
    assert_eq!(parents(&report.config), vec!["main", "a", "b"]);
    assert!(!report.save);
}

#[test]
fn world_knows_whether_its_branch_exists() {
    let mut world = world_with_a_merged();
    assert!(world.is_settled());
    world.current = "gone".to_string();
    assert!(!world.is_settled());
}

#[test]
fn sync_keeps_a_well_formed_stack_well_formed() {
    let mut world = world_with_a_merged();
    world.pulls[1].state = "MERGED".to_string();
    let report = run(abc(), false, false, &mut world);
    assert_eq!(parents(&report.config), vec!["main", "main", "main"]);
    for (i, b) in report.config.branches.iter().enumerate() {
        assert!(
            b.parent == report.config.base_branch
                || report.config.branches[..i].iter().any(|a| a.name == b.parent)
        );
    }
}

#[test]
fn world_answers_from_the_first_matching_record() {
    let mut world = world_with_a_merged();
    world.checks = vec![
        Check { number: 7, status: CiStatus::Failure },
        Check { number: 7, status: CiStatus::Success },
    ];
    world.pulls.push(pull(9, "a", "main", "OPEN"));
    assert_eq!(world.perform(&Action::CiStatus { number: 7 }), Reply::Ci { status: CiStatus::Failure });
    assert_eq!(world.perform(&Action::CiStatus { number: 8 }), Reply::Ci { status: CiStatus::Unknown });
    assert_eq!(
        world.perform(&Action::PullRequest { branch: "a".to_string() }),
        Reply::Pr { found: Some(pull(1, "a", "main", "MERGED")) }
    );
    assert_eq!(world.perform(&Action::PullRequest { branch: "zz".to_string() }), Reply::Pr { found: None });
    assert_eq!(world.perform(&Action::BranchExists { branch: "zz".to_string() }), Reply::Flag { value: false });
    assert_eq!(world.perform(&Action::CurrentBranch), name("c"));
}
