use gh_flow::commands::pr::{generate_stack_visualization, stack_diagram, update, BodyUpdate};
use gh_flow::commands::pr_create::{CreateEngine, CreateOutcome};
use gh_flow::commands::status::{status_label, BranchStatus, StatusEngine};
use gh_flow::discovery::AmbiguityError;
use gh_flow::github::{PrState, PullRequest};
use gh_flow::port::{Action, Reply};
use gh_flow::stack::{BranchInfo, StackConfig};
use gh_flow::text::replace_all;

fn branch(name: &str, parent: &str, pr: Option<u32>) -> BranchInfo {
    BranchInfo { name: name.to_string(), parent: parent.to_string(), pr_number: pr }
}

fn abc() -> StackConfig {
    StackConfig {
        base_branch: "main".to_string(),
        branches: vec![
            branch("a", "main", Some(12)),
            branch("b", "a", None),
            branch("c", "b", Some(7)),
        ],
    }
}

fn pull(number: u32, head: &str, state: &str) -> PullRequest {
    PullRequest {
        number,
        title: "t".to_string(),
        base_ref: "main".to_string(),
        head_ref: head.to_string(),
        state: state.to_string(),
    }
}

const DIAGRAM_FOR_B: &str =
    "```\nmain (base)\n \u{2514}\u{2500} a PR #12\n  \u{2193}\n\u{25B6}\u{2514}\u{2500} b\n  \u{2193}\n \u{2514}\u{2500} c PR #7\n```";

#[test]
fn diagram_marks_the_current_branch() {
    assert_eq!(stack_diagram(&abc(), "b"), DIAGRAM_FOR_B);
    let empty = StackConfig { base_branch: "main".to_string(), branches: vec![] };
    assert_eq!(stack_diagram(&empty, "b"), "```\nmain (base)\n```");
}

#[test]
fn default_body_wraps_the_diagram() {
    let want = format!(
        "## Stack\n\n{}\n\n*This PR is part of a stack. Use [gh-flow](https://github.com/say828/gh-flow) to manage stacked PRs.*\n",
        DIAGRAM_FOR_B
    );
    assert_eq!(generate_stack_visualization(&abc(), "b", None), want);
}

#[test]
fn template_takes_stack_and_branch() {
    let template = "# {{branch}}\n{{stack}}\n-- {{branch}} {{stack}}";
    let want = format!("# b\n{}\n-- b {}", DIAGRAM_FOR_B, DIAGRAM_FOR_B);
    assert_eq!(generate_stack_visualization(&abc(), "b", Some(template)), want);
    assert_eq!(generate_stack_visualization(&abc(), "b", Some("plain")), "plain");
}

#[test]
fn replace_all_agrees_with_the_standard_library() {
    for (text, pat, with) in [
        ("a{{x}}b{{x}}", "{{x}}", "1"),
        ("aaaa", "aa", "b"),
        ("aaa", "aa", "b"),
        ("abc", "d", "e"),
        ("", "a", "b"),
        ("abab", "ab", ""),
        ("xay", "a", "aa"),
        ("é{{s}}ü", "{{s}}", "ß"),
    ] {
        assert_eq!(replace_all(text, pat, with), text.replace(pat, with));
    }
    assert_eq!(replace_all("abc", "", "x"), "abc");
}

#[test]
fn update_writes_each_pull_request_anew() {
    let updates = update(&abc(), Some("{{branch}}"));
    assert_eq!(
        updates,
        vec![
            BodyUpdate { number: 12, branch: "a".to_string(), body: "a".to_string() },
            BodyUpdate { number: 7, branch: "c".to_string(), body: "c".to_string() },
        ]
    );
    let updates = update(&abc(), None);
    assert_eq!(updates.len(), 2);
    assert_eq!(updates[1].body, generate_stack_visualization(&abc(), "c", None));
}

#[test]
fn create_opens_what_is_missing() {
    let mut engine = CreateEngine::new(abc(), true, Some("{{branch}}: {{stack}}".to_string()));
    assert_eq!(engine.action(), Action::BranchExists { branch: "a".to_string() });
    engine.advance(Reply::Flag { value: true });
    assert_eq!(engine.action(), Action::PullRequest { branch: "a".to_string() });
    engine.advance(Reply::Pr { found: Some(pull(33, "a", "OPEN")) });
    assert_eq!(engine.action(), Action::BranchExists { branch: "b".to_string() });
    engine.advance(Reply::Flag { value: true });
    engine.advance(Reply::Pr { found: None });
    assert_eq!(engine.action(), Action::CommitTitle { branch: "b".to_string() });
    engine.advance(Reply::Text { text: "Add b".to_string() });
    let diagram =
        "```\nmain (base)\n \u{2514}\u{2500} a PR #33\n  \u{2193}\n\u{25B6}\u{2514}\u{2500} b\n  \u{2193}\n \u{2514}\u{2500} c PR #7\n```";
    assert_eq!(
        engine.action(),
        Action::CreatePr {
            head: "b".to_string(),
            base: "a".to_string(),
            title: "Add b".to_string(),
            body: format!("b: {}", diagram),
            draft: true,
        }
    );
    engine.advance(Reply::Number { number: 34 });
    assert_eq!(engine.action(), Action::BranchExists { branch: "c".to_string() });
    engine.advance(Reply::Flag { value: false });
    assert!(engine.is_done());
    assert_eq!(engine.action(), Action::Finish);
    let report = engine.into_report();
    assert_eq!(
        report.outcomes,
        vec![
            CreateOutcome::Found { number: 33 },
            CreateOutcome::Created { number: 34 },
            CreateOutcome::Missing,
        ]
    );
    assert_eq!(report.created, 1);
    assert_eq!(report.skipped, 2);
    assert_eq!(report.error, None);
    assert_eq!(
        report.config.branches,
        vec![branch("a", "main", Some(33)), branch("b", "a", Some(34)), branch("c", "b", Some(7))]
    );
}

#[test]
fn create_goes_on_after_a_refusal_and_makes_up_a_title() {
    let mut engine = CreateEngine::new(abc(), false, None);
    engine.advance(Reply::Flag { value: true });
    engine.advance(Reply::Failed { message: "host is down".to_string() });
    assert_eq!(engine.action(), Action::CommitTitle { branch: "a".to_string() });
    engine.advance(Reply::Failed { message: "no commits".to_string() });
    match engine.action() {
        Action::CreatePr { head, base, title, body, draft } => {
            assert_eq!(head, "a");
            assert_eq!(base, "main");
            assert_eq!(title, "Changes in a");
            assert_eq!(body, generate_stack_visualization(&abc(), "a", None));
            assert!(!draft);
        }
        other => panic!("unexpected action {:?}", other),
    }
    engine.advance(Reply::Failed { message: "refused".to_string() });
    assert_eq!(engine.action(), Action::BranchExists { branch: "b".to_string() });
    engine.advance(Reply::Failed { message: "not a repository".to_string() });
    assert!(engine.is_done());
    let report = engine.into_report();
    assert_eq!(report.error, Some("not a repository".to_string()));
    assert_eq!(
        report.outcomes,
        vec![CreateOutcome::Failed, CreateOutcome::NotReached, CreateOutcome::NotReached]
    );
    assert_eq!(report.created, 0);
    assert_eq!(report.skipped, 0);
    assert_eq!(report.config, abc());
}

#[test]
fn status_asks_only_where_it_has_to() {
    let mut engine = StatusEngine::new(abc());
    let mut actions = Vec::new();
    let replies = vec![
        Reply::Flag { value: true },
        Reply::Pr { found: Some(pull(99, "a", "MERGED")) },
        Reply::Flag { value: true },
        Reply::Flag { value: true },
        Reply::Pr { found: None },
    ];
    for reply in replies {
        let action = engine.action();
        assert!(!action.is_mutation());
        actions.push(action);
        engine.advance(reply);
    }
    assert!(engine.is_done());
    assert_eq!(
        actions,
        vec![
            Action::BranchExists { branch: "a".to_string() },
            Action::PullRequest { branch: "a".to_string() },
            Action::BranchExists { branch: "b".to_string() },
            Action::BranchExists { branch: "c".to_string() },
            Action::PullRequest { branch: "c".to_string() },
        ]
    );
    let report = engine.into_report();
    assert_eq!(
        report.statuses,
        vec![
            BranchStatus::Pull { number: 12, state: PrState::Merged },
            BranchStatus::NoPullRequest,
            BranchStatus::PullNotFound { number: 7 },
        ]
    );
    assert_eq!(report.config, abc());
}

#[test]
fn status_notes_deleted_branches_and_host_errors() {
    let mut engine = StatusEngine::new(abc());
    engine.advance(Reply::Flag { value: false });
    engine.advance(Reply::Flag { value: false });
    engine.advance(Reply::Flag { value: true });
    engine.advance(Reply::Failed { message: "host is down".to_string() });
    let report = engine.into_report();
    assert_eq!(
        report.statuses,
        vec![BranchStatus::Deleted, BranchStatus::Deleted, BranchStatus::PullError { number: 7 }]
    );
    assert_eq!(report.error, None);
    let mut engine = StatusEngine::new(abc());
    engine.advance(Reply::Done);
    assert!(engine.is_done());
    assert_eq!(engine.into_report().error, Some("unexpected reply".to_string()));
}

#[test]
fn status_labels() {
    assert_eq!(status_label(BranchStatus::NoPullRequest), "no PR");
    assert_eq!(status_label(BranchStatus::Deleted), "(branch deleted)");
    assert_eq!(status_label(BranchStatus::NotReached), "");
    assert_eq!(status_label(BranchStatus::Pull { number: 12, state: PrState::Open }), "PR #12 (open)");
    assert_eq!(status_label(BranchStatus::Pull { number: 12, state: PrState::Merged }), "PR #12 (merged)");
    assert_eq!(status_label(BranchStatus::Pull { number: 12, state: PrState::Closed }), "PR #12 (closed)");
    assert_eq!(status_label(BranchStatus::Pull { number: 12, state: PrState::Unknown }), "PR #12");
    assert_eq!(status_label(BranchStatus::PullNotFound { number: 3 }), "PR #3 (not found)");
    assert_eq!(status_label(BranchStatus::PullError { number: 3 }), "PR #3 (error)");
}

#[test]
fn ambiguity_message_names_commit_and_branches() {
    let e = AmbiguityError {
        commit: "0123456789abcdef".to_string(),
        branches: vec!["feat/x".to_string(), "feat/y".to_string()],
    };
    assert_eq!(
        e.message(),
        "Multiple branches point to same commit (0123456):\n  feat/x\n  feat/y\n\nPlease delete or rename one of these branches."
    );
    let short = AmbiguityError { commit: "c2".to_string(), branches: vec!["x".to_string()] };
    assert_eq!(
        short.message(),
        "Multiple branches point to same commit (c2):\n  x\n\nPlease delete or rename one of these branches."
    );
}
