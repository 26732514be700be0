use gh_flow::git::{parse_refs, BranchRef};
use gh_flow::stack::StackConfig;

fn names(stack: &StackConfig) -> Vec<(String, String)> {
    stack
        .branches
        .iter()
        .map(|b| (b.name.clone(), b.parent.clone()))
        .collect()
}

fn pair(name: &str, parent: &str) -> (String, String) {
    (name.to_string(), parent.to_string())
}

#[test]
fn discover_example_stack() {
    let log = "c2\nc1";
    let refs = "main c0\nfeat/a c1\nfeat/b c2";
    let stack = match StackConfig::discover("main", "feat/b", log, refs) {
        Ok(stack) => stack,
        Err(e) => panic!("ambiguous at {}", e.commit),
    };
    assert_eq!(stack.base_branch, "main");
    assert_eq!(
        names(&stack),
        vec![pair("feat/a", "main"), pair("feat/b", "feat/a")]
    );
    assert!(stack.branches.iter().all(|b| b.pr_number.is_none()));
}

#[test]
fn discover_without_commits_on_base_is_empty() {
    let stack = match StackConfig::discover("main", "main", "", "main c0\nfeat/a c0") {
        Ok(stack) => stack,
        Err(e) => panic!("ambiguous at {}", e.commit),
    };
    assert_eq!(stack.base_branch, "main");
    assert!(stack.branches.is_empty());
}

#[test]
fn discover_without_commits_off_base_is_single() {
    let stack = match StackConfig::discover("main", "feat/a", "", "main c0\nfeat/a c0") {
        Ok(stack) => stack,
        Err(e) => panic!("ambiguous at {}", e.commit),
    };
    assert_eq!(names(&stack), vec![pair("feat/a", "main")]);
}

#[test]
fn discover_reports_ambiguity() {
    let log = "c3\nc2\nc1";
    let refs = "main c0\nfeat/a c1\nfeat/x c2\nfeat/y c2\nfeat/b c3";
    match StackConfig::discover("main", "feat/b", log, refs) {
        Ok(_) => panic!("an ambiguous history gave a stack"),
        Err(e) => {
            assert_eq!(e.commit, "c2");
            assert_eq!(e.branches, vec!["feat/x".to_string(), "feat/y".to_string()]);
        }
    }
}

#[test]
fn discover_reports_newest_ambiguity_first() {
    let log = "c2\nc1";
    let refs = "a c1\nb c1\nc c2\nd c2";
    match StackConfig::discover("main", "d", log, refs) {
        Ok(_) => panic!("an ambiguous history gave a stack"),
        Err(e) => {
            assert_eq!(e.commit, "c2");
            assert_eq!(e.branches, vec!["c".to_string(), "d".to_string()]);
        }
    }
}

#[test]
fn discover_ignores_ambiguity_off_the_chain() {
    let log = "c2\nc1";
    let refs = "main c0\nold/x c9\nold/y c9\nfeat/a c1\nfeat/b c2";
    let stack = match StackConfig::discover("main", "feat/b", log, refs) {
        Ok(stack) => stack,
        Err(e) => panic!("ambiguous at {}", e.commit),
    };
    assert_eq!(
        names(&stack),
        vec![pair("feat/a", "main"), pair("feat/b", "feat/a")]
    );
}

#[test]
fn discover_base_pointing_into_chain_is_not_counted() {
    let log = "c2\nc1";
    let refs = "main c1\nfeat/a c1\nfeat/b c2";
    let stack = match StackConfig::discover("main", "feat/b", log, refs) {
        Ok(stack) => stack,
        Err(e) => panic!("ambiguous at {}", e.commit),
    };
    assert_eq!(
        names(&stack),
        vec![pair("feat/a", "main"), pair("feat/b", "feat/a")]
    );
}

#[test]
fn discover_appends_current_branch_without_ref() {
    let log = "c3\nc2\nc1";
    let refs = "main c0\nfeat/a c1";
    let stack = match StackConfig::discover("main", "feat/tip", log, refs) {
        Ok(stack) => stack,
        Err(e) => panic!("ambiguous at {}", e.commit),
    };
    assert_eq!(
        names(&stack),
        vec![pair("feat/a", "main"), pair("feat/tip", "feat/a")]
    );
}

#[test]
fn discover_places_a_branch_once() {
    let log = "c3\nc2\nc1";
    let refs = "feat/a c1\nfeat/a c2\nfeat/b c3";
    let stack = match StackConfig::discover("main", "feat/b", log, refs) {
        Ok(stack) => stack,
        Err(e) => panic!("ambiguous at {}", e.commit),
    };
    assert_eq!(
        names(&stack),
        vec![pair("feat/a", "main"), pair("feat/b", "feat/a")]
    );
}

#[test]
fn discover_reads_windows_line_ends_and_blank_columns() {
    let log = "c2\r\nc1\r\n";
    let refs = "main\tc0\r\n  feat/a   c1  extra\r\nlonely\r\n\r\nfeat/b c2\r\n";
    let stack = match StackConfig::discover("main", "feat/b", log, refs) {
        Ok(stack) => stack,
        Err(e) => panic!("ambiguous at {}", e.commit),
    };
    assert_eq!(
        names(&stack),
        vec![pair("feat/a", "main"), pair("feat/b", "feat/a")]
    );
}

#[test]
fn discovered_stack_is_ordered_and_unique() {
    let log = "c5\nc4\nc3\nc2\nc1";
    let refs = "main c0\nb c2\na c1\nc c4\nd c5";
    let stack = match StackConfig::discover("main", "d", log, refs) {
        Ok(stack) => stack,
        Err(e) => panic!("ambiguous at {}", e.commit),
    };
    assert_eq!(stack.branches.len(), 4);
    for (i, branch) in stack.branches.iter().enumerate() {
        let known = branch.parent == stack.base_branch
            || stack.branches[..i].iter().any(|b| b.name == branch.parent);
        assert!(known);
        assert!(stack.branches[..i].iter().all(|b| b.name != branch.name));
    }
}

#[test]
fn from_history_matches_discover() {
    let commits = vec!["c2".to_string(), "c1".to_string()];
    let refs = vec![
        BranchRef { name: "feat/a".to_string(), commit: "c1".to_string() },
        BranchRef { name: "feat/b".to_string(), commit: "c2".to_string() },
    ];
    let stack = match StackConfig::from_history("main", "feat/b", &commits, &refs) {
        Ok(stack) => stack,
        Err(e) => panic!("ambiguous at {}", e.commit),
    };
    assert_eq!(
        names(&stack),
        vec![pair("feat/a", "main"), pair("feat/b", "feat/a")]
    );
}

#[test]
fn parse_refs_takes_first_two_words() {
    let refs = parse_refs("a 1\n\nb\n c   2 3 \n");
    let got: Vec<(String, String)> = refs.iter().map(|r| (r.name.clone(), r.commit.clone())).collect();
    assert_eq!(got, vec![pair("a", "1"), pair("c", "2")]);
}
