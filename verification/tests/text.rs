use gh_flow::git::{branch_exists, current_branch, first_parent_log, list_branches, push, rebase};
use gh_flow::github::{
    create_pr, get_ci_status, get_pr, get_pr_status, get_review_status, pr_number_in, read_tag,
    update_pr_base, update_pr_body, CiStatus, PrState, PullRequest, ReviewStatus,
};
use gh_flow::repo::get_repo_identifier;
use gh_flow::text::{
    chars_of, contains_char, contains_text, decimal, is_space_char, lines, parse_number, string_of,
    trim, words,
};

fn strings(items: &[&str]) -> Vec<String> {
    items.iter().map(|s| s.to_string()).collect()
}

#[test]
fn lines_split_at_line_feeds() {
    assert_eq!(lines("a\nb"), strings(&["a", "b"]));
    assert_eq!(lines("a\nb\n"), strings(&["a", "b"]));
    assert_eq!(lines("a\r\nb\r\n"), strings(&["a", "b"]));
    assert_eq!(lines("a\n\nb"), strings(&["a", "", "b"]));
    assert_eq!(lines("\n"), strings(&[""]));
    assert_eq!(lines(""), Vec::<String>::new());
    assert_eq!(lines("a\rb\r"), strings(&["a\rb\r"]));
    assert_eq!(lines("a\r\r\n"), strings(&["a\r"]));
}

#[test]
fn lines_agree_with_the_standard_library() {
    for text in ["", "x", "x\n", "\n\n", "a\r\nb\rc\n\rd", "\r\n", "é\nü\r\n", "a\n\r"] {
        let want: Vec<String> = text.lines().map(String::from).collect();
        assert_eq!(lines(text), want, "{:?}", text);
    }
}

#[test]
fn words_split_at_white_space() {
    assert_eq!(words("a b"), strings(&["a", "b"]));
    assert_eq!(words("  a \t b\n"), strings(&["a", "b"]));
    assert_eq!(words(""), Vec::<String>::new());
    assert_eq!(words(" \t "), Vec::<String>::new());
    assert_eq!(words("a\u{00A0}b\u{3000}c"), strings(&["a", "b", "c"]));
}

#[test]
fn words_agree_with_the_standard_library() {
    for text in ["", " ", "a", " a  b ", "a\u{2003}b", "x\u{85}y\u{1680}z", "p\u{200B}q", "\u{FEFF}a"] {
        let want: Vec<String> = text.split_whitespace().map(String::from).collect();
        assert_eq!(words(text), want, "{:?}", text);
    }
}

#[test]
fn white_space_is_what_the_standard_library_says() {
    for code in 0u32..0x3100 {
        if let Some(c) = char::from_u32(code) {
            assert_eq!(is_space_char(c), c.is_whitespace(), "{:x}", code);
        }
    }
}

#[test]
fn trim_removes_white_space_around() {
    assert_eq!(trim("  a b \n"), "a b");
    assert_eq!(trim("a"), "a");
    assert_eq!(trim(" \t\n"), "");
    assert_eq!(trim(""), "");
    assert_eq!(trim("\u{3000}x\u{2028}"), "x");
}

#[test]
fn characters_and_strings_convert_both_ways() {
    let chars = chars_of("héllo");
    assert_eq!(chars, vec!['h', 'é', 'l', 'l', 'o']);
    assert_eq!(string_of(&chars, 1, 4), "éll");
    assert_eq!(string_of(&chars, 2, 2), "");
    assert!(contains_char("a@b", '@'));
    assert!(!contains_char("ab", '@'));
    assert!(contains_text(&strings(&["a", "b"]), "b"));
    assert!(!contains_text(&strings(&["a", "b"]), "ab"));
}

#[test]
fn numbers_are_written_in_decimal() {
    assert_eq!(decimal(0), "0");
    assert_eq!(decimal(7), "7");
    assert_eq!(decimal(10), "10");
    assert_eq!(decimal(123), "123");
    assert_eq!(decimal(4294967295), "4294967295");
}

#[test]
fn numbers_are_read_as_the_standard_library_reads_them() {
    for text in [
        "0", "7", "007", "123", "+5", "+", "", "-1", " 1", "1 ", "12a", "4294967295", "4294967296",
        "99999999999", "00000000000000000001", "++1", "1+", "٣",
    ] {
        assert_eq!(parse_number(text), text.parse::<u32>().ok(), "{:?}", text);
    }
    assert_eq!(parse_number("123"), Some(123));
    assert_eq!(parse_number("4294967296"), None);
}

#[test]
fn pull_request_number_is_read_off_the_address() {
    assert_eq!(pr_number_in("https://github.com/owner/repo/pull/123"), Some(123));
    assert_eq!(pr_number_in("https://github.com/owner/repo/pull/123 \n"), Some(123));
    assert_eq!(pr_number_in("42"), Some(42));
    assert_eq!(pr_number_in("https://github.com/owner/repo/pull/"), None);
    assert_eq!(pr_number_in("https://github.com/owner/repo/pull/abc"), None);
    assert_eq!(pr_number_in(""), None);
}

#[test]
fn tags_are_trimmed_and_raised() {
    assert_eq!(read_tag(" merged\n"), "MERGED");
    assert_eq!(read_tag("changes_requested"), "CHANGES_REQUESTED");
    assert_eq!(read_tag("  "), "");
}

#[test]
fn states_are_read_from_output() {
    assert_eq!(get_pr_status(true, "merged\n"), PrState::Merged);
    assert_eq!(get_pr_status(true, "OPEN"), PrState::Open);
    assert_eq!(get_pr_status(true, "Closed"), PrState::Closed);
    assert_eq!(get_pr_status(true, ""), PrState::Unknown);
    assert_eq!(get_pr_status(true, "DRAFT"), PrState::Unknown);
    assert_eq!(get_pr_status(false, "MERGED"), PrState::Unknown);
    assert_eq!(get_ci_status(true, "success\n"), CiStatus::Success);
    assert_eq!(get_ci_status(true, "PENDING"), CiStatus::Pending);
    assert_eq!(get_ci_status(true, "failure"), CiStatus::Failure);
    assert_eq!(get_ci_status(true, "  "), CiStatus::Pending);
    assert_eq!(get_ci_status(true, "NEUTRAL"), CiStatus::Unknown);
    assert_eq!(get_ci_status(false, "SUCCESS"), CiStatus::Unknown);
    assert_eq!(get_review_status(true, "approved"), ReviewStatus::Approved);
    assert_eq!(get_review_status(true, "CHANGES_REQUESTED"), ReviewStatus::ChangesRequested);
    assert_eq!(get_review_status(true, "pending"), ReviewStatus::Pending);
    assert_eq!(get_review_status(true, ""), ReviewStatus::Pending);
    assert_eq!(get_review_status(true, "REVIEW_REQUIRED"), ReviewStatus::Unknown);
    assert_eq!(get_review_status(false, "APPROVED"), ReviewStatus::Unknown);
}

#[test]
fn tags_name_states_exactly() {
    assert_eq!(PrState::of_tag("MERGED"), PrState::Merged);
    assert_eq!(PrState::of_tag("merged"), PrState::Unknown);
    assert_eq!(CiStatus::of_tag("SUCCESS"), CiStatus::Success);
    assert_eq!(CiStatus::of_tag(""), CiStatus::Unknown);
    assert_eq!(CiStatus::of_reading(""), CiStatus::Pending);
    assert_eq!(ReviewStatus::of_tag("APPROVED"), ReviewStatus::Approved);
    assert_eq!(ReviewStatus::of_reading(""), ReviewStatus::Pending);
    let pr = PullRequest {
        number: 1,
        title: "t".to_string(),
        base_ref: "main".to_string(),
        head_ref: "a".to_string(),
        state: "OPEN".to_string(),
    };
    assert_eq!(pr.pr_state(), PrState::Open);
    assert_eq!(pr.clone(), pr);
}

#[test]
fn host_commands() {
    assert_eq!(
        get_pr("feat/a"),
        strings(&[
            "pr", "list", "--head", "feat/a", "--json",
            "number,title,baseRefName,headRefName,state", "--limit", "1",
        ])
    );
    assert_eq!(
        create_pr("feat/a", "main", "Title", "Body", false),
        strings(&["pr", "create", "--head", "feat/a", "--base", "main", "--title", "Title", "--body", "Body"])
    );
    assert_eq!(
        create_pr("feat/a", "main", "Title", "Body", true),
        strings(&[
            "pr", "create", "--head", "feat/a", "--base", "main", "--title", "Title", "--body",
            "Body", "--draft",
        ])
    );
    assert_eq!(update_pr_base(12, "main"), strings(&["pr", "edit", "12", "--base", "main"]));
    assert_eq!(update_pr_body(7, "text"), strings(&["pr", "edit", "7", "--body", "text"]));
}

#[test]
fn git_commands() {
    assert_eq!(current_branch(), strings(&["branch", "--show-current"]));
    assert_eq!(rebase("main"), strings(&["rebase", "main"]));
    assert_eq!(push("a", false), strings(&["push", "origin", "a"]));
    assert_eq!(push("a", true), strings(&["push", "origin", "a", "--force-with-lease"]));
    assert_eq!(
        first_parent_log("main"),
        strings(&["log", "--format=%H", "--first-parent", "main..HEAD"])
    );
}

#[test]
fn branch_listings() {
    assert_eq!(list_branches("main\nfeat/a\nfeat/b"), strings(&["main", "feat/a", "feat/b"]));
    assert!(branch_exists("main\nfeat/a\nfeat/b", "feat/a"));
    assert!(!branch_exists("main\nfeat/a\nfeat/b", "feat"));
    assert!(!branch_exists("", "main"));
}

#[test]
fn repository_is_read_off_the_remote_address() {
    let id = |url: &str| get_repo_identifier(url);
    assert_eq!(id("https://github.com/owner/repo.git"), Some("owner/repo".to_string()));
    assert_eq!(id("git@github.com:owner/repo.git"), Some("owner/repo".to_string()));
    assert_eq!(id("https://github.com/owner/repo"), Some("owner/repo".to_string()));
    assert_eq!(id("  https://github.com/owner/repo.git\n"), Some("owner/repo".to_string()));
    assert_eq!(id("https://example.org/scm/owner/repo.git"), Some("owner/repo".to_string()));
    assert_eq!(id("ssh://git@example.org/owner/repo.git.git"), Some("owner/repo".to_string()));
    assert_eq!(id("owner/repo"), Some("owner/repo".to_string()));
    assert_eq!(id("repo.git"), None);
    assert_eq!(id(""), None);
    assert_eq!(id("git@github.com:repo.git"), None);
    assert_eq!(id("https://github.com/"), None);
    assert_eq!(id("git@github.com:.git"), None);
    assert_eq!(
        id("https://github.com/a/github.com/owner/repo"),
        Some("owner/repo".to_string())
    );
    assert_eq!(id("https://github.com/x/y/github.com:o/r.git"), Some("o/r".to_string()));
    assert_eq!(id("/repo"), Some("/repo".to_string()));
}
