use crate::text::{lines, lines_of, texts, words, words_of};
use vstd::prelude::*;
use vstd::string::StringExecFns;

verus! {

/// A local branch together with the commit it points at.
#[derive(Debug, Clone, PartialEq, Eq)]
pub struct BranchRef {
    pub name: String,
    pub commit: String,
}

/// The mathematical value of a `BranchRef`.
pub struct RefView {
    pub name: Seq<char>,
    pub commit: Seq<char>,
}

impl View for BranchRef {
    type V = RefView;

    open spec fn view(&self) -> RefView {
        RefView { name: self.name@, commit: self.commit@ }
    }
}

pub open spec fn ref_views(refs: Seq<BranchRef>) -> Seq<RefView> {
    Seq::new(refs.len(), |i: int| refs[i]@)
}

/// What one line of a reference listing says: its first word is the branch,
/// its second the commit. A line with fewer than two words says nothing.
pub open spec fn ref_of_line(line: Seq<char>) -> Option<RefView> {
    let w = words_of(line);
    if w.len() >= 2 {
        Some(RefView { name: w[0], commit: w[1] })
    } else {
        None
    }
}

/// The references that a sequence of lines lists, in order.
pub open spec fn refs_of_lines(lines: Seq<Seq<char>>) -> Seq<RefView>
    decreases lines.len(),
{
    if lines.len() == 0 {
        Seq::empty()
    } else {
        let before = refs_of_lines(lines.drop_last());
        match ref_of_line(lines.last()) {
            Some(r) => before.push(r),
            None => before,
        }
    }
}

/// The references that a listing holds, one per line.
pub open spec fn refs_of(listing: Seq<char>) -> Seq<RefView> {
    refs_of_lines(lines_of(listing))
}

/// Reads a listing of local branches, one `name commit` pair per line.
pub fn parse_refs(listing: &str) -> (refs: Vec<BranchRef>)
    ensures
        ref_views(refs@) == refs_of(listing@),
{
    let all = lines(listing);
    let mut refs: Vec<BranchRef> = Vec::new();
    let mut i: usize = 0;
    while i < all.len()
        invariant
            i <= all.len(),
            ref_views(refs@) == refs_of_lines(texts(all@).take(i as int)),
        decreases all.len() - i,
    {
        let parts = words(all[i].as_str());
        assert(texts(all@).take(i + 1).drop_last() =~= texts(all@).take(i as int));
        if parts.len() >= 2 {
            let r = BranchRef { name: parts[0].clone(), commit: parts[1].clone() };
            refs.push(r);
        }
        i += 1;
    }
    assert(texts(all@).take(all.len() as int) =~= texts(all@));
    refs
}

/// The branches that a listing names, one per line.
pub fn list_branches(listing: &str) -> (names: Vec<String>)
    ensures
        texts(names@) == lines_of(listing@),
{
    lines(listing)
}

/// Whether a listing of branches, one per line, names `branch`.
pub fn branch_exists(listing: &str, branch: &str) -> (found: bool)
    ensures
        found == lines_of(listing@).contains(branch@),
{
    let names = list_branches(listing);
    crate::text::contains_text(&names, branch)
}

/// The arguments that ask for the branch that is checked out.
pub fn current_branch() -> (args: Vec<String>)
    ensures
        texts(args@) == seq!["branch"@, "--show-current"@],
{
    let mut args: Vec<String> = Vec::new();
    args.push("branch".to_owned());
    args.push("--show-current".to_owned());
    args
}

/// The arguments that rebase the branch that is checked out onto `target`.
pub fn rebase(target: &str) -> (args: Vec<String>)
    ensures
        texts(args@) == seq!["rebase"@, target@],
{
    let mut args: Vec<String> = Vec::new();
    args.push("rebase".to_owned());
    args.push(target.to_owned());
    args
}

/// The arguments that push `branch`; with `force`, over what the remote
/// holds, but only if that is what was last seen of it.
pub open spec fn push_args(branch: Seq<char>, force: bool) -> Seq<Seq<char>> {
    if force {
        seq!["push"@, "origin"@, branch, "--force-with-lease"@]
    } else {
        seq!["push"@, "origin"@, branch]
    }
}

/// The arguments that push `branch` to the remote.
pub fn push(branch: &str, force: bool) -> (args: Vec<String>)
    ensures
        texts(args@) == push_args(branch@, force),
{
    let mut args: Vec<String> = Vec::new();
    args.push("push".to_owned());
    args.push("origin".to_owned());
    args.push(branch.to_owned());
    if force {
        args.push("--force-with-lease".to_owned());
    }
    args
}

/// The arguments that list the commits between `base_branch` and the head
/// along first parents, newest first, one full hash per line.
pub fn first_parent_log(base_branch: &str) -> (args: Vec<String>)
    ensures
        texts(args@) == seq![
            "log"@,
            "--format=%H"@,
            "--first-parent"@,
            base_branch@ + "..HEAD"@,
        ],
{
    let mut args: Vec<String> = Vec::new();
    args.push("log".to_owned());
    args.push("--format=%H".to_owned());
    args.push("--first-parent".to_owned());
    args.push(base_branch.to_owned().concat("..HEAD"));
    assert(texts(args@) =~= seq![
        "log"@,
        "--format=%H"@,
        "--first-parent"@,
        base_branch@ + "..HEAD"@,
    ]);
    args
}

} // verus!
