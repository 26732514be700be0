use crate::git::{parse_refs, ref_views, refs_of, BranchRef, RefView};
use crate::stack::{BranchView, StackConfig, StackView};
use crate::text::{chars_of, contains_text, lines, lines_of, string_of, texts};
use vstd::string::StringExecFns;
use vstd::prelude::*;

verus! {

/// Discovery found a commit of the stack that more than one branch points at.
#[derive(Debug, Clone, PartialEq, Eq)]
pub struct AmbiguityError {
    pub commit: String,
    pub branches: Vec<String>,
}

/// The mathematical value of an `AmbiguityError`.
pub struct AmbiguityView {
    pub commit: Seq<char>,
    pub branches: Seq<Seq<char>>,
}

impl View for AmbiguityError {
    type V = AmbiguityView;

    open spec fn view(&self) -> AmbiguityView {
        AmbiguityView { commit: self.commit@, branches: texts(self.branches@) }
    }
}

/// The texts with `sep` between each two of them.
pub open spec fn joined(items: Seq<Seq<char>>, sep: Seq<char>) -> Seq<char>
    decreases items.len(),
{
    if items.len() == 0 {
        Seq::empty()
    } else if items.len() == 1 {
        items[0]
    } else {
        joined(items.drop_last(), sep) + sep + items.last()
    }
}

/// The first seven characters of a commit's name, or all of them where
/// there are fewer.
pub open spec fn short_commit(commit: Seq<char>) -> Seq<char> {
    if commit.len() <= 7 {
        commit
    } else {
        commit.take(7)
    }
}

impl AmbiguityView {
    /// What to tell the user: the commit in short, the branches that point at
    /// it, one per line, and what to do about it.
    pub open spec fn message(self) -> Seq<char> {
        "Multiple branches point to same commit ("@ + short_commit(self.commit) + "):\n  "@
            + joined(self.branches, "\n  "@)
            + "\n\nPlease delete or rename one of these branches."@
    }
}

impl AmbiguityError {
    /// What to tell the user.
    pub fn message(&self) -> (text: String)
        ensures
            text@ == self@.message(),
    {
        let chars = chars_of(self.commit.as_str());
        let short = if chars.len() <= 7 {
            string_of(&chars, 0, chars.len())
        } else {
            string_of(&chars, 0, 7)
        };
        let mut text = "Multiple branches point to same commit (".to_owned();
        text.append(short.as_str());
        text.append("):\n  ");
        let ghost head = text@;
        let ghost names = texts(self.branches@);
        let mut i: usize = 0;
        while i < self.branches.len()
            invariant
                i <= self.branches.len(),
                names == texts(self.branches@),
                text@ == head + joined(names.take(i as int), "\n  "@),
            decreases self.branches.len() - i,
        {
            assert(names.take(i + 1).drop_last() =~= names.take(i as int));
            if i > 0 {
                text.append("\n  ");
                text.append(self.branches[i].as_str());
            } else {
                text.append(self.branches[i].as_str());
            }
            i += 1;
        }
        assert(names.take(self.branches.len() as int) =~= names);
        text.append("\n\nPlease delete or rename one of these branches.");
        text
    }
}

/// The branches other than `base` that point at `commit`, in listing order.
pub open spec fn names_at(refs: Seq<RefView>, base: Seq<char>, commit: Seq<char>) -> Seq<
    Seq<char>,
>
    decreases refs.len(),
{
    if refs.len() == 0 {
        Seq::empty()
    } else {
        let before = names_at(refs.drop_last(), base, commit);
        let r = refs.last();
        if r.commit == commit && r.name != base {
            before.push(r.name)
        } else {
            before
        }
    }
}

/// More than one branch points at `commit`.
pub open spec fn is_ambiguous(refs: Seq<RefView>, base: Seq<char>, commit: Seq<char>) -> bool {
    names_at(refs, base, commit).len() > 1
}

/// No commit of the list has more than one branch pointing at it.
pub open spec fn no_ambiguity(commits: Seq<Seq<char>>, refs: Seq<RefView>, base: Seq<char>) -> bool {
    forall|i: int| 0 <= i < commits.len() ==> !#[trigger] is_ambiguous(refs, base, commits[i])
}

/// `i` is the first place of the list that holds an ambiguous commit.
pub open spec fn is_first_ambiguous(
    commits: Seq<Seq<char>>,
    refs: Seq<RefView>,
    base: Seq<char>,
    i: int,
) -> bool {
    &&& 0 <= i < commits.len()
    &&& is_ambiguous(refs, base, commits[i])
    &&& forall|j: int| 0 <= j < i ==> !#[trigger] is_ambiguous(refs, base, commits[j])
}

/// The first place of the list that holds an ambiguous commit.
pub open spec fn first_ambiguous(commits: Seq<Seq<char>>, refs: Seq<RefView>, base: Seq<char>) -> int {
    choose|i: int| is_first_ambiguous(commits, refs, base, i)
}

/// The branches met along the commits, oldest first. The commits are listed
/// newest first; a commit names a branch when exactly one branch points at
/// it, and a branch is placed once, at its oldest commit.
pub open spec fn chain_of(commits: Seq<Seq<char>>, refs: Seq<RefView>, base: Seq<char>) -> Seq<
    Seq<char>,
>
    decreases commits.len(),
{
    if commits.len() == 0 {
        Seq::empty()
    } else {
        let older = chain_of(commits.drop_first(), refs, base);
        let names = names_at(refs, base, commits[0]);
        if names.len() == 1 && !older.contains(names[0]) {
            older.push(names[0])
        } else {
            older
        }
    }
}

/// The chain with the current branch at its end, unless it is in it already.
pub open spec fn with_current(chain: Seq<Seq<char>>, current: Seq<char>) -> Seq<Seq<char>> {
    if chain.contains(current) {
        chain
    } else {
        chain.push(current)
    }
}

/// The names of the discovered stack, the one next to the base first.
/// Without commits between base and head the current branch stands alone,
/// and not even that where it is the base itself.
pub open spec fn discovered_chain(
    base: Seq<char>,
    current: Seq<char>,
    commits: Seq<Seq<char>>,
    refs: Seq<RefView>,
) -> Seq<Seq<char>> {
    if commits.len() == 0 {
        if current != base {
            seq![current]
        } else {
            Seq::empty()
        }
    } else {
        with_current(chain_of(commits, refs, base), current)
    }
}

/// The stack in which each name rests on the one before it, the first on
/// `base`, and no branch has a pull request.
pub open spec fn stack_of(base: Seq<char>, chain: Seq<Seq<char>>) -> StackView {
    StackView {
        base_branch: base,
        branches: Seq::new(
            chain.len(),
            |i: int|
                BranchView {
                    name: chain[i],
                    parent: if i == 0 {
                        base
                    } else {
                        chain[i - 1]
                    },
                    pr_number: None,
                },
        ),
    }
}

/// What discovery yields: the stack read off the history, or the first
/// ambiguous commit of the list with the branches that point at it.
pub open spec fn discovery(
    base: Seq<char>,
    current: Seq<char>,
    commits: Seq<Seq<char>>,
    refs: Seq<RefView>,
) -> Result<StackView, AmbiguityView> {
    if no_ambiguity(commits, refs, base) {
        Ok(stack_of(base, discovered_chain(base, current, commits, refs)))
    } else {
        let i = first_ambiguous(commits, refs, base);
        Err(AmbiguityView { commit: commits[i], branches: names_at(refs, base, commits[i]) })
    }
}

/// The names of the branches other than `base` that point at `commit`.
fn names_at_commit(refs: &Vec<BranchRef>, base: &str, commit: &str) -> (names: Vec<String>)
    ensures
        texts(names@) == names_at(ref_views(refs@), base@, commit@),
{
    let mut names: Vec<String> = Vec::new();
    let mut i: usize = 0;
    while i < refs.len()
        invariant
            i <= refs.len(),
            texts(names@) == names_at(ref_views(refs@).take(i as int), base@, commit@),
        decreases refs.len() - i,
    {
        assert(ref_views(refs@).take(i + 1).drop_last() =~= ref_views(refs@).take(i as int));
        let r = &refs[i];
        if *r.commit.as_str() == *commit && *r.name.as_str() != *base {
            let name = r.name.clone();
            names.push(name);
        }
        i += 1;
    }
    assert(ref_views(refs@).take(refs.len() as int) =~= ref_views(refs@));
    names
}

/// The chain of names never holds a name twice.
pub proof fn lemma_chain_of_unique(commits: Seq<Seq<char>>, refs: Seq<RefView>, base: Seq<char>)
    ensures
        chain_of(commits, refs, base).no_duplicates(),
    decreases commits.len(),
{
    if commits.len() > 0 {
        lemma_chain_of_unique(commits.drop_first(), refs, base);
    }
}

/// The discovered names never hold a name twice.
pub proof fn lemma_discovered_chain_unique(
    base: Seq<char>,
    current: Seq<char>,
    commits: Seq<Seq<char>>,
    refs: Seq<RefView>,
)
    ensures
        discovered_chain(base, current, commits, refs).no_duplicates(),
{
    lemma_chain_of_unique(commits, refs, base);
}

/// A stack built from names that are all different is well formed, and a
/// chain.
pub proof fn lemma_stack_of_well_formed(base: Seq<char>, chain: Seq<Seq<char>>)
    requires
        chain.no_duplicates(),
    ensures
        stack_of(base, chain).well_formed(),
        stack_of(base, chain).is_chain(),
{
    let s = stack_of(base, chain);
    assert forall|i: int| 0 <= i < s.branches.len() implies s.parent_known(i) by {
        if i > 0 {
            assert(s.branches[i - 1].name == s.branches[i].parent);
        }
    }
}

/// Whatever the history, a discovered stack is well formed: no name occurs
/// twice, and each branch rests on the base or on a branch before it.
pub proof fn discovery_is_well_formed(
    base: Seq<char>,
    current: Seq<char>,
    commits: Seq<Seq<char>>,
    refs: Seq<RefView>,
)
    ensures
        discovery(base, current, commits, refs) matches Ok(stack) ==> stack.well_formed()
            && stack.is_chain(),
{
    lemma_discovered_chain_unique(base, current, commits, refs);
    lemma_stack_of_well_formed(base, discovered_chain(base, current, commits, refs));
}

/// Where two listed branches other than the base point at one commit of the
/// history, that commit has at least two names.
pub proof fn lemma_two_refs_are_ambiguous(
    refs: Seq<RefView>,
    base: Seq<char>,
    commit: Seq<char>,
    j: int,
    k: int,
)
    requires
        0 <= j < k < refs.len(),
        refs[j].commit == commit,
        refs[k].commit == commit,
        refs[j].name != base,
        refs[k].name != base,
    ensures
        names_at(refs, base, commit).len() >= 2,
    decreases refs.len(),
{
    if k == refs.len() - 1 {
        lemma_one_ref_is_named(refs.drop_last(), base, commit, j);
    } else {
        lemma_two_refs_are_ambiguous(refs.drop_last(), base, commit, j, k);
    }
}

/// Where a listed branch other than the base points at a commit, the commit
/// has at least one name.
pub proof fn lemma_one_ref_is_named(refs: Seq<RefView>, base: Seq<char>, commit: Seq<char>, j: int)
    requires
        0 <= j < refs.len(),
        refs[j].commit == commit,
        refs[j].name != base,
    ensures
        names_at(refs, base, commit).len() >= 1,
    decreases refs.len(),
{
    if j < refs.len() - 1 {
        lemma_one_ref_is_named(refs.drop_last(), base, commit, j);
    }
}

/// Two branches other than the base that point at the same commit of the
/// history make discovery fail: no stack is produced.
pub proof fn ambiguity_is_detected(
    base: Seq<char>,
    current: Seq<char>,
    commits: Seq<Seq<char>>,
    refs: Seq<RefView>,
    i: int,
    j: int,
    k: int,
)
    requires
        0 <= i < commits.len(),
        0 <= j < k < refs.len(),
        refs[j].commit == commits[i],
        refs[k].commit == commits[i],
        refs[j].name != base,
        refs[k].name != base,
    ensures
        discovery(base, current, commits, refs) is Err,
{
    lemma_two_refs_are_ambiguous(refs, base, commits[i], j, k);
    assert(is_ambiguous(refs, base, commits[i]));
}

impl StackConfig {
    /// Builds the stack from the history: `commits` are the commits between
    /// the base and the head along first parents, newest first, and `refs`
    /// are the local branches with the commits they point at.
    pub fn from_history(
        base_branch: &str,
        current: &str,
        commits: &Vec<String>,
        refs: &Vec<BranchRef>,
    ) -> (r: Result<StackConfig, AmbiguityError>)
        ensures
            match r {
                Ok(stack) => discovery(
                    base_branch@,
                    current@,
                    texts(commits@),
                    ref_views(refs@),
                ) == Ok::<StackView, AmbiguityView>(stack@),
                Err(e) => discovery(base_branch@, current@, texts(commits@), ref_views(refs@))
                    == Err::<StackView, AmbiguityView>(e@),
            },
            r matches Ok(stack) ==> stack@.well_formed() && stack@.is_chain(),
    {
        let ghost base = base_branch@;
        let ghost cs = texts(commits@);
        let ghost rs = ref_views(refs@);
        proof {
            discovery_is_well_formed(base, current@, cs, rs);
        }
        let n = commits.len();
        let mut i: usize = 0;
        while i < n
            invariant
                i <= n,
                n == commits.len(),
                cs == texts(commits@),
                rs == ref_views(refs@),
                base == base_branch@,
                forall|j: int| 0 <= j < i ==> !#[trigger] is_ambiguous(rs, base, cs[j]),
            decreases n - i,
        {
            let names = names_at_commit(refs, base_branch, commits[i].as_str());
            if names.len() > 1 {
                let commit = commits[i].clone();
                proof {
                    assert(is_first_ambiguous(cs, rs, base, i as int));
                    let f = first_ambiguous(cs, rs, base);
                }
                return Err(AmbiguityError { commit, branches: names });
            }
            i += 1;
        }
        let mut chain: Vec<String> = Vec::new();
        if n == 0 {
            if *current != *base_branch {
                chain.push(current.to_owned());
                assert(texts(chain@) =~= seq![current@]);
            } else {
                assert(texts(chain@) =~= Seq::empty());
            }
        } else {
            let mut k: usize = n;
            while k > 0
                invariant
                    k <= n,
                    n == commits.len(),
                    cs == texts(commits@),
                    rs == ref_views(refs@),
                    base == base_branch@,
                    texts(chain@) == chain_of(cs.skip(k as int), rs, base),
                decreases k,
            {
                k -= 1;
                assert(cs.skip(k as int).drop_first() =~= cs.skip(k + 1));
                let names = names_at_commit(refs, base_branch, commits[k].as_str());
                if names.len() == 1 {
                    if !contains_text(&chain, names[0].as_str()) {
                        let name = names[0].clone();
                        chain.push(name);
                    }
                }
            }
            assert(cs.skip(0) =~= cs);
            let ghost before = texts(chain@);
            if !contains_text(&chain, current) {
                chain.push(current.to_owned());
                assert(texts(chain@) =~= before.push(current@));
            }
        }
        Ok(Self::of_chain(base_branch, &chain))
    }

    /// The stack in which each name of `chain` rests on the one before it.
    pub fn of_chain(base_branch: &str, chain: &Vec<String>) -> (stack: StackConfig)
        ensures
            stack@ == stack_of(base_branch@, texts(chain@)),
    {
        let mut stack = StackConfig { base_branch: base_branch.to_owned(), branches: Vec::new() };
        let ghost goal = stack_of(base_branch@, texts(chain@));
        let mut prev: String = base_branch.to_owned();
        let mut i: usize = 0;
        while i < chain.len()
            invariant
                i <= chain.len(),
                goal == stack_of(base_branch@, texts(chain@)),
                stack@.base_branch == base_branch@,
                stack@.branches == goal.branches.take(i as int),
                prev@ == if i == 0 {
                    base_branch@
                } else {
                    chain[i - 1]@
                },
            decreases chain.len() - i,
        {
            let name = chain[i].clone();
            stack.add_branch(name, prev);
            prev = chain[i].clone();
            i += 1;
        }
        assert(goal.branches.take(chain.len() as int) =~= goal.branches);
        stack
    }

    /// Discovers the stack from what the version-control tool printed:
    /// `log_output` lists the commits between the base and the head along
    /// first parents, newest first, one per line; `branches_output` lists
    /// the local branches, one `name commit` pair per line.
    pub fn discover(base_branch: &str, current: &str, log_output: &str, branches_output: &str) -> (r:
        Result<StackConfig, AmbiguityError>)
        ensures
            match r {
                Ok(stack) => discovery(
                    base_branch@,
                    current@,
                    lines_of(log_output@),
                    refs_of(branches_output@),
                ) == Ok::<StackView, AmbiguityView>(stack@),
                Err(e) => discovery(
                    base_branch@,
                    current@,
                    lines_of(log_output@),
                    refs_of(branches_output@),
                ) == Err::<StackView, AmbiguityView>(e@),
            },
            r matches Ok(stack) ==> stack@.well_formed() && stack@.is_chain(),
    {
        let commits = lines(log_output);
        let refs = parse_refs(branches_output);
        Self::from_history(base_branch, current, &commits, &refs)
    }
}

} // verus!
