use vstd::prelude::*;

verus! {

/// One branch of a stack: its name, the branch it is stacked on, and the
/// number of its pull request once one exists.
#[derive(Debug, PartialEq, Eq)]
pub struct BranchInfo {
    pub name: String,
    pub parent: String,
    pub pr_number: Option<u32>,
}

/// The mathematical value of a `BranchInfo`.
pub struct BranchView {
    pub name: Seq<char>,
    pub parent: Seq<char>,
    pub pr_number: Option<u32>,
}

impl View for BranchInfo {
    type V = BranchView;

    open spec fn view(&self) -> BranchView {
        BranchView { name: self.name@, parent: self.parent@, pr_number: self.pr_number }
    }
}

impl Clone for BranchInfo {
    fn clone(&self) -> (r: Self)
        ensures
            r@ == self@,
    {
        BranchInfo {
            name: self.name.clone(),
            parent: self.parent.clone(),
            pr_number: self.pr_number,
        }
    }
}

/// A stack: the base branch and the branches on top of it, the one next to the
/// base first.
#[derive(Debug, PartialEq, Eq)]
pub struct StackConfig {
    pub base_branch: String,
    pub branches: Vec<BranchInfo>,
}

/// The mathematical value of a `StackConfig`.
pub struct StackView {
    pub base_branch: Seq<char>,
    pub branches: Seq<BranchView>,
}

impl StackView {
    /// No two branches have the same name.
    pub open spec fn names_unique(self) -> bool {
        forall|i: int, j: int|
            0 <= i < j < self.branches.len() ==> self.branches[i].name != self.branches[j].name
    }

    /// The parent of the branch at `i` is the base branch or a branch that
    /// stands before `i`.
    pub open spec fn parent_known(self, i: int) -> bool {
        self.branches[i].parent == self.base_branch || exists|j: int|
            0 <= j < i && #[trigger] self.branches[j].name == self.branches[i].parent
    }

    /// Every branch rests on the base branch or on an earlier branch.
    pub open spec fn ordered(self) -> bool {
        forall|i: int| 0 <= i < self.branches.len() ==> self.parent_known(i)
    }

    /// The invariant of a stack: unique names, each parent already in place.
    pub open spec fn well_formed(self) -> bool {
        self.names_unique() && self.ordered()
    }

    /// Some branch is called `name`.
    pub open spec fn has_branch(self, name: Seq<char>) -> bool {
        exists|i: int| 0 <= i < self.branches.len() && #[trigger] self.branches[i].name == name
    }

    /// `i` is the first place that holds a branch called `name`.
    pub open spec fn is_first_named(self, name: Seq<char>, i: int) -> bool {
        &&& 0 <= i < self.branches.len()
        &&& self.branches[i].name == name
        &&& forall|j: int| 0 <= j < i ==> (#[trigger] self.branches[j]).name != name
    }

    /// The first place that holds a branch called `name`.
    pub open spec fn index_of(self, name: Seq<char>) -> int {
        choose|i: int| self.is_first_named(name, i)
    }

    /// The stack with the branch at `i` moved onto the base branch.
    pub open spec fn retargeted(self, i: int) -> StackView {
        StackView {
            base_branch: self.base_branch,
            branches: self.branches.update(
                i,
                BranchView {
                    name: self.branches[i].name,
                    parent: self.base_branch,
                    pr_number: self.branches[i].pr_number,
                },
            ),
        }
    }

    /// Each branch rests on the one just before it, the first on the base.
    pub open spec fn is_chain(self) -> bool {
        forall|i: int|
            0 <= i < self.branches.len() ==> (#[trigger] self.branches[i]).parent == if i == 0 {
                self.base_branch
            } else {
                self.branches[i - 1].name
            }
    }
}

pub open spec fn branch_views(branches: Seq<BranchInfo>) -> Seq<BranchView> {
    Seq::new(branches.len(), |i: int| branches[i]@)
}

impl View for StackConfig {
    type V = StackView;

    open spec fn view(&self) -> StackView {
        StackView { base_branch: self.base_branch@, branches: branch_views(self.branches@) }
    }
}

impl Default for StackConfig {
    fn default() -> (r: Self)
        ensures
            r@.base_branch.len() == 0,
            r@.branches.len() == 0,
    {
        StackConfig { base_branch: String::new(), branches: Vec::new() }
    }
}

impl Clone for StackConfig {
    fn clone(&self) -> (r: Self)
        ensures
            r@ == self@,
    {
        let mut branches: Vec<BranchInfo> = Vec::new();
        let mut i: usize = 0;
        while i < self.branches.len()
            invariant
                i <= self.branches.len(),
                branches.len() == i,
                forall|k: int| 0 <= k < i ==> branches[k]@ == self.branches[k]@,
            decreases self.branches.len() - i,
        {
            branches.push(self.branches[i].clone());
            i += 1;
        }
        let r = StackConfig { base_branch: self.base_branch.clone(), branches };
        assert(r@.branches =~= self@.branches);
        r
    }
}

impl StackConfig {
    /// The place of the first branch called `name`.
    pub fn find_branch(&self, name: &str) -> (r: Option<usize>)
        ensures
            match r {
                Some(i) => self@.is_first_named(name@, i as int) && self@.index_of(name@) == i,
                None => !self@.has_branch(name@),
            },
    {
        let mut i: usize = 0;
        while i < self.branches.len()
            invariant
                i <= self.branches.len(),
                forall|j: int| 0 <= j < i ==> (#[trigger] self@.branches[j]).name != name@,
            decreases self.branches.len() - i,
        {
            if *self.branches[i].name.as_str() == *name {
                return Some(i);
            }
            i += 1;
        }
        None
    }

    /// The first branch called `name`.
    pub fn get_branch(&self, name: &str) -> (r: Option<&BranchInfo>)
        ensures
            match r {
                Some(b) => self@.is_first_named(name@, self@.index_of(name@)) && b@
                    == self@.branches[self@.index_of(name@)],
                None => !self@.has_branch(name@),
            },
    {
        match self.find_branch(name) {
            Some(i) => Some(&self.branches[i]),
            None => None,
        }
    }

    /// The first branch called `name`, to be changed in place.
    pub fn get_branch_mut(&mut self, name: &str) -> (r: Option<&mut BranchInfo>)
        ensures
            final(self)@.base_branch == old(self)@.base_branch,
            match r {
                Some(b) => old(self)@.is_first_named(name@, old(self)@.index_of(name@)) && b@
                    == old(self)@.branches[old(self)@.index_of(name@)] && final(self)@.branches == old(self)@.branches.update(
                    old(self)@.index_of(name@),
                    final(b)@,
                ),
                None => !old(self)@.has_branch(name@) && final(self)@ == old(self)@,
            },
    {
        match self.find_branch(name) {
            Some(i) => Some(&mut self.branches[i]),
            None => None,
        }
    }

    /// Moves the branch at `i` onto the base branch. A place beyond the
    /// stack moves nothing.
    pub fn retarget(&mut self, i: usize)
        ensures
            final(self)@ == if i < old(self)@.branches.len() {
                old(self)@.retargeted(i as int)
            } else {
                old(self)@
            },
    {
        if i < self.branches.len() {
            let base = self.base_branch.clone();
            self.branches[i].parent = base;
            assert(self@.branches =~= old(self)@.retargeted(i as int).branches);
        }
    }

    /// Appends a branch without a pull request. Nothing is reordered and
    /// nothing is dropped: keeping the stack well formed is up to the caller.
    pub fn add_branch(&mut self, name: String, parent: String)
        ensures
            final(self)@.base_branch == old(self)@.base_branch,
            final(self)@.branches == old(self)@.branches.push(
                BranchView { name: name@, parent: parent@, pr_number: None },
            ),
    {
        self.branches.push(BranchInfo { name, parent, pr_number: None });
        assert(self@.branches =~= old(self)@.branches.push(
            BranchView { name: name@, parent: parent@, pr_number: None },
        ));
    }
}

/// A branch with a new name, resting on the base or on a branch of the
/// stack, can be appended to a well-formed stack: the stack stays well
/// formed.
pub proof fn add_branch_keeps_well_formed(m: StackView, name: Seq<char>, parent: Seq<char>)
    requires
        m.well_formed(),
        !m.has_branch(name),
        parent == m.base_branch || m.has_branch(parent),
    ensures
        (StackView {
            base_branch: m.base_branch,
            branches: m.branches.push(BranchView { name, parent, pr_number: None }),
        }).well_formed(),
{
    let a = StackView {
        base_branch: m.base_branch,
        branches: m.branches.push(BranchView { name, parent, pr_number: None }),
    };
    let n = m.branches.len() as int;
    assert forall|i: int| 0 <= i < a.branches.len() implies a.parent_known(i) by {
        if i < n {
            assert(m.parent_known(i));
            if m.branches[i].parent != m.base_branch {
                let j = choose|j: int|
                    0 <= j < i && #[trigger] m.branches[j].name == m.branches[i].parent;
                assert(a.branches[j].name == a.branches[i].parent);
            }
        } else if parent != m.base_branch {
            let j = choose|j: int| 0 <= j < n && #[trigger] m.branches[j].name == parent;
            assert(a.branches[j].name == a.branches[i].parent);
        }
    }
}

/// Moving a branch onto the base leaves a well-formed stack well formed.
pub proof fn retarget_keeps_well_formed(m: StackView, i: int)
    requires
        m.well_formed(),
        0 <= i < m.branches.len(),
    ensures
        m.retargeted(i).well_formed(),
{
    let a = m.retargeted(i);
    assert forall|k: int| 0 <= k < a.branches.len() implies a.parent_known(k) by {
        if k != i {
            assert(m.parent_known(k));
            if m.branches[k].parent != m.base_branch {
                let j = choose|j: int|
                    0 <= j < k && #[trigger] m.branches[j].name == m.branches[k].parent;
                assert(a.branches[j].name == a.branches[k].parent);
            }
        }
    }
}

} // verus!
