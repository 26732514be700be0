use crate::stack::{BranchInfo, BranchView, StackConfig, StackView};
use crate::text::{decimal, decimal_of, replace_all, replaced};
use vstd::prelude::*;
use vstd::string::StringExecFns;

verus! {

/// The line of the diagram for one branch: a mark if it is the branch that
/// the diagram is drawn for, its name, and its pull request if it has one.
pub open spec fn branch_line(b: BranchView, current: Seq<char>) -> Seq<char> {
    (if b.name == current {
        "\u{25B6}"@
    } else {
        " "@
    }) + "\u{2514}\u{2500} "@ + b.name + (match b.pr_number {
        Some(n) => " PR #"@ + decimal_of(n as nat),
        None => Seq::empty(),
    }) + "\n"@
}

/// The lines of the diagram for the first `n` branches, with an arrow after
/// each branch but the last of the stack.
pub open spec fn diagram_lines(branches: Seq<BranchView>, current: Seq<char>, n: int) -> Seq<char>
    decreases n,
{
    if n <= 0 {
        Seq::empty()
    } else {
        diagram_lines(branches, current, n - 1) + branch_line(branches[n - 1], current) + (if n
            < branches.len() {
            "  \u{2193}\n"@
        } else {
            Seq::empty()
        })
    }
}

/// The diagram of a stack, drawn for the branch `current`: a fenced block
/// with the base on top and the branches below it.
pub open spec fn diagram_of(m: StackView, current: Seq<char>) -> Seq<char> {
    "```\n"@ + m.base_branch + " (base)\n"@ + diagram_lines(
        m.branches,
        current,
        m.branches.len() as int,
    ) + "```"@
}

/// The text of a pull request where no template is given.
pub open spec fn default_body(diagram: Seq<char>) -> Seq<char> {
    "## Stack\n\n"@ + diagram
        + "\n\n*This PR is part of a stack. Use [gh-flow](https://github.com/say828/gh-flow) to manage stacked PRs.*\n"@
}

/// The text of the pull request of the branch `current`: the template with
/// the diagram in place of `{{stack}}` and the branch in place of
/// `{{branch}}`, or the default text where there is no template.
pub open spec fn body_of(m: StackView, current: Seq<char>, template: Option<Seq<char>>) -> Seq<char> {
    match template {
        Some(t) => replaced(
            replaced(t, "{{stack}}"@, diagram_of(m, current)),
            "{{branch}}"@,
            current,
        ),
        None => default_body(diagram_of(m, current)),
    }
}

fn line_of(branch: &BranchInfo, current: &str) -> (line: String)
    ensures
        line@ == branch_line(branch@, current@),
{
    let mut line = if *branch.name.as_str() == *current {
        "\u{25B6}".to_owned()
    } else {
        " ".to_owned()
    };
    line.append("\u{2514}\u{2500} ");
    line.append(branch.name.as_str());
    match branch.pr_number {
        Some(n) => {
            line.append(" PR #");
            let digits = decimal(n);
            line.append(digits.as_str());
            assert(line@ =~= (if branch@.name == current@ {
                "\u{25B6}"@
            } else {
                " "@
            }) + "\u{2514}\u{2500} "@ + branch@.name + (" PR #"@ + decimal_of(n as nat)));
        },
        None => {
            assert(line@ =~= (if branch@.name == current@ {
                "\u{25B6}"@
            } else {
                " "@
            }) + "\u{2514}\u{2500} "@ + branch@.name + Seq::<char>::empty());
        },
    }
    line.append("\n");
    line
}

/// Draws the diagram of the stack for the branch `current`.
pub fn stack_diagram(config: &StackConfig, current: &str) -> (diagram: String)
    ensures
        diagram@ == diagram_of(config@, current@),
{
    let mut out = "```\n".to_owned();
    out.append(config.base_branch.as_str());
    out.append(" (base)\n");
    let ghost head = out@;
    let n = config.branches.len();
    let mut i: usize = 0;
    while i < n
        invariant
            i <= n,
            n == config.branches.len(),
            head == "```\n"@ + config@.base_branch + " (base)\n"@,
            out@ == head + diagram_lines(config@.branches, current@, i as int),
        decreases n - i,
    {
        let line = line_of(&config.branches[i], current);
        out.append(line.as_str());
        if i + 1 < n {
            out.append("  \u{2193}\n");
        }
        i += 1;
    }
    out.append("```");
    out
}

/// Writes the text of the pull request of `current_branch`: the diagram of
/// the stack inside `template`, or inside the default text where there is no
/// template.
pub fn generate_stack_visualization(
    config: &StackConfig,
    current_branch: &str,
    template: Option<&str>,
) -> (body: String)
    ensures
        body@ == body_of(
            config@,
            current_branch@,
            match template {
                Some(t) => Some(t@),
                None => None,
            },
        ),
{
    let diagram = stack_diagram(config, current_branch);
    match template {
        Some(t) => {
            let with_stack = replace_all(t, "{{stack}}", diagram.as_str());
            replace_all(with_stack.as_str(), "{{branch}}", current_branch)
        },
        None => {
            let mut body = "## Stack\n\n".to_owned();
            body.append(diagram.as_str());
            body.append(
                "\n\n*This PR is part of a stack. Use [gh-flow](https://github.com/say828/gh-flow) to manage stacked PRs.*\n",
            );
            body
        },
    }
}

/// A new text for the pull request of one branch.
#[derive(Debug, Clone, PartialEq, Eq)]
pub struct BodyUpdate {
    pub number: u32,
    pub branch: String,
    pub body: String,
}

/// The mathematical value of a `BodyUpdate`.
pub struct BodyUpdateView {
    pub number: u32,
    pub branch: Seq<char>,
    pub body: Seq<char>,
}

impl View for BodyUpdate {
    type V = BodyUpdateView;

    open spec fn view(&self) -> BodyUpdateView {
        BodyUpdateView { number: self.number, branch: self.branch@, body: self.body@ }
    }
}

pub open spec fn update_views(updates: Seq<BodyUpdate>) -> Seq<BodyUpdateView> {
    Seq::new(updates.len(), |i: int| updates[i]@)
}

/// The new texts for the pull requests of the first `n` branches, in order:
/// one for each branch that has a pull request.
pub open spec fn updates_of(m: StackView, template: Option<Seq<char>>, n: int) -> Seq<BodyUpdateView>
    decreases n,
{
    if n <= 0 {
        Seq::empty()
    } else {
        let before = updates_of(m, template, n - 1);
        let b = m.branches[n - 1];
        match b.pr_number {
            Some(number) => before.push(
                BodyUpdateView { number, branch: b.name, body: body_of(m, b.name, template) },
            ),
            None => before,
        }
    }
}

/// Writes the pull request of each branch of the stack anew.
pub fn update(config: &StackConfig, template: Option<&str>) -> (updates: Vec<BodyUpdate>)
    ensures
        update_views(updates@) == updates_of(
            config@,
            match template {
                Some(t) => Some(t@),
                None => None,
            },
            config@.branches.len() as int,
        ),
{
    let ghost tv = match template {
        Some(t) => Some(t@),
        None => None,
    };
    let mut updates: Vec<BodyUpdate> = Vec::new();
    let n = config.branches.len();
    let mut i: usize = 0;
    while i < n
        invariant
            i <= n,
            n == config.branches.len(),
            tv == match template {
                Some(t) => Some(t@),
                None => None,
            },
            update_views(updates@) == updates_of(config@, tv, i as int),
        decreases n - i,
    {
        let b = &config.branches[i];
        match b.pr_number {
            Some(number) => {
                let body = generate_stack_visualization(config, b.name.as_str(), template);
                let u = BodyUpdate { number, branch: b.name.clone(), body };
                updates.push(u);
            },
            None => {},
        }
        i += 1;
    }
    updates
}

} // verus!
