use crate::text::{lemma_strings_push, spec_strings};
use vstd::prelude::*;

verus! {

/// What running a command over the repositories comes to.
#[derive(Debug, PartialEq, Eq)]
pub enum ExecPlan {
    /// No command was given: warn, and do nothing.
    MissingCommand,
    /// Nothing is registered: say so, and do nothing.
    NoRepositories,
    /// Run the program in all targets at once.
    Parallel { program: String, args: Vec<String> },
    /// Run the program in one target after the other.
    Serial { program: String, args: Vec<String> },
}

/// What a plan is.
pub enum ExecPlanView {
    MissingCommand,
    NoRepositories,
    Parallel { program: Seq<char>, args: Seq<Seq<char>> },
    Serial { program: Seq<char>, args: Seq<Seq<char>> },
}

impl View for ExecPlan {
    type V = ExecPlanView;

    open spec fn view(&self) -> ExecPlanView {
        match self {
            ExecPlan::MissingCommand => ExecPlanView::MissingCommand,
            ExecPlan::NoRepositories => ExecPlanView::NoRepositories,
            ExecPlan::Parallel { program, args } => ExecPlanView::Parallel {
                program: program@,
                args: spec_strings(args@),
            },
            ExecPlan::Serial { program, args } => ExecPlanView::Serial {
                program: program@,
                args: spec_strings(args@),
            },
        }
    }
}

/// The plan for a command line: the first word is the program, the others
/// are its arguments.
pub open spec fn spec_plan(repository_count: nat, parallel: bool, words: Seq<Seq<char>>) -> ExecPlanView {
    if words.len() == 0 {
        ExecPlanView::MissingCommand
    } else if repository_count == 0 {
        ExecPlanView::NoRepositories
    } else if parallel {
        ExecPlanView::Parallel { program: words[0], args: words.skip(1) }
    } else {
        ExecPlanView::Serial { program: words[0], args: words.skip(1) }
    }
}

/// Decides what to do with a command line.
pub fn run(repository_count: usize, parallel: bool, words: &Vec<String>) -> (plan: ExecPlan)
    ensures
        plan@ == spec_plan(repository_count as nat, parallel, spec_strings(words@)),
{
    if words.len() == 0 {
        return ExecPlan::MissingCommand;
    }
    if repository_count == 0 {
        return ExecPlan::NoRepositories;
    }
    let program = words[0].clone();
    let mut args: Vec<String> = Vec::new();
    let mut i: usize = 1;
    assert(spec_strings(args@) =~= spec_strings(words@).skip(1).take(0));
    while i < words.len()
        invariant
            1 <= i <= words@.len(),
            spec_strings(args@) == spec_strings(words@).skip(1).take(i - 1),
        decreases words@.len() - i,
    {
        let word = words[i].clone();
        proof {
            lemma_strings_push(args@, word);
            assert(spec_strings(words@).skip(1).take(i - 1).push(word@) =~= spec_strings(
                words@,
            ).skip(1).take(i as int));
        }
        args.push(word);
        i += 1;
    }
    assert(spec_strings(words@).skip(1).take(i - 1) =~= spec_strings(words@).skip(1));
    if parallel {
        ExecPlan::Parallel { program, args }
    } else {
        ExecPlan::Serial { program, args }
    }
}


/// The plan for a fixed git command: nothing where nothing is registered.
pub open spec fn spec_git_plan(repository_count: nat, parallel: bool, args: Seq<Seq<char>>) -> ExecPlanView {
    if repository_count == 0 {
        ExecPlanView::NoRepositories
    } else if parallel {
        ExecPlanView::Parallel { program: "git"@, args }
    } else {
        ExecPlanView::Serial { program: "git"@, args }
    }
}

/// What is said where nothing is registered.
pub fn no_repositories() -> (message: String)
    ensures
        message@ == "No repositories registered: use the 'register' command"@,
{
    String::from_str("No repositories registered: use the 'register' command")
}

/// What is said where no command was given.
pub fn missing_command() -> (message: String)
    ensures
        message@ == "at least one command argument is required."@,
{
    String::from_str("at least one command argument is required.")
}

} // verus!
