use crate::command::exec::{spec_git_plan, ExecPlan};
use crate::text::spec_strings;
use vstd::prelude::*;

verus! {

/// Plans `git fetch` in every visible repository, all at once.
pub fn fetch(repository_count: usize) -> (plan: ExecPlan)
    ensures
        plan@ == spec_git_plan(repository_count as nat, true, seq!["fetch"@]),
{
    if repository_count == 0 {
        return ExecPlan::NoRepositories;
    }
    let mut args: Vec<String> = Vec::new();
    args.push(String::from_str("fetch"));
    assert(spec_strings(args@) =~= seq!["fetch"@]);
    ExecPlan::Parallel { program: String::from_str("git"), args }
}

} // verus!
