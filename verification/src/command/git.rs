use crate::command::exec::{spec_git_plan, ExecPlan};
use crate::text::{lemma_strings_push, spec_strings};
use vstd::prelude::*;

verus! {

/// Plans a git command with the given arguments in every visible
/// repository, one after the other.
pub fn run(repository_count: usize, args: &Vec<String>) -> (plan: ExecPlan)
    ensures
        plan@ == spec_git_plan(repository_count as nat, false, spec_strings(args@)),
{
    if repository_count == 0 {
        return ExecPlan::NoRepositories;
    }
    let mut words: Vec<String> = Vec::new();
    let mut i: usize = 0;
    assert(spec_strings(words@) =~= spec_strings(args@).take(0));
    while i < args.len()
        invariant
            i <= args@.len(),
            spec_strings(words@) == spec_strings(args@).take(i as int),
        decreases args@.len() - i,
    {
        let word = args[i].clone();
        proof {
            lemma_strings_push(words@, word);
            assert(spec_strings(args@).take(i as int).push(word@) =~= spec_strings(args@).take(
                i + 1,
            ));
        }
        words.push(word);
        i += 1;
    }
    assert(spec_strings(args@).take(i as int) =~= spec_strings(args@));
    ExecPlan::Serial { program: String::from_str("git"), args: words }
}

} // verus!
