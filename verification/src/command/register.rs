use crate::config::{spec_contains, Config, RepoView};
use crate::text::{join, lemma_strings_push, spec_strings};
use vstd::prelude::*;

verus! {

/// The list after one path has been registered: unchanged where it holds
/// the path already, else with the path at its end, visible.
pub open spec fn spec_add(repos: Seq<RepoView>, path: Seq<char>) -> Seq<RepoView> {
    if spec_contains(repos, path) {
        repos
    } else {
        repos.push(RepoView { path, visible: true })
    }
}

/// The list after a run of paths has been registered, one after the other.
pub open spec fn spec_add_all(repos: Seq<RepoView>, paths: Seq<Seq<char>>) -> Seq<RepoView>
    decreases paths.len(),
{
    if paths.len() == 0 {
        repos
    } else {
        spec_add(spec_add_all(repos, paths.drop_last()), paths.last())
    }
}

/// What is said of one path: whether it was registered now or before.
pub open spec fn spec_register_line(known: bool, path: Seq<char>) -> Seq<char> {
    if known {
        path + ": already registered"@
    } else {
        path + ": registered"@
    }
}

/// What is said of each path, in the order of the paths.
pub open spec fn spec_register_lines(repos: Seq<RepoView>, paths: Seq<Seq<char>>) -> Seq<
    Seq<char>,
> {
    Seq::new(
        paths.len(),
        |k: int|
            spec_register_line(
                spec_contains(spec_add_all(repos, paths.take(k)), paths[k]),
                paths[k],
            ),
    )
}

/// What is said where nothing was found under `root`.
pub open spec fn spec_nothing_found(root: Seq<char>) -> Seq<char> {
    "No repositories discovered in '"@ + root + "'"@
}

/// Registers the repositories found under `root`, in the order in which
/// they were found, and returns a line to print for each. Where nothing was
/// found the list stays as it is and the one line says so. The flag tells
/// whether the list is to be saved: it is, unless nothing was found.
pub fn register(config: &mut Config, root: &str, discovered: &Vec<String>) -> (said: (
    Vec<String>,
    bool,
))
    ensures
        final(config)@.path == old(config)@.path,
        final(config)@.repositories == spec_add_all(
            old(config)@.repositories,
            spec_strings(discovered@),
        ),
        said.1 == (discovered@.len() > 0),
        spec_strings(said.0@) == if discovered@.len() == 0 {
            seq![spec_nothing_found(root@)]
        } else {
            spec_register_lines(old(config)@.repositories, spec_strings(discovered@))
        },
{
    let mut lines: Vec<String> = Vec::new();
    let ghost start = config@.repositories;
    let ghost paths = spec_strings(discovered@);
    if discovered.len() == 0 {
        let mut line = String::from_str("No repositories discovered in '");
        line.append(root);
        line.append("'");
        proof {
            lemma_strings_push(lines@, line);
            assert(spec_strings(lines@).push(line@) =~= seq![spec_nothing_found(root@)]);
        }
        lines.push(line);
        return (lines, false);
    }
    let mut k: usize = 0;
    assert(paths.take(0) =~= Seq::<Seq<char>>::empty());
    assert(spec_strings(lines@) =~= spec_register_lines(start, paths).take(0));
    while k < discovered.len()
        invariant
            k <= discovered@.len(),
            paths == spec_strings(discovered@),
            start == old(config)@.repositories,
            config@.path == old(config)@.path,
            config@.repositories == spec_add_all(start, paths.take(k as int)),
            spec_strings(lines@) == spec_register_lines(start, paths).take(k as int),
        decreases discovered@.len() - k,
    {
        let path = discovered[k].as_str();
        assert(path@ == paths[k as int]);
        let added = config.add_repo(path);
        let line = if added {
            join(path, ": registered")
        } else {
            join(path, ": already registered")
        };
        proof {
            assert(paths.take(k + 1).drop_last() =~= paths.take(k as int));
            assert(paths.take(k + 1).last() == paths[k as int]);
            lemma_strings_push(lines@, line);
            assert(spec_register_lines(start, paths).take(k as int).push(line@)
                =~= spec_register_lines(start, paths).take(k + 1));
        }
        lines.push(line);
        k += 1;
    }
    assert(paths.take(k as int) =~= paths);
    assert(spec_register_lines(start, paths).take(k as int) =~= spec_register_lines(
        start,
        paths,
    ));
    (lines, true)
}

} // verus!
