use crate::config::{spec_contains, spec_paths_where, spec_without, Config, RepoView};
use crate::text::{join, lemma_strings_push, spec_strings};
use vstd::prelude::*;

verus! {

/// The list after a run of paths has been taken off it, one after the other.
pub open spec fn spec_remove_all(repos: Seq<RepoView>, paths: Seq<Seq<char>>) -> Seq<RepoView>
    decreases paths.len(),
{
    if paths.len() == 0 {
        repos
    } else {
        spec_without(spec_remove_all(repos, paths.drop_last()), paths.last())
    }
}

/// What is said of one path: whether it was on the list.
pub open spec fn spec_unregister_line(known: bool, path: Seq<char>) -> Seq<char> {
    if known {
        path + ": unregistered"@
    } else {
        path + ": not registered"@
    }
}

/// What is said of each path, in the order of the paths.
pub open spec fn spec_unregister_lines(repos: Seq<RepoView>, paths: Seq<Seq<char>>) -> Seq<
    Seq<char>,
> {
    Seq::new(
        paths.len(),
        |k: int|
            spec_unregister_line(
                spec_contains(spec_remove_all(repos, paths.take(k)), paths[k]),
                paths[k],
            ),
    )
}

/// The paths that are taken off the list: the visible ones, or, where the
/// context is kept, the others.
pub open spec fn spec_leaving(repos: Seq<RepoView>, keep_context: bool) -> Seq<Seq<char>> {
    spec_paths_where(repos, !keep_context)
}

/// Takes the repositories of the context off the list, or, where the
/// context is kept, those outside it, and returns a line to print for each.
pub fn unregister(config: &mut Config, keep_context: bool) -> (lines: Vec<String>)
    ensures
        final(config)@.path == old(config)@.path,
        final(config)@.repositories == spec_remove_all(
            old(config)@.repositories,
            spec_leaving(old(config)@.repositories, keep_context),
        ),
        spec_strings(lines@) == spec_unregister_lines(
            old(config)@.repositories,
            spec_leaving(old(config)@.repositories, keep_context),
        ),
{
    let leaving = if keep_context {
        config.invisible_repos()
    } else {
        config.visible_repos()
    };
    let ghost start = config@.repositories;
    let ghost paths = spec_strings(leaving@);
    let mut lines: Vec<String> = Vec::new();
    let mut k: usize = 0;
    assert(paths.take(0) =~= Seq::<Seq<char>>::empty());
    assert(spec_strings(lines@) =~= spec_unregister_lines(start, paths).take(0));
    while k < leaving.len()
        invariant
            k <= leaving@.len(),
            paths == spec_strings(leaving@),
            start == old(config)@.repositories,
            config@.path == old(config)@.path,
            config@.repositories == spec_remove_all(start, paths.take(k as int)),
            spec_strings(lines@) == spec_unregister_lines(start, paths).take(k as int),
        decreases leaving@.len() - k,
    {
        let path = leaving[k].as_str();
        assert(path@ == paths[k as int]);
        let removed = config.remove_repo(path);
        let line = if removed {
            join(path, ": unregistered")
        } else {
            join(path, ": not registered")
        };
        proof {
            assert(paths.take(k + 1).drop_last() =~= paths.take(k as int));
            assert(paths.take(k + 1).last() == paths[k as int]);
            lemma_strings_push(lines@, line);
            assert(spec_unregister_lines(start, paths).take(k as int).push(line@)
                =~= spec_unregister_lines(start, paths).take(k + 1));
        }
        lines.push(line);
        k += 1;
    }
    assert(paths.take(k as int) =~= paths);
    assert(spec_unregister_lines(start, paths).take(k as int) =~= spec_unregister_lines(
        start,
        paths,
    ));
    lines
}

} // verus!
