use crate::terminal::{lemma_views_push, views, Color, Draw, DrawView, Span, SpanView, Style};
use crate::text::{
    decimal, lemma_index_of, lemma_strings_push, lines, spec_decimal, spec_lines, spec_strings,
    spec_strip_cr,
};
use vstd::prelude::*;

verus! {

/// One registered repository: where it is, and whether commands apply to it.
#[derive(Clone, Debug, PartialEq, Eq)]
pub struct RepoConfig {
    pub path: String,
    pub visible: bool,
}

/// The registered repositories, in the order in which they were registered,
/// and the file that keeps them.
#[derive(Clone, Debug)]
pub struct Config {
    pub path: String,
    pub repositories: Vec<RepoConfig>,
}

/// What an entry of the list is: its path and its flag.
pub struct RepoView {
    pub path: Seq<char>,
    pub visible: bool,
}

/// What the list is: its file and its entries.
pub struct ConfigView {
    pub path: Seq<char>,
    pub repositories: Seq<RepoView>,
}

impl View for RepoConfig {
    type V = RepoView;

    open spec fn view(&self) -> RepoView {
        RepoView { path: self.path@, visible: self.visible }
    }
}

/// What each entry of a list is.
pub open spec fn repo_views(repos: Seq<RepoConfig>) -> Seq<RepoView> {
    repos.map_values(|r: RepoConfig| r@)
}

impl View for Config {
    type V = ConfigView;

    open spec fn view(&self) -> ConfigView {
        ConfigView { path: self.path@, repositories: repo_views(self.repositories@) }
    }
}

/// Whether `path` is registered.
pub open spec fn spec_contains(repos: Seq<RepoView>, path: Seq<char>) -> bool {
    exists|i: int| 0 <= i < repos.len() && (#[trigger] repos[i]).path == path
}

/// The entries other than those of `path`, in their order.
pub open spec fn spec_without(repos: Seq<RepoView>, path: Seq<char>) -> Seq<RepoView>
    decreases repos.len(),
{
    if repos.len() == 0 {
        Seq::empty()
    } else if repos.last().path == path {
        spec_without(repos.drop_last(), path)
    } else {
        spec_without(repos.drop_last(), path).push(repos.last())
    }
}

/// The paths of the entries whose flag is `visible`, in their order.
pub open spec fn spec_paths_where(repos: Seq<RepoView>, visible: bool) -> Seq<Seq<char>>
    decreases repos.len(),
{
    if repos.len() == 0 {
        Seq::empty()
    } else if repos.last().visible == visible {
        spec_paths_where(repos.drop_last(), visible).push(repos.last().path)
    } else {
        spec_paths_where(repos.drop_last(), visible)
    }
}

/// The line that tells how many repositories the context holds: nothing
/// where it holds them all.
pub open spec fn spec_context_line(visible: nat, total: nat) -> Seq<DrawView> {
    if visible == total {
        Seq::empty()
    } else {
        seq![
            DrawView::Styled(
                SpanView {
                    text: "context: "@ + spec_decimal(visible) + " of "@ + spec_decimal(total)
                        + " repositories"@,
                    style: Style::spec_fg(Color::DarkGrey),
                },
            ),
            DrawView::Print(seq!['\r', '\n']),
        ]
    }
}

impl Config {
    /// Whether `repo_path` is registered.
    pub fn contains(&self, repo_path: &str) -> (found: bool)
        ensures
            found == spec_contains(self@.repositories, repo_path@),
    {
        let key = String::from_str(repo_path);
        let mut i: usize = 0;
        while i < self.repositories.len()
            invariant
                i <= self.repositories.len(),
                key@ == repo_path@,
                forall|j: int| 0 <= j < i ==> (#[trigger] self@.repositories[j]).path != key@,
            decreases self.repositories.len() - i,
        {
            if self.repositories[i].path == key {
                assert(self@.repositories[i as int].path == key@);
                return true;
            }
            i += 1;
        }
        false
    }

    /// Registers `repo_path` as a visible repository, after the others,
    /// unless it is registered already.
    pub fn add_repo(&mut self, repo_path: &str) -> (added: bool)
        ensures
            added == !spec_contains(old(self)@.repositories, repo_path@),
            final(self)@.path == old(self)@.path,
            added ==> final(self)@.repositories == old(self)@.repositories.push(
                RepoView { path: repo_path@, visible: true },
            ),
            !added ==> final(self)@.repositories == old(self)@.repositories,
    {
        if self.contains(repo_path) {
            return false;
        }
        let repo = RepoConfig { path: String::from_str(repo_path), visible: true };
        assert(repo_views(self.repositories@.push(repo)) =~= repo_views(self.repositories@).push(
            repo@,
        ));
        self.repositories.push(repo);
        true
    }

    /// Takes every entry of `repo_path` off the list and keeps the others in
    /// their order.
    pub fn remove_repo(&mut self, repo_path: &str) -> (removed: bool)
        ensures
            removed == spec_contains(old(self)@.repositories, repo_path@),
            final(self)@.path == old(self)@.path,
            final(self)@.repositories == spec_without(old(self)@.repositories, repo_path@),
    {
        let exists = self.contains(repo_path);
        let key = String::from_str(repo_path);
        let ghost all = self@.repositories;
        let mut kept: Vec<RepoConfig> = Vec::new();
        let mut i: usize = 0;
        while i < self.repositories.len()
            invariant
                i <= self.repositories.len(),
                key@ == repo_path@,
                all == repo_views(self.repositories@),
                repo_views(kept@) == spec_without(all.take(i as int), key@),
            decreases self.repositories.len() - i,
        {
            let repo = &self.repositories[i];
            proof {
                assert(all.take(i + 1).drop_last() =~= all.take(i as int));
                assert(all.take(i + 1).last() == repo@);
            }
            if repo.path != key {
                let copy = RepoConfig { path: repo.path.clone(), visible: repo.visible };
                assert(repo_views(kept@.push(copy)) =~= repo_views(kept@).push(copy@));
                kept.push(copy);
            }
            i += 1;
        }
        assert(all.take(i as int) =~= all);
        self.repositories = kept;
        exists
    }

    fn paths_where(&self, visible: bool) -> (paths: Vec<String>)
        ensures
            spec_strings(paths@) == spec_paths_where(self@.repositories, visible),
    {
        let ghost all = self@.repositories;
        let mut paths: Vec<String> = Vec::new();
        let mut i: usize = 0;
        assert(spec_strings(paths@) =~= Seq::<Seq<char>>::empty());
        while i < self.repositories.len()
            invariant
                i <= self.repositories.len(),
                all == repo_views(self.repositories@),
                spec_strings(paths@) == spec_paths_where(all.take(i as int), visible),
            decreases self.repositories.len() - i,
        {
            let repo = &self.repositories[i];
            proof {
                assert(all.take(i + 1).drop_last() =~= all.take(i as int));
                assert(all.take(i + 1).last() == repo@);
            }
            if repo.visible == visible {
                let path = repo.path.clone();
                proof {
                    lemma_strings_push(paths@, path);
                }
                paths.push(path);
            }
            i += 1;
        }
        assert(all.take(i as int) =~= all);
        paths
    }

    /// The paths that commands apply to, in the order of the list.
    pub fn visible_repos(&self) -> (paths: Vec<String>)
        ensures
            spec_strings(paths@) == spec_paths_where(self@.repositories, true),
    {
        self.paths_where(true)
    }

    /// The paths that commands leave out, in the order of the list.
    pub fn invisible_repos(&self) -> (paths: Vec<String>)
        ensures
            spec_strings(paths@) == spec_paths_where(self@.repositories, false),
    {
        self.paths_where(false)
    }
}

/// Queues the line that says how many of the repositories are in the
/// context; nothing where all of them are.
pub fn queue_context_line(config: &Config) -> (out: Vec<Draw>)
    ensures
        views(out@) == spec_context_line(
            spec_paths_where(config@.repositories, true).len(),
            config@.repositories.len(),
        ),
{
    let visible = config.visible_repos().len();
    let total = config.repositories.len();
    let mut out: Vec<Draw> = Vec::new();
    assert(views(out@) =~= Seq::<DrawView>::empty());
    if visible == total {
        return out;
    }
    let mut text = String::from_str("context: ");
    text.append(decimal(visible).as_str());
    text.append(" of ");
    text.append(decimal(total).as_str());
    text.append(" repositories");
    let line = Draw::Styled(Span::new(text, Style::fg(Color::DarkGrey)));
    let end = Draw::Print(String::from_str("\r\n"));
    proof {
        reveal_strlit("\r\n");
        assert("\r\n"@ =~= seq!['\r', '\n']);
        lemma_views_push(out@, line);
        lemma_views_push(out@.push(line), end);
        assert(views(out@.push(line).push(end)) =~= spec_context_line(
            visible as nat,
            total as nat,
        ));
    }
    out.push(line);
    out.push(end);
    out
}

/// What one line of the repositories file says: a path, invisible where the
/// line begins with `#`, which is then not part of the path.
pub open spec fn spec_parse_line(line: Seq<char>) -> RepoView {
    if line.len() > 0 && line[0] == '#' {
        RepoView { path: line.skip(1), visible: false }
    } else {
        RepoView { path: line, visible: true }
    }
}

/// What a repositories file says: one repository per line.
pub open spec fn spec_parse(contents: Seq<char>) -> Seq<RepoView> {
    spec_lines(contents).map_values(|line: Seq<char>| spec_parse_line(line))
}

/// The line of one repository in the file.
pub open spec fn spec_format_line(repo: RepoView) -> Seq<char> {
    if repo.visible {
        repo.path
    } else {
        seq!['#'] + repo.path
    }
}

/// The repositories file of a list: the lines of its entries, a line feed
/// between every two.
pub open spec fn spec_format(repos: Seq<RepoView>) -> Seq<char>
    decreases repos.len(),
{
    if repos.len() == 0 {
        Seq::empty()
    } else if repos.len() == 1 {
        spec_format_line(repos[0])
    } else {
        spec_format(repos.drop_last()) + seq!['\n'] + spec_format_line(repos.last())
    }
}

fn parse_line(line: &str) -> (repo: RepoConfig)
    ensures
        repo@ == spec_parse_line(line@),
{
    let len = line.unicode_len();
    if len > 0 && line.get_char(0) == '#' {
        let path = String::from_str(line.substring_char(1, len));
        assert(path@ =~= line@.skip(1));
        RepoConfig { path, visible: false }
    } else {
        RepoConfig { path: String::from_str(line), visible: true }
    }
}

/// Makes the list kept in the file at `repositories_path` from what the
/// file holds: an empty list where there is no such file.
pub fn read(repositories_path: &str, contents: Option<&str>) -> (config: Config)
    ensures
        config@.path == repositories_path@,
        config@.repositories == match contents {
            Some(text) => spec_parse(text@),
            None => Seq::empty(),
        },
{
    let mut repositories: Vec<RepoConfig> = Vec::new();
    assert(repo_views(repositories@) =~= Seq::<RepoView>::empty());
    match contents {
        None => {},
        Some(text) => {
            let list = lines(text);
            let ghost all = spec_lines(text@);
            let mut i: usize = 0;
            assert(repo_views(repositories@) =~= spec_parse(text@).take(0));
            while i < list.len()
                invariant
                    i <= list@.len(),
                    all == spec_strings(list@),
                    all == spec_lines(text@),
                    repo_views(repositories@) == spec_parse(text@).take(i as int),
                decreases list@.len() - i,
            {
                let repo = parse_line(list[i].as_str());
                proof {
                    assert(all[i as int] == list@[i as int]@);
                    assert(spec_parse(text@).len() == all.len());
                    assert(spec_parse(text@)[i as int] == spec_parse_line(all[i as int]));
                    assert(repo_views(repositories@.push(repo)) =~= repo_views(
                        repositories@,
                    ).push(repo@));
                    assert(spec_parse(text@).take(i as int).push(repo@) =~= spec_parse(
                        text@,
                    ).take(i + 1));
                }
                repositories.push(repo);
                i += 1;
            }
            assert(spec_parse(text@).take(i as int) =~= spec_parse(text@));
        },
    }
    Config { path: String::from_str(repositories_path), repositories }
}

impl Config {
    /// Whether nothing is registered.
    pub fn is_empty(&self) -> (empty: bool)
        ensures
            empty == (self@.repositories.len() == 0),
    {
        self.repositories.len() == 0
    }

    /// Makes the contents of the repositories file for this list.
    pub fn write(&self) -> (contents: String)
        ensures
            contents@ == spec_format(self@.repositories),
    {
        let ghost all = self@.repositories;
        let mut contents = String::new();
        let mut i: usize = 0;
        assert(all.take(0) =~= Seq::<RepoView>::empty());
        while i < self.repositories.len()
            invariant
                i <= self.repositories@.len(),
                all == repo_views(self.repositories@),
                contents@ == spec_format(all.take(i as int)),
            decreases self.repositories@.len() - i,
        {
            let repo = &self.repositories[i];
            let ghost before = contents@;
            proof {
                reveal_strlit("\n");
                reveal_strlit("#");
                assert(all.take(i + 1).drop_last() =~= all.take(i as int));
                assert(all.take(i + 1).last() == repo@);
                assert(all.take(i + 1)[0] == all[0]);
            }
            if i > 0 {
                contents.append("\n");
            }
            if !repo.visible {
                contents.append("#");
            }
            contents.append(repo.path.as_str());
            i += 1;
            assert(contents@ =~= spec_format(all.take(i as int)));
        }
        assert(all.take(i as int) =~= all);
        contents
    }
}


/// Whether a path can stand on a line of the file: it holds no line feed
/// and does not end in a carriage return.
pub open spec fn spec_fits_a_line(path: Seq<char>) -> bool {
    &&& forall|i: int| 0 <= i < path.len() ==> path[i] != '\n'
    &&& path.len() > 0 ==> path.last() != '\r'
}

/// Whether the file can hold a list so that it is read back as it is: every
/// path fits a line, no visible path begins with `#`, and the last line is
/// not empty.
pub open spec fn spec_storable(repos: Seq<RepoView>) -> bool {
    &&& forall|i: int| 0 <= i < repos.len() ==> spec_fits_a_line(#[trigger] repos[i].path)
    &&& forall|i: int|
        0 <= i < repos.len() && (#[trigger] repos[i]).visible && repos[i].path.len() > 0
            ==> repos[i].path[0] != '#'
    &&& repos.len() > 0 ==> spec_format_line(repos.last()).len() > 0
}

/// The file of a list of two entries or more is the line of the first, a
/// line feed, and the file of the others.
pub proof fn lemma_format_front(repos: Seq<RepoView>)
    requires
        repos.len() >= 2,
    ensures
        spec_format(repos) == spec_format_line(repos[0]) + seq!['\n'] + spec_format(
            repos.skip(1),
        ),
    decreases repos.len(),
{
    let rest = repos.skip(1);
    let front = repos.drop_last();
    assert(rest.last() == repos.last());
    if repos.len() == 2 {
        assert(front.len() == 1 && front[0] == repos[0]);
        assert(rest.len() == 1 && rest[0] == repos[1]);
        assert(repos.last() == repos[1]);
        assert(spec_format(front) == spec_format_line(repos[0]));
        assert(spec_format(rest) == spec_format_line(repos[1]));
    } else {
        lemma_format_front(front);
        assert(front.skip(1) =~= rest.drop_last());
        assert(front[0] == repos[0]);
        assert(spec_format(repos) =~= spec_format_line(repos[0]) + seq!['\n'] + spec_format(
            rest,
        ));
    }
}

/// A line is read back as the entry it was written for.
pub proof fn lemma_line_read_back(repo: RepoView)
    requires
        repo.visible && repo.path.len() > 0 ==> repo.path[0] != '#',
    ensures
        spec_parse_line(spec_format_line(repo)) == repo,
{
    if !repo.visible {
        assert((seq!['#'] + repo.path).skip(1) =~= repo.path);
    }
}

/// A list that the file can hold is read back from its file as it is: the
/// same paths with the same flags, in the same order.
pub proof fn lemma_read_back(repos: Seq<RepoView>)
    requires
        spec_storable(repos),
    ensures
        spec_parse(spec_format(repos)) == repos,
    decreases repos.len(),
{
    let text = spec_format(repos);
    if repos.len() == 0 {
        assert(spec_parse(text) =~= repos);
    } else {
        let first = spec_format_line(repos[0]);
        assert(spec_fits_a_line(repos[0].path));
        assert forall|j: int| 0 <= j < first.len() implies first[j] != '\n' by {
            if !repos[0].visible && j > 0 {
                assert(first[j] == repos[0].path[j - 1]);
            }
        }
        lemma_line_read_back(repos[0]);
        if repos.len() == 1 {
            lemma_index_of(text, '\n', text.len() as int);
            assert(spec_lines(text) =~= seq![text]);
            assert(spec_parse(text) =~= repos);
        } else {
            let rest = repos.skip(1);
            lemma_format_front(repos);
            assert(rest.last() == repos.last());
            assert forall|i: int| 0 <= i < rest.len() implies spec_fits_a_line(
                #[trigger] rest[i].path,
            ) by {
                assert(rest[i] == repos[i + 1]);
            }
            assert forall|i: int|
                0 <= i < rest.len() && (#[trigger] rest[i]).visible && rest[i].path.len()
                    > 0 implies rest[i].path[0] != '#' by {
                assert(rest[i] == repos[i + 1]);
            }
            lemma_read_back(rest);
            let tail = spec_format(rest);
            let at = first.len() as int;
            assert(text == first + seq!['\n'] + tail);
            assert forall|j: int| 0 <= j < at implies text[j] != '\n' by {
                assert(text[j] == first[j]);
            }
            assert(text[at] == '\n');
            lemma_index_of(text, '\n', at);
            assert(text.take(at) =~= first);
            assert(text.skip(at + 1) =~= tail);
            assert(spec_strip_cr(first) == first) by {
                if first.len() > 0 {
                    if repos[0].visible {
                        assert(first.last() == repos[0].path.last());
                    } else if repos[0].path.len() > 0 {
                        assert(first.last() == repos[0].path.last());
                    }
                }
            }
            assert(spec_lines(text) =~= seq![first] + spec_lines(tail));
            assert(spec_parse(text) =~= seq![repos[0]] + spec_parse(tail));
            assert(seq![repos[0]] + rest =~= repos);
        }
    }
}

} // verus!
