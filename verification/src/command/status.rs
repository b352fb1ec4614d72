use crate::terminal::{Color, Span, SpanView, Style};
use crate::text::{
    decimal, index_of, join, lemma_strings_push, spec_decimal, spec_index_of, spec_strings,
};
use crate::tui::table::{row_view, rows_view, span_views, Cell, Table, TableView};
use vstd::prelude::*;

verus! {

/// How many characters of a commit's hash the table shows.
pub const SHORT_HASH: usize = 7;

/// The remote that a branch follows.
#[derive(Clone, Debug)]
pub struct RemoteInfo {
    pub url: String,
    pub branch: String,
}

/// Whether the working tree differs from the last commit, and in how many
/// files.
#[derive(Clone, Copy, Debug, PartialEq, Eq)]
pub enum RepoStatus {
    Clean,
    Modified(usize),
}

/// What the status table shows of one repository.
#[derive(Clone, Debug)]
pub struct RepoInfo {
    pub parent_path: Option<String>,
    pub name: String,
    pub branch_name: String,
    pub status: RepoStatus,
    pub upstream: Option<String>,
    pub upstream_remote_info: Option<RemoteInfo>,
    pub ahead_behind: Option<(usize, usize)>,
    pub latest_commit_hash: String,
    pub latest_commit_message: String,
}

/// What is known of a remote.
pub struct RemoteInfoView {
    pub url: Seq<char>,
    pub branch: Seq<char>,
}

/// What is shown of a repository.
pub struct RepoInfoView {
    pub parent_path: Option<Seq<char>>,
    pub name: Seq<char>,
    pub branch_name: Seq<char>,
    pub status: RepoStatus,
    pub upstream: Option<Seq<char>>,
    pub upstream_remote_info: Option<RemoteInfoView>,
    pub ahead_behind: Option<(usize, usize)>,
    pub latest_commit_hash: Seq<char>,
    pub latest_commit_message: Seq<char>,
}

impl View for RemoteInfo {
    type V = RemoteInfoView;

    open spec fn view(&self) -> RemoteInfoView {
        RemoteInfoView { url: self.url@, branch: self.branch@ }
    }
}

impl View for RepoInfo {
    type V = RepoInfoView;

    open spec fn view(&self) -> RepoInfoView {
        RepoInfoView {
            parent_path: match self.parent_path {
                Some(p) => Some(p@),
                None => None,
            },
            name: self.name@,
            branch_name: self.branch_name@,
            status: self.status,
            upstream: match self.upstream {
                Some(u) => Some(u@),
                None => None,
            },
            upstream_remote_info: match self.upstream_remote_info {
                Some(r) => Some(r@),
                None => None,
            },
            ahead_behind: self.ahead_behind,
            latest_commit_hash: self.latest_commit_hash@,
            latest_commit_message: self.latest_commit_message@,
        }
    }
}

/// What is shown of each repository of a list.
pub open spec fn info_views(infos: Seq<RepoInfo>) -> Seq<RepoInfoView> {
    infos.map_values(|i: RepoInfo| i@)
}

/// A cell of one span.
pub open spec fn spec_one(text: Seq<char>, style: Style) -> Seq<SpanView> {
    seq![SpanView { text, style }]
}

/// The text, or a dash where there is none.
pub open spec fn spec_or_dash(text: Option<Seq<char>>) -> Seq<char> {
    match text {
        Some(t) => t,
        None => "-"@,
    }
}

/// The header row: the titles of the seven columns, in bold.
pub open spec fn spec_header_row() -> Seq<Seq<SpanView>> {
    seq![
        spec_one("path"@, Style::spec_bold()),
        spec_one("name"@, Style::spec_bold()),
        spec_one("branch"@, Style::spec_bold()),
        spec_one("status"@, Style::spec_bold()),
        spec_one("upstream"@, Style::spec_bold()),
        spec_one(""@, Style::spec_bold()),
        spec_one("commit"@, Style::spec_bold()),
    ]
}

/// The status cell: `clean`, or the number of modified files in red.
pub open spec fn spec_status_cell(status: RepoStatus) -> Seq<SpanView> {
    match status {
        RepoStatus::Clean => spec_one("clean"@, Style::spec_plain()),
        RepoStatus::Modified(n) => spec_one(
            spec_decimal(n as nat) + " modified"@,
            Style::spec_fg(Color::Red),
        ),
    }
}

/// The upstream cell: the remote's address and branch where they are known,
/// else the upstream's name, else a dash.
pub open spec fn spec_upstream_cell(
    remote: Option<RemoteInfoView>,
    upstream: Option<Seq<char>>,
) -> Seq<SpanView> {
    match remote {
        Some(r) => spec_one(r.url + "@"@ + r.branch, Style::spec_plain()),
        None => spec_one(spec_or_dash(upstream), Style::spec_plain()),
    }
}

/// The style of a count: the colour where the count is not zero.
pub open spec fn spec_count_style(count: usize, color: Color) -> Style {
    if count > 0 {
        Style::spec_fg(color)
    } else {
        Style::spec_plain()
    }
}

/// The cell of commits ahead and behind: `+a/-b`, the first part green and
/// the last red where not zero; empty where there is no upstream.
pub open spec fn spec_ahead_behind_cell(ahead_behind: Option<(usize, usize)>) -> Seq<SpanView> {
    match ahead_behind {
        Some((ahead, behind)) => seq![
            SpanView {
                text: "+"@ + spec_decimal(ahead as nat),
                style: spec_count_style(ahead, Color::Green),
            },
            SpanView { text: "/"@, style: Style::spec_plain() },
            SpanView {
                text: "-"@ + spec_decimal(behind as nat),
                style: spec_count_style(behind, Color::Red),
            },
        ],
        None => spec_one(Seq::empty(), Style::spec_plain()),
    }
}

/// The first characters of a hash: seven, or all where it has fewer.
pub open spec fn spec_short_hash(hash: Seq<char>) -> Seq<char> {
    if hash.len() <= SHORT_HASH {
        hash
    } else {
        hash.take(SHORT_HASH as int)
    }
}

/// The commit cell: the short hash, a blank, the summary.
pub open spec fn spec_commit_cell(hash: Seq<char>, message: Seq<char>) -> Seq<SpanView> {
    spec_one(spec_short_hash(hash) + " "@ + message, Style::spec_plain())
}

/// The row of one repository.
pub open spec fn spec_info_row(info: RepoInfoView) -> Seq<Seq<SpanView>> {
    seq![
        spec_one(spec_or_dash(info.parent_path), Style::spec_plain()),
        spec_one(info.name, Style::spec_bold()),
        spec_one(info.branch_name, Style::spec_plain()),
        spec_status_cell(info.status),
        spec_upstream_cell(info.upstream_remote_info, info.upstream),
        spec_ahead_behind_cell(info.ahead_behind),
        spec_commit_cell(info.latest_commit_hash, info.latest_commit_message),
    ]
}

/// The rows of the status table: the header, then one row per repository in
/// the order given.
pub open spec fn spec_status_rows(infos: Seq<RepoInfoView>) -> Seq<Seq<Seq<SpanView>>> {
    seq![spec_header_row()] + infos.map_values(|i: RepoInfoView| spec_info_row(i))
}

fn one(text: String, style: Style) -> (cell: Cell)
    ensures
        cell@ == spec_one(text@, style),
{
    let mut spans: Vec<Span> = Vec::new();
    spans.push(Span::new(text, style));
    assert(span_views(spans@) =~= spec_one(text@, style));
    Cell::new(spans)
}

fn or_dash(text: &Option<String>) -> (s: String)
    ensures
        s@ == spec_or_dash(
            match *text {
                Some(t) => Some(t@),
                None => None,
            },
        ),
{
    match text {
        Some(t) => t.clone(),
        None => String::from_str("-"),
    }
}

fn header_row() -> (row: Vec<Cell>)
    ensures
        row_view(row@) == spec_header_row(),
{
    let mut row: Vec<Cell> = Vec::new();
    row.push(one(String::from_str("path"), Style::bold()));
    row.push(one(String::from_str("name"), Style::bold()));
    row.push(one(String::from_str("branch"), Style::bold()));
    row.push(one(String::from_str("status"), Style::bold()));
    row.push(one(String::from_str("upstream"), Style::bold()));
    row.push(one(String::from_str(""), Style::bold()));
    row.push(one(String::from_str("commit"), Style::bold()));
    assert(row_view(row@) =~= spec_header_row());
    row
}

fn status_cell(status: RepoStatus) -> (cell: Cell)
    ensures
        cell@ == spec_status_cell(status),
{
    match status {
        RepoStatus::Clean => one(String::from_str("clean"), Style::plain()),
        RepoStatus::Modified(n) => {
            let mut text = decimal(n);
            text.append(" modified");
            one(text, Style::fg(Color::Red))
        },
    }
}

fn upstream_cell(remote: &Option<RemoteInfo>, upstream: &Option<String>) -> (cell: Cell)
    ensures
        cell@ == spec_upstream_cell(
            match *remote {
                Some(r) => Some(r@),
                None => None,
            },
            match *upstream {
                Some(u) => Some(u@),
                None => None,
            },
        ),
{
    match remote {
        Some(r) => {
            let mut text = r.url.clone();
            text.append("@");
            text.append(r.branch.as_str());
            one(text, Style::plain())
        },
        None => one(or_dash(upstream), Style::plain()),
    }
}

fn count_style(count: usize, color: Color) -> (style: Style)
    ensures
        style == spec_count_style(count, color),
{
    if count > 0 {
        Style::fg(color)
    } else {
        Style::plain()
    }
}

fn ahead_behind_cell(ahead_behind: Option<(usize, usize)>) -> (cell: Cell)
    ensures
        cell@ == spec_ahead_behind_cell(ahead_behind),
{
    match ahead_behind {
        Some((ahead, behind)) => {
            let mut spans: Vec<Span> = Vec::new();
            let plus = join("+", decimal(ahead).as_str());
            let minus = join("-", decimal(behind).as_str());
            spans.push(Span::new(plus, count_style(ahead, Color::Green)));
            spans.push(Span::new(String::from_str("/"), Style::plain()));
            spans.push(Span::new(minus, count_style(behind, Color::Red)));
            assert(span_views(spans@) =~= spec_ahead_behind_cell(ahead_behind));
            Cell::new(spans)
        },
        None => one(String::new(), Style::plain()),
    }
}

fn commit_cell(hash: &String, message: &String) -> (cell: Cell)
    ensures
        cell@ == spec_commit_cell(hash@, message@),
{
    let len = hash.as_str().unicode_len();
    let short = if len <= SHORT_HASH {
        hash.as_str()
    } else {
        hash.as_str().substring_char(0, SHORT_HASH)
    };
    assert(short@ =~= spec_short_hash(hash@));
    let mut text = String::from_str(short);
    text.append(" ");
    text.append(message.as_str());
    one(text, Style::plain())
}

fn info_row(info: &RepoInfo) -> (row: Vec<Cell>)
    ensures
        row_view(row@) == spec_info_row(info@),
{
    let mut row: Vec<Cell> = Vec::new();
    row.push(one(or_dash(&info.parent_path), Style::plain()));
    row.push(one(info.name.clone(), Style::bold()));
    row.push(one(info.branch_name.clone(), Style::plain()));
    row.push(status_cell(info.status));
    row.push(upstream_cell(&info.upstream_remote_info, &info.upstream));
    row.push(ahead_behind_cell(info.ahead_behind));
    row.push(commit_cell(&info.latest_commit_hash, &info.latest_commit_message));
    assert(row_view(row@) =~= spec_info_row(info@));
    row
}

/// Builds the status table: the header row and one row per repository.
pub fn build_table(repos: Vec<RepoInfo>, width: usize) -> (table: Table)
    ensures
        table@ == (TableView {
            width: width as nat,
            rows: spec_status_rows(info_views(repos@)),
        }),
{
    let ghost infos = info_views(repos@);
    let mut rows: Vec<Vec<Cell>> = Vec::new();
    rows.push(header_row());
    let mut i: usize = 0;
    assert(rows_view(rows@) =~= spec_status_rows(infos.take(0)));
    while i < repos.len()
        invariant
            i <= repos@.len(),
            infos == info_views(repos@),
            rows_view(rows@) == spec_status_rows(infos.take(i as int)),
        decreases repos@.len() - i,
    {
        let row = info_row(&repos[i]);
        proof {
            let before = infos.take(i as int);
            let after = infos.take(i + 1);
            assert(after =~= before.push(repos@[i as int]@));
            assert(rows_view(rows@.push(row)) =~= rows_view(rows@).push(row_view(row@)));
            assert(after.map_values(|v: RepoInfoView| spec_info_row(v)) =~= before.map_values(
                |v: RepoInfoView| spec_info_row(v),
            ).push(spec_info_row(repos@[i as int]@)));
            assert(spec_status_rows(after) =~= spec_status_rows(before).push(
                spec_info_row(repos@[i as int]@),
            ));
        }
        rows.push(row);
        i += 1;
    }
    assert(infos.take(i as int) =~= infos);
    Table { width, rows }
}

impl RepoStatus {
    /// The status for a number of modified files: clean where there is none.
    pub fn from_count(modified: usize) -> (status: RepoStatus)
        ensures
            status == if modified > 0 {
                RepoStatus::Modified(modified)
            } else {
                RepoStatus::Clean
            },
    {
        if modified > 0 {
            RepoStatus::Modified(modified)
        } else {
            RepoStatus::Clean
        }
    }
}

impl RepoInfo {
    /// What is shown of a repository that has no commit yet: clean, and a
    /// dash for the branch and the commit.
    pub fn without_head(name: String, parent_path: Option<String>) -> (info: RepoInfo)
        ensures
            info@ == (RepoInfoView {
                parent_path: match parent_path {
                    Some(p) => Some(p@),
                    None => None,
                },
                name: name@,
                branch_name: "-"@,
                status: RepoStatus::Clean,
                upstream: None,
                upstream_remote_info: None,
                ahead_behind: None,
                latest_commit_hash: "-"@,
                latest_commit_message: "-"@,
            }),
    {
        RepoInfo {
            parent_path,
            name,
            branch_name: String::from_str("-"),
            status: RepoStatus::Clean,
            upstream: None,
            upstream_remote_info: None,
            ahead_behind: None,
            latest_commit_hash: String::from_str("-"),
            latest_commit_message: String::from_str("-"),
        }
    }
}

/// The remote and the branch that the name of a remote-tracking reference
/// holds: what stands after `refs/remotes/`, split at its first slash.
/// `None` where the name does not begin so, or holds no slash after it.
pub open spec fn spec_upstream_parts(name: Seq<char>) -> Option<(Seq<char>, Seq<char>)> {
    let prefix = "refs/remotes/"@;
    if name.len() >= prefix.len() && name.take(prefix.len() as int) == prefix {
        let rest = name.skip(prefix.len() as int);
        let slash = spec_index_of(rest, '/');
        if 0 <= slash < rest.len() {
            Some((rest.take(slash), rest.skip(slash + 1)))
        } else {
            None
        }
    } else {
        None
    }
}

/// Splits the name of a remote-tracking reference into the remote's name
/// and the branch.
pub fn parse_upstream_ref(name: &str) -> (parts: Option<(String, String)>)
    ensures
        match parts {
            Some((remote, branch)) => spec_upstream_parts(name@) == Some((remote@, branch@)),
            None => spec_upstream_parts(name@).is_none(),
        },
{
    let prefix = "refs/remotes/";
    let prefix_len = prefix.unicode_len();
    let len = name.unicode_len();
    if len < prefix_len {
        return None;
    }
    let head = String::from_str(name.substring_char(0, prefix_len));
    assert(head@ =~= name@.take(prefix_len as int));
    if head != String::from_str(prefix) {
        return None;
    }
    let rest = name.substring_char(prefix_len, len);
    assert(rest@ =~= name@.skip(prefix_len as int));
    let slash = index_of(rest, '/');
    let rest_len = rest.unicode_len();
    if slash >= rest_len {
        return None;
    }
    let remote = String::from_str(rest.substring_char(0, slash));
    let branch = String::from_str(rest.substring_char(slash + 1, rest_len));
    assert(remote@ =~= rest@.take(slash as int));
    assert(branch@ =~= rest@.skip(slash + 1));
    Some((remote, branch))
}


/// What asking one repository gave: what to show of it, or why nothing can
/// be shown.
#[derive(Debug)]
pub struct Fetched {
    pub path: String,
    pub info: Result<RepoInfo, String>,
}

/// What asking one repository gave.
pub struct FetchedView {
    pub path: Seq<char>,
    pub info: Result<RepoInfoView, Seq<char>>,
}

impl View for Fetched {
    type V = FetchedView;

    open spec fn view(&self) -> FetchedView {
        FetchedView {
            path: self.path@,
            info: match self.info {
                Ok(i) => Ok(i@),
                Err(e) => Err(e@),
            },
        }
    }
}

/// What asking each repository of a list gave.
pub open spec fn fetched_views(results: Seq<Fetched>) -> Seq<FetchedView> {
    results.map_values(|f: Fetched| f@)
}

/// The repositories that can be shown, in the order of the results.
pub open spec fn spec_shown_infos(results: Seq<FetchedView>) -> Seq<RepoInfoView>
    decreases results.len(),
{
    if results.len() == 0 {
        Seq::empty()
    } else {
        match results.last().info {
            Ok(info) => spec_shown_infos(results.drop_last()).push(info),
            Err(_) => spec_shown_infos(results.drop_last()),
        }
    }
}

/// The line that says why a repository is not shown.
pub open spec fn spec_diagnostic(path: Seq<char>, reason: Seq<char>) -> Seq<char> {
    "Error "@ + path + ": "@ + reason
}

/// A line for every repository that cannot be shown, in the order of the
/// results.
pub open spec fn spec_diagnostics(results: Seq<FetchedView>) -> Seq<Seq<char>>
    decreases results.len(),
{
    if results.len() == 0 {
        Seq::empty()
    } else {
        match results.last().info {
            Ok(_) => spec_diagnostics(results.drop_last()),
            Err(reason) => spec_diagnostics(results.drop_last()).push(
                spec_diagnostic(results.last().path, reason),
            ),
        }
    }
}

fn duplicate_text(text: &Option<String>) -> (copy: Option<String>)
    ensures
        copy.is_some() == text.is_some(),
        copy matches Some(c) ==> text matches Some(t) && c@ == t@,
{
    match text {
        Some(t) => Some(t.clone()),
        None => None,
    }
}

impl RepoInfo {
    /// A copy that shows the same.
    pub fn duplicate(&self) -> (copy: RepoInfo)
        ensures
            copy@ == self@,
    {
        RepoInfo {
            parent_path: duplicate_text(&self.parent_path),
            name: self.name.clone(),
            branch_name: self.branch_name.clone(),
            status: self.status,
            upstream: duplicate_text(&self.upstream),
            upstream_remote_info: match &self.upstream_remote_info {
                Some(r) => Some(RemoteInfo { url: r.url.clone(), branch: r.branch.clone() }),
                None => None,
            },
            ahead_behind: self.ahead_behind,
            latest_commit_hash: self.latest_commit_hash.clone(),
            latest_commit_message: self.latest_commit_message.clone(),
        }
    }
}

/// Makes the status report from what asking each repository gave: a line
/// for every repository that could not be asked, and the table of the
/// others. A repository that failed is left out of the table and fails
/// nothing else.
pub fn status(results: &Vec<Fetched>, width: usize) -> (report: (Vec<String>, Table))
    ensures
        spec_strings(report.0@) == spec_diagnostics(fetched_views(results@)),
        report.1@ == (TableView {
            width: width as nat,
            rows: spec_status_rows(spec_shown_infos(fetched_views(results@))),
        }),
{
    let ghost all = fetched_views(results@);
    let mut lines: Vec<String> = Vec::new();
    let mut infos: Vec<RepoInfo> = Vec::new();
    let mut i: usize = 0;
    assert(spec_strings(lines@) =~= spec_diagnostics(all.take(0)));
    assert(info_views(infos@) =~= spec_shown_infos(all.take(0)));
    while i < results.len()
        invariant
            i <= results@.len(),
            all == fetched_views(results@),
            spec_strings(lines@) == spec_diagnostics(all.take(i as int)),
            info_views(infos@) == spec_shown_infos(all.take(i as int)),
        decreases results@.len() - i,
    {
        let fetched = &results[i];
        proof {
            assert(all.take(i + 1).drop_last() =~= all.take(i as int));
            assert(all.take(i + 1).last() == fetched@);
        }
        match &fetched.info {
            Ok(info) => {
                let copy = info.duplicate();
                assert(info_views(infos@.push(copy)) =~= info_views(infos@).push(copy@));
                infos.push(copy);
            },
            Err(reason) => {
                let mut line = String::from_str("Error ");
                line.append(fetched.path.as_str());
                line.append(": ");
                line.append(reason.as_str());
                proof {
                    lemma_strings_push(lines@, line);
                }
                lines.push(line);
            },
        }
        i += 1;
    }
    assert(all.take(i as int) =~= all);
    (lines, build_table(infos, width))
}

} // verus!
