use gitlasso::cli_options::{Cli, Commands, CompletionShell};
use gitlasso::command::status::{
    build_table, parse_upstream_ref, status, Fetched, RemoteInfo, RepoInfo, RepoStatus,
};
use gitlasso::terminal::{Color, Draw, Span, Style};
use gitlasso::tui::table::queue_table;

fn info() -> RepoInfo {
    RepoInfo {
        parent_path: Some("~/src".to_string()),
        name: "lasso".to_string(),
        branch_name: "main".to_string(),
        status: RepoStatus::Modified(2),
        upstream: Some("refs/remotes/origin/main".to_string()),
        upstream_remote_info: Some(RemoteInfo {
            url: "git@host:lasso".to_string(),
            branch: "main".to_string(),
        }),
        ahead_behind: Some((3, 0)),
        latest_commit_hash: "0123456789abcdef".to_string(),
        latest_commit_message: "Fix it".to_string(),
    }
}

fn styled(text: &str, style: Style) -> Draw {
    Draw::Styled(Span::new(text.to_string(), style))
}

fn blanks(n: usize) -> Draw {
    Draw::Print(" ".repeat(n))
}

#[test]
fn status_from_the_number_of_modified_files() {
    assert_eq!(RepoStatus::from_count(0), RepoStatus::Clean);
    assert_eq!(RepoStatus::from_count(1), RepoStatus::Modified(1));
    assert_eq!(RepoStatus::from_count(12), RepoStatus::Modified(12));
}

#[test]
fn upstream_reference_is_split_at_the_first_slash() {
    assert_eq!(
        parse_upstream_ref("refs/remotes/origin/main"),
        Some(("origin".to_string(), "main".to_string()))
    );
    assert_eq!(
        parse_upstream_ref("refs/remotes/up/feature/x"),
        Some(("up".to_string(), "feature/x".to_string()))
    );
    assert_eq!(parse_upstream_ref("refs/remotes//"), Some((String::new(), String::new())));
    assert_eq!(parse_upstream_ref("refs/remotes/origin"), None);
    assert_eq!(parse_upstream_ref("refs/heads/main"), None);
    assert_eq!(parse_upstream_ref("refs/remotes"), None);
    assert_eq!(parse_upstream_ref(""), None);
}

#[test]
fn status_table_has_a_header_and_a_row_per_repository() {
    let table = build_table(vec![info(), RepoInfo::without_head("new".to_string(), None)], 200);
    assert_eq!(table.width, 200);
    assert_eq!(table.rows.len(), 3);
    assert!(table.rows.iter().all(|r| r.len() == 7));
    assert!(table.fits());
    let out = queue_table(table);
    let bold = Style::bold();
    let plain = Style::plain();
    let expected = vec![
        styled("path", bold), blanks(3),
        styled("name", bold), blanks(3),
        styled("branch", bold), blanks(2),
        styled("status", bold), blanks(6),
        styled("upstream", bold), blanks(13),
        styled("", bold), blanks(7),
        styled("commit", bold), blanks(10),
        Draw::Print("\r\n".to_string()),
        styled("~/src", plain), blanks(2),
        styled("lasso", bold), blanks(2),
        styled("main", plain), blanks(4),
        styled("2 modified", Style::fg(Color::Red)), blanks(2),
        styled("git@host:lasso@main", plain), blanks(2),
        styled("+3", Style::fg(Color::Green)), styled("/", plain), styled("-0", plain), blanks(2),
        styled("0123456 Fix it", plain), blanks(2),
        Draw::Print("\r\n".to_string()),
        styled("-", plain), blanks(6),
        styled("new", bold), blanks(4),
        styled("-", plain), blanks(7),
        styled("clean", plain), blanks(7),
        styled("-", plain), blanks(20),
        styled("", plain), blanks(7),
        styled("- -", plain), blanks(13),
        Draw::Print("\r\n".to_string()),
    ];
    assert_eq!(out, expected);
}

#[test]
fn upstream_cell_falls_back_to_the_name_and_behind_is_red() {
    let mut i = info();
    i.upstream_remote_info = None;
    i.ahead_behind = Some((0, 4));
    i.latest_commit_hash = "abc".to_string();
    i.status = RepoStatus::Clean;
    let out = queue_table(build_table(vec![i], 200));
    assert!(out.contains(&styled("refs/remotes/origin/main", Style::plain())));
    assert!(out.contains(&styled("+0", Style::plain())));
    assert!(out.contains(&styled("-4", Style::fg(Color::Red))));
    assert!(out.contains(&styled("abc Fix it", Style::plain())));
    assert!(out.contains(&styled("clean", Style::plain())));
}

#[test]
fn commands_that_work_on_the_whole_list() {
    assert!(Commands::Register { path: "/x".to_string() }.ignores_context());
    assert!(Commands::Unregister { keep_context: true }.ignores_context());
    assert!(Commands::Completions {
        shell: CompletionShell::Zsh,
        binary_name: "gitlasso".to_string()
    }
    .ignores_context());
    assert!(!Commands::Fetch.ignores_context());
    assert!(!Commands::Pull.ignores_context());
    assert!(!Commands::Context.ignores_context());
    assert!(!Commands::Git { args: Vec::new() }.ignores_context());
    assert!(!Commands::Exec { parallel: true, args: Vec::new() }.ignores_context());
    let cli = Cli { command: None };
    assert!(cli.command.is_none());
}

#[test]
fn repository_that_failed_is_named_and_left_out_of_the_table() {
    let results = vec![
        Fetched { path: "/a".to_string(), info: Err("not a repository".to_string()) },
        Fetched { path: "/b".to_string(), info: Ok(info()) },
        Fetched { path: "/c".to_string(), info: Err("gone".to_string()) },
        Fetched {
            path: "/d".to_string(),
            info: Ok(RepoInfo::without_head("d".to_string(), Some("/".to_string()))),
        },
    ];
    let (lines, table) = status(&results, 120);
    assert_eq!(lines, vec!["Error /a: not a repository", "Error /c: gone"]);
    assert_eq!(table.width, 120);
    assert_eq!(table.rows.len(), 3);
    let expected = build_table(
        vec![info(), RepoInfo::without_head("d".to_string(), Some("/".to_string()))],
        120,
    );
    assert_eq!(queue_table(table), queue_table(expected));
    let (lines, table) = status(&Vec::new(), 10);
    assert!(lines.is_empty());
    assert_eq!(table.rows.len(), 1);
}

#[test]
fn copy_of_an_info_shows_the_same() {
    let copy = info().duplicate();
    assert_eq!(
        queue_table(build_table(vec![copy], 100)),
        queue_table(build_table(vec![info()], 100))
    );
}
