use gitlasso::command::exec::{missing_command, no_repositories, run, ExecPlan};
use gitlasso::command::fetch::fetch;
use gitlasso::command::pull::pull;
use gitlasso::command::register::register;
use gitlasso::command::unregister::unregister;
use gitlasso::config::{queue_context_line, read, Config, RepoConfig};
use gitlasso::terminal::{Color, Draw, Span, Style};

fn list(config: &Config) -> Vec<(String, bool)> {
    config.repositories.iter().map(|r| (r.path.clone(), r.visible)).collect()
}

fn sample() -> Config {
    read("/cfg/repositories", Some("/a\n#/b\n/c"))
}

fn pair(p: &str, v: bool) -> (String, bool) {
    (p.to_string(), v)
}

#[test]
fn read_takes_one_repository_per_line() {
    let c = sample();
    assert_eq!(c.path, "/cfg/repositories");
    assert_eq!(list(&c), vec![pair("/a", true), pair("/b", false), pair("/c", true)]);
}

#[test]
fn read_without_a_file_gives_an_empty_list() {
    let c = read("/cfg/repositories", None);
    assert_eq!(c.path, "/cfg/repositories");
    assert!(c.repositories.is_empty());
    assert!(c.is_empty());
    assert!(read("/x", Some("")).is_empty());
}

#[test]
fn read_handles_line_endings() {
    let c = read("/x", Some("/a\r\n#/b\r\n\n/c\n"));
    assert_eq!(list(&c), vec![pair("/a", true), pair("/b", false), pair("", true), pair("/c", true)]);
    let c = read("/x", Some("#\n##x"));
    assert_eq!(list(&c), vec![pair("", false), pair("#x", false)]);
    let c = read("/x", Some("/a\r"));
    assert_eq!(list(&c), vec![pair("/a\r", true)]);
    let c = read("/x", Some("/a\r\r\n/b"));
    assert_eq!(list(&c), vec![pair("/a\r", true), pair("/b", true)]);
    let c = read("/x", Some("\n"));
    assert_eq!(list(&c), vec![pair("", true)]);
    let c = read("/x", Some("/h\u{e9}/\u{65e5}\n#/\u{672c}"));
    assert_eq!(list(&c), vec![pair("/h\u{e9}/\u{65e5}", true), pair("/\u{672c}", false)]);
}

#[test]
fn write_puts_a_line_feed_between_the_lines() {
    assert_eq!(sample().write(), "/a\n#/b\n/c");
    assert_eq!(read("/x", None).write(), "");
    assert_eq!(read("/x", Some("#/only")).write(), "#/only");
    let again = read("/x", Some(&sample().write()));
    assert_eq!(list(&again), list(&sample()));
}

#[test]
fn add_repo_appends_a_visible_entry_once() {
    let mut c = sample();
    assert!(c.add_repo("/d"));
    assert!(!c.add_repo("/d"));
    assert!(!c.add_repo("/b"));
    assert_eq!(
        list(&c),
        vec![pair("/a", true), pair("/b", false), pair("/c", true), pair("/d", true)]
    );
    assert!(c.contains("/d"));
    assert!(!c.contains("/e"));
    assert_eq!(c.path, "/cfg/repositories");
}

#[test]
fn remove_repo_takes_every_entry_of_the_path() {
    let mut c = read("/x", Some("/a\n/b\n#/a\n/c"));
    assert!(c.remove_repo("/a"));
    assert_eq!(list(&c), vec![pair("/b", true), pair("/c", true)]);
    assert!(!c.remove_repo("/a"));
    assert_eq!(list(&c), vec![pair("/b", true), pair("/c", true)]);
}

#[test]
fn visible_repos_are_the_active_set_in_order() {
    let c = sample();
    assert_eq!(c.visible_repos(), vec!["/a", "/c"]);
    assert_eq!(c.invisible_repos(), vec!["/b"]);
}

#[test]
fn context_line_only_where_something_is_left_out() {
    assert_eq!(
        queue_context_line(&sample()),
        vec![
            Draw::Styled(Span::new(
                "context: 2 of 3 repositories".to_string(),
                Style::fg(Color::DarkGrey)
            )),
            Draw::Print("\r\n".to_string()),
        ]
    );
    assert!(queue_context_line(&read("/x", Some("/a\n/b"))).is_empty());
    assert!(queue_context_line(&read("/x", None)).is_empty());
    let none = queue_context_line(&read("/x", Some("#/a")));
    assert_eq!(
        none[0],
        Draw::Styled(Span::new(
            "context: 0 of 1 repositories".to_string(),
            Style::fg(Color::DarkGrey)
        ))
    );
}

#[test]
fn plan_takes_the_first_word_as_the_program() {
    let words = vec!["ls".to_string(), "-l".to_string(), "x y".to_string()];
    assert_eq!(run(3, true, &Vec::new()), ExecPlan::MissingCommand);
    assert_eq!(run(0, true, &Vec::new()), ExecPlan::MissingCommand);
    assert_eq!(run(0, false, &words), ExecPlan::NoRepositories);
    assert_eq!(
        run(2, true, &words),
        ExecPlan::Parallel {
            program: "ls".to_string(),
            args: vec!["-l".to_string(), "x y".to_string()]
        }
    );
    assert_eq!(
        run(2, false, &vec!["make".to_string()]),
        ExecPlan::Serial { program: "make".to_string(), args: Vec::new() }
    );
}

#[test]
fn register_says_what_was_new() {
    let mut c = sample();
    let found = vec!["/b".to_string(), "/d".to_string(), "/d".to_string()];
    let (lines, save) = register(&mut c, "/root", &found);
    assert!(save);
    assert_eq!(lines, vec!["/b: already registered", "/d: registered", "/d: already registered"]);
    assert_eq!(
        list(&c),
        vec![pair("/a", true), pair("/b", false), pair("/c", true), pair("/d", true)]
    );
}

#[test]
fn register_with_nothing_found_changes_nothing() {
    let mut c = sample();
    let (lines, save) = register(&mut c, "/some/root", &Vec::new());
    assert!(!save);
    assert_eq!(lines, vec!["No repositories discovered in '/some/root'"]);
    assert_eq!(list(&c), list(&sample()));
}

#[test]
fn unregister_takes_the_context_off_the_list() {
    let mut c = sample();
    let lines = unregister(&mut c, false);
    assert_eq!(lines, vec!["/a: unregistered", "/c: unregistered"]);
    assert_eq!(list(&c), vec![pair("/b", false)]);
}

#[test]
fn unregister_keeping_the_context_takes_the_others() {
    let mut c = read("/x", Some("/a\n#/b\n/c\n#/b"));
    let lines = unregister(&mut c, true);
    assert_eq!(lines, vec!["/b: unregistered", "/b: not registered"]);
    assert_eq!(list(&c), vec![pair("/a", true), pair("/c", true)]);
    let _ = RepoConfig { path: String::new(), visible: true };
}

#[test]
fn fixed_git_commands() {
    assert_eq!(fetch(0), ExecPlan::NoRepositories);
    assert_eq!(pull(0), ExecPlan::NoRepositories);
    assert_eq!(
        fetch(2),
        ExecPlan::Parallel { program: "git".to_string(), args: vec!["fetch".to_string()] }
    );
    assert_eq!(
        pull(1),
        ExecPlan::Parallel { program: "git".to_string(), args: vec!["pull".to_string()] }
    );
    let args = vec!["log".to_string(), "-1".to_string()];
    assert_eq!(gitlasso::command::git::run(0, &args), ExecPlan::NoRepositories);
    assert_eq!(
        gitlasso::command::git::run(3, &args),
        ExecPlan::Serial { program: "git".to_string(), args: args.clone() }
    );
    assert_eq!(
        gitlasso::command::git::run(3, &Vec::new()),
        ExecPlan::Serial { program: "git".to_string(), args: Vec::new() }
    );
    assert_eq!(no_repositories(), "No repositories registered: use the 'register' command");
    assert_eq!(missing_command(), "at least one command argument is required.");
}

#[test]
fn list_is_read_back_from_its_file() {
    let lists: Vec<Vec<(&str, bool)>> = vec![
        vec![],
        vec![("/a", true)],
        vec![("/a", false)],
        vec![("", false)],
        vec![("", true), ("/b", true)],
        vec![("/a b", true), ("", false), ("/h\u{e9}", false), ("#x", false), ("/z", true)],
    ];
    for entries in lists {
        let mut c = read("/x", None);
        c.repositories = entries
            .iter()
            .map(|(p, v)| RepoConfig { path: p.to_string(), visible: *v })
            .collect();
        let back = read("/x", Some(&c.write()));
        assert_eq!(back.repositories, c.repositories);
    }
}
