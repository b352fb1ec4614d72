use gitlasso::config::read;
use gitlasso::parallel_run::{parallel_run, ProcessStatus};
use gitlasso::path::{labels, path_to_string, shown};
use gitlasso::serial_run::serial_run;
use gitlasso::terminal::{Color, Draw, Span, Style};

#[test]
fn path_below_home_is_written_from_the_tilde() {
    assert_eq!(path_to_string("/home/u/src/x", Some("/home/u")), "~/src/x");
    assert_eq!(path_to_string("/home/u/src/x", Some("/home/u/")), "~/src/x");
    assert_eq!(path_to_string("/home/u//src/x/", Some("/home/u")), "~/src/x");
}

#[test]
fn path_elsewhere_is_written_whole() {
    assert_eq!(path_to_string("/opt/x", Some("/home/u")), "/opt/x");
    assert_eq!(path_to_string("/home/user2/x", Some("/home/u")), "/home/user2/x");
    assert_eq!(path_to_string("/home/u/x", None), "/home/u/x");
    assert_eq!(path_to_string("", Some("/home/u")), "");
}

#[test]
fn home_itself_is_the_tilde() {
    assert_eq!(path_to_string("/home/u", Some("/home/u")), "~/");
}

#[test]
fn shown_pushes_the_rest_onto_the_tilde() {
    assert_eq!(shown("/home/u/a/b", Some("a/b".to_string())), "~/a/b");
    assert_eq!(shown("/home/u/a/b", None), "/home/u/a/b");
    assert_eq!(shown("/x", Some("/abs".to_string())), "/abs");
}

#[test]
fn labels_name_every_path_in_order() {
    let paths = vec!["/home/u/a".to_string(), "/opt/b".to_string(), "/home/u/c/d".to_string()];
    assert_eq!(labels(&paths, Some("/home/u")), vec!["~/a", "/opt/b", "~/c/d"]);
    assert_eq!(labels(&paths, None), paths);
    assert!(labels(&Vec::new(), Some("/home/u")).is_empty());
}

#[test]
fn serial_run_takes_the_visible_repositories_in_order() {
    let config = read("/cfg", Some("/home/u/a\n#/home/u/b\n/opt/c"));
    let steps = serial_run(&config, Some("/home/u"), 8);
    assert_eq!(steps.len(), 2);
    assert_eq!(steps[0].path, "/home/u/a");
    assert_eq!(
        steps[0].header,
        vec![
            Draw::Print("\n".to_string()),
            Draw::Styled(Span::new("~/a     ".to_string(), Style::on(Color::Black, Color::White))),
            Draw::Print("\n".to_string()),
        ]
    );
    assert_eq!(steps[1].path, "/opt/c");
    assert_eq!(
        steps[1].header[1],
        Draw::Styled(Span::new("/opt/c  ".to_string(), Style::on(Color::Black, Color::White)))
    );
    assert!(serial_run(&read("/cfg", Some("#/x")), None, 80).is_empty());
}

#[test]
fn parallel_run_starts_with_the_visible_repositories() {
    let config = read("/cfg", Some("/home/u/a\n#/home/u/b\n/opt/c"));
    let state = parallel_run(&config, Some("/home/u"), 10);
    assert!(state.check());
    assert_eq!(state.paths, vec!["/home/u/a", "/opt/c"]);
    assert_eq!(state.labels, vec!["~/a", "/opt/c"]);
    assert_eq!(state.statuses, vec![ProcessStatus::Running, ProcessStatus::Running]);
    assert!(!state.compact);
    assert!(parallel_run(&config, None, 2).compact);
}
