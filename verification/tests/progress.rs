use gitlasso::config::{Config, RepoConfig};
use gitlasso::parallel_run::{
    done_count, queue_header, queue_report, queue_update_progress, queue_update_progress_compact,
    use_compact, Orchestrator, ProcessStatus,
};
use gitlasso::terminal::{Color, Draw, Span, Style};

const FRAMES: [&str; 10] = [
    "\u{280B}", "\u{2819}", "\u{2839}", "\u{2838}", "\u{283C}", "\u{2834}", "\u{2826}",
    "\u{2827}", "\u{2807}", "\u{280F}",
];

fn names(n: usize) -> Vec<String> {
    (0..n).map(|i| format!("/r/{i}")).collect()
}

fn labels(n: usize) -> Vec<String> {
    (0..n).map(|i| format!("~/r/{i}")).collect()
}

fn fin(s: &str) -> ProcessStatus {
    ProcessStatus::Finished(s.to_string())
}

fn err(s: &str) -> ProcessStatus {
    ProcessStatus::Error(s.to_string())
}

fn config(n: usize, visible: usize) -> Config {
    Config {
        path: "/cfg".to_string(),
        repositories: (0..n)
            .map(|i| RepoConfig { path: format!("/r/{i}"), visible: i < visible })
            .collect(),
    }
}

#[test]
fn compact_display_where_targets_reach_the_height() {
    assert!(use_compact(12, 10));
    assert!(!use_compact(8, 10));
    assert!(use_compact(10, 10));
    assert!(!use_compact(9, 10));
    assert!(use_compact(0, 0));
    assert!(Orchestrator::new(names(12), labels(12), 10).compact);
    assert!(!Orchestrator::new(names(8), labels(8), 10).compact);
}

#[test]
fn every_target_starts_running() {
    let o = Orchestrator::new(names(3), labels(3), 10);
    assert_eq!(
        o.statuses,
        vec![ProcessStatus::Running, ProcessStatus::Running, ProcessStatus::Running]
    );
    assert_eq!(o.spinner_index, 0);
    let none = Orchestrator::new(Vec::new(), Vec::new(), 10);
    assert!(none.statuses.is_empty());
    assert!(none.queue_report(80).is_empty());
}

#[test]
fn outcome_of_a_process() {
    assert_eq!(ProcessStatus::from_exit(true, "out".into(), "err".into()), fin("out"));
    assert_eq!(ProcessStatus::from_exit(false, "out".into(), "err".into()), err("err"));
    assert_eq!(ProcessStatus::from_spawn_failure("no such file".into()), err("no such file"));
    assert!(fin("").is_done());
    assert!(err("").is_done());
    assert!(!ProcessStatus::Running.is_done());
    assert_eq!(fin("x").duplicate(), fin("x"));
}

#[test]
fn report_shows_failures_and_output_only() {
    let mut o = Orchestrator::new(names(5), labels(5), 40);
    o.record("/r/3", err("boom"));
    o.record("/r/0", fin(""));
    o.record("/r/4", fin(""));
    o.record("/r/2", fin("out"));
    o.record("/r/1", fin(""));
    assert_eq!(o.statuses, vec![fin(""), fin(""), fin("out"), err("boom"), fin("")]);
    let out = o.queue_report(12);
    assert_eq!(
        out,
        vec![
            Draw::Print("\n".to_string()),
            Draw::Styled(Span::new("~/r/2       ".to_string(), Style::on(Color::Black, Color::White))),
            Draw::Print("\n".to_string()),
            Draw::Print("out".to_string()),
            Draw::Print("\n".to_string()),
            Draw::Styled(Span::new("~/r/3       ".to_string(), Style::on(Color::Black, Color::Red))),
            Draw::Print("\n".to_string()),
            Draw::Print("boom".to_string()),
        ]
    );
    let bars = out.iter().filter(|d| matches!(d, Draw::Styled(_))).count();
    assert_eq!(bars, 2);
}

#[test]
fn outcomes_in_any_order_give_the_same_statuses() {
    let outcomes = vec![
        ("/r/0", fin("a")),
        ("/r/1", err("b")),
        ("/r/2", fin("")),
        ("/r/3", err("")),
    ];
    let orders: [[usize; 4]; 4] = [[0, 1, 2, 3], [3, 2, 1, 0], [1, 3, 0, 2], [2, 0, 3, 1]];
    for order in orders {
        let mut o = Orchestrator::new(names(4), labels(4), 40);
        for k in order {
            o.record(outcomes[k].0, outcomes[k].1.duplicate());
        }
        assert_eq!(o.statuses.len(), 4);
        assert_eq!(o.statuses, vec![fin("a"), err("b"), fin(""), err("")]);
        assert!(o.statuses.iter().all(|s| s.is_done()));
    }
}

#[test]
fn status_that_is_done_does_not_change() {
    let mut o = Orchestrator::new(names(2), labels(2), 40);
    o.record("/r/1", fin("first"));
    o.record("/r/1", err("second"));
    o.record("/elsewhere", err("x"));
    assert_eq!(o.statuses, vec![ProcessStatus::Running, fin("first")]);
    assert_eq!(done_count(&o.statuses), 1);
}

#[test]
fn header_is_padded_to_the_width_and_never_cut() {
    let out = queue_header("~/r", 6, Color::White);
    assert_eq!(
        out,
        vec![
            Draw::Print("\n".to_string()),
            Draw::Styled(Span::new("~/r   ".to_string(), Style::on(Color::Black, Color::White))),
            Draw::Print("\n".to_string()),
        ]
    );
    let out = queue_header("~/long/name", 4, Color::Red);
    assert_eq!(
        out[1],
        Draw::Styled(Span::new("~/long/name".to_string(), Style::on(Color::Black, Color::Red)))
    );
}

#[test]
fn compact_line_counts_what_is_done() {
    let statuses = vec![fin(""), ProcessStatus::Running, err("x"), ProcessStatus::Running];
    for (i, frame) in FRAMES.iter().enumerate() {
        let out = queue_update_progress_compact(&statuses, i);
        assert_eq!(
            out,
            vec![
                Draw::Print("\r".to_string()),
                Draw::Styled(Span::new(frame.to_string(), Style::bold())),
                Draw::Print(" running [2/4 complete]".to_string()),
            ]
        );
    }
}

#[test]
fn full_display_has_one_line_per_target() {
    let statuses = vec![fin("out"), ProcessStatus::Running, err("x")];
    let out = queue_update_progress(&labels(3), &statuses, 4);
    assert_eq!(
        out,
        vec![
            Draw::Print("\x1B[2K".to_string()),
            Draw::Styled(Span::new("\u{2713}".to_string(), Style::fg(Color::DarkGreen))),
            Draw::Print(" ~/r/0\n".to_string()),
            Draw::Print("\x1B[2K".to_string()),
            Draw::Styled(Span::new("\u{283C}".to_string(), Style::bold())),
            Draw::Print(" ~/r/1\n".to_string()),
            Draw::Print("\x1B[2K".to_string()),
            Draw::Styled(Span::new("X".to_string(), Style::fg(Color::DarkRed))),
            Draw::Print(" ~/r/2\n".to_string()),
        ]
    );
}

#[test]
fn tick_redraws_in_place_and_moves_the_spinner_on() {
    let mut o = Orchestrator::new(names(3), labels(3), 10);
    for round in 0..25 {
        assert_eq!(o.spinner_index, round % 10);
        let expected = queue_update_progress(&o.labels, &o.statuses, round % 10);
        let out = o.tick();
        assert_eq!(out[0], Draw::MoveUp(3));
        assert_eq!(&out[1..], &expected[..]);
        assert_eq!(out.len(), 1 + 3 * 3);
    }
}

#[test]
fn tick_in_the_compact_display_rewrites_one_line() {
    let mut o = Orchestrator::new(names(12), labels(12), 10);
    o.record("/r/5", fin(""));
    let out = o.tick();
    assert_eq!(out, queue_update_progress_compact(&o.statuses, 0));
    assert_eq!(out[2], Draw::Print(" running [1/12 complete]".to_string()));
    assert_eq!(o.spinner_index, 1);
}

#[test]
fn start_hides_the_cursor_and_draws_the_full_display_once() {
    let o = Orchestrator::new(names(2), labels(2), 10);
    let out = o.queue_start(&config(2, 2));
    assert_eq!(out[0], Draw::HideCursor);
    assert_eq!(&out[1..], &queue_update_progress(&o.labels, &o.statuses, 0)[..]);
    let out = o.queue_start(&config(3, 2));
    assert_eq!(
        out[0],
        Draw::Styled(Span::new(
            "context: 2 of 3 repositories".to_string(),
            Style::fg(Color::DarkGrey)
        ))
    );
    assert_eq!(out[1], Draw::Print("\r\n".to_string()));
    assert_eq!(out[2], Draw::HideCursor);
    let compact = Orchestrator::new(names(12), labels(12), 10);
    assert_eq!(compact.queue_start(&config(12, 12)), vec![Draw::HideCursor]);
}

#[test]
fn finish_draws_once_more_and_shows_the_cursor() {
    let mut o = Orchestrator::new(names(2), labels(2), 10);
    o.record("/r/0", fin(""));
    o.record("/r/1", err("e"));
    let out = o.queue_finish();
    assert_eq!(out[0], Draw::MoveUp(2));
    assert_eq!(&out[1..7], &queue_update_progress(&o.labels, &o.statuses, 0)[..]);
    assert_eq!(out[7], Draw::ShowCursor);
    assert_eq!(out.len(), 8);
    let compact = Orchestrator::new(names(12), labels(12), 10);
    let out = compact.queue_finish();
    assert_eq!(&out[..3], &queue_update_progress_compact(&compact.statuses, 0)[..]);
    assert_eq!(out[3], Draw::Print("\r\n".to_string()));
    assert_eq!(out[4], Draw::ShowCursor);
}

#[test]
fn report_follows_the_order_of_the_targets() {
    let statuses = vec![err("z"), ProcessStatus::Running, fin("a")];
    let out = queue_report(&labels(3), &statuses, 0);
    let texts: Vec<String> = out
        .iter()
        .filter_map(|d| match d {
            Draw::Styled(s) => Some(s.text.clone()),
            _ => None,
        })
        .collect();
    assert_eq!(texts, vec!["~/r/0", "~/r/2"]);
}
