use gitlasso::command::context::{
    context_ui, key_of_char, page_count, page_size, queue_info_bar, ContextUi, Key, Selector,
};
use gitlasso::config::RepoConfig;
use gitlasso::terminal::{Color, Draw, Span, Style};

fn entries(n: usize) -> Vec<RepoConfig> {
    (0..n).map(|i| RepoConfig { path: format!("/r/{i}"), visible: i % 2 == 0 }).collect()
}

fn labels(n: usize) -> Vec<String> {
    (0..n).map(|i| format!("~/r/{i}")).collect()
}

fn flags(s: &Selector) -> Vec<bool> {
    s.entries.iter().map(|e| e.visible).collect()
}

fn text_of(draws: &[Draw]) -> String {
    let mut s = String::new();
    for d in draws {
        match d {
            Draw::Print(t) => s.push_str(t),
            Draw::Styled(span) => s.push_str(&span.text),
            _ => {}
        }
    }
    s
}

#[test]
fn page_size_is_the_count_or_the_height_less_three() {
    assert_eq!(page_size(12, 10), Some(7));
    assert_eq!(page_size(3, 10), Some(3));
    assert_eq!(page_size(7, 10), Some(7));
    assert_eq!(page_size(100, 6), Some(3));
    assert_eq!(page_size(12, 5), None);
    assert_eq!(page_size(12, 0), None);
    assert_eq!(page_size(0, 10), None);
}

#[test]
fn page_count_rounds_up() {
    assert_eq!(page_count(12, 7), 2);
    assert_eq!(page_count(14, 7), 2);
    assert_eq!(page_count(15, 7), 3);
    assert_eq!(page_count(1, 1), 1);
    assert_eq!(page_count(1, 7), 1);
    for n in 1usize..40 {
        for p in 1usize..10 {
            assert_eq!(page_count(n, p), (n + p - 1) / p);
            for i in 0..n {
                assert!(i / p < page_count(n, p));
            }
        }
    }
}

#[test]
fn selector_needs_entries_and_room() {
    assert!(Selector::new(Vec::new(), 40).is_none());
    assert!(Selector::new(entries(3), 5).is_none());
    let s = Selector::new(entries(12), 10).unwrap();
    assert_eq!(s.cursor, 0);
    assert_eq!(s.page_size, 7);
    assert_eq!(s.entries.len(), 12);
}

#[test]
fn keys_are_read_from_characters() {
    assert_eq!(key_of_char('+'), Key::All);
    assert_eq!(key_of_char('-'), Key::Nothing);
    assert_eq!(key_of_char('k'), Key::Up);
    assert_eq!(key_of_char('j'), Key::Down);
    assert_eq!(key_of_char('h'), Key::Left);
    assert_eq!(key_of_char('l'), Key::Right);
    assert_eq!(key_of_char(' '), Key::Toggle);
    assert_eq!(key_of_char('x'), Key::Other);
    assert_eq!(key_of_char('K'), Key::Other);
}

#[test]
fn toggling_twice_gives_back_the_flag() {
    for cursor in 0..5 {
        let mut s = Selector::new(entries(5), 40).unwrap();
        s.cursor = cursor;
        let before = flags(&s);
        assert!(!s.step(Key::Toggle));
        let mut once = before.clone();
        once[cursor] = !once[cursor];
        assert_eq!(flags(&s), once);
        assert_eq!(s.cursor, cursor);
        assert!(!s.step(Key::Toggle));
        assert_eq!(flags(&s), before);
        assert_eq!(s.cursor, cursor);
    }
}

#[test]
fn cursor_moves_by_one_and_stops_at_the_ends() {
    let mut s = Selector::new(entries(3), 40).unwrap();
    s.step(Key::Up);
    assert_eq!(s.cursor, 0);
    s.step(Key::Down);
    assert_eq!(s.cursor, 1);
    s.step(Key::Down);
    assert_eq!(s.cursor, 2);
    s.step(Key::Down);
    assert_eq!(s.cursor, 2);
    s.step(Key::Up);
    assert_eq!(s.cursor, 1);
}

#[test]
fn cursor_moves_by_pages_and_stops_at_the_ends() {
    let mut s = Selector::new(entries(12), 10).unwrap();
    s.step(Key::Down);
    s.step(Key::Right);
    assert_eq!(s.cursor, 8);
    s.step(Key::Right);
    assert_eq!(s.cursor, 11);
    s.step(Key::Left);
    assert_eq!(s.cursor, 4);
    s.step(Key::Left);
    assert_eq!(s.cursor, 0);
    s.step(Key::Left);
    assert_eq!(s.cursor, 0);
}

#[test]
fn all_and_none_set_every_flag() {
    let mut s = Selector::new(entries(4), 40).unwrap();
    s.cursor = 2;
    assert!(!s.step(Key::All));
    assert_eq!(flags(&s), vec![true; 4]);
    assert!(!s.step(Key::Nothing));
    assert_eq!(flags(&s), vec![false; 4]);
    assert_eq!(s.cursor, 2);
    let paths: Vec<String> = s.entries.iter().map(|e| e.path.clone()).collect();
    assert_eq!(paths, vec!["/r/0", "/r/1", "/r/2", "/r/3"]);
}

#[test]
fn confirm_ends_the_selection_and_changes_nothing() {
    let mut s = Selector::new(entries(4), 40).unwrap();
    s.cursor = 1;
    let before = flags(&s);
    assert!(s.step(Key::Confirm));
    assert_eq!(flags(&s), before);
    assert_eq!(s.cursor, 1);
    assert!(!s.step(Key::Other));
    assert_eq!(flags(&s), before);
    assert_eq!(s.cursor, 1);
}

#[test]
fn page_line_of_a_single_page() {
    let s = Selector::new(entries(3), 40).unwrap();
    assert_eq!(s.visible_count(), 2);
    assert_eq!(text_of(&s.queue_page_info()), "\x1B[2K[Selected 2/3]\r\n");
}

#[test]
fn page_line_of_several_pages() {
    let mut s = Selector::new(entries(12), 10).unwrap();
    assert_eq!(
        text_of(&s.queue_page_info()),
        "\x1B[2K\u{29BF}\u{25CB} [Page 1/2] [Selected 6/12]\r\n"
    );
    s.cursor = 8;
    assert_eq!(
        text_of(&s.queue_page_info()),
        "\x1B[2K\u{25CB}\u{29BF} [Page 2/2] [Selected 6/12]\r\n"
    );
}

#[test]
fn list_shows_the_page_of_the_cursor_and_fills_it() {
    let mut s = Selector::new(entries(12), 10).unwrap();
    s.cursor = 8;
    let out = s.queue_repo_list(&labels(12));
    let mut expected: Vec<Draw> = Vec::new();
    for i in 7..12 {
        let visible = i % 2 == 0;
        expected.push(Draw::Print("\x1B[2K".to_string()));
        expected.push(Draw::Styled(Span::new(
            format!("[{}] ~/r/{}", if visible { "\u{2713}" } else { " " }, i),
            Style {
                foreground: Some(if visible { Color::White } else { Color::Grey }),
                background: if i == 8 { Some(Color::DarkBlue) } else { None },
                bold: false,
            },
        )));
        expected.push(Draw::Print("\n\r".to_string()));
    }
    expected.push(Draw::Print("\x1B[2K\n\r".to_string()));
    expected.push(Draw::Print("\x1B[2K\n\r".to_string()));
    assert_eq!(out, expected);
}

#[test]
fn first_page_is_full() {
    let s = Selector::new(entries(12), 10).unwrap();
    let out = s.queue_repo_list(&labels(12));
    assert_eq!(out.len(), 21);
    assert_eq!(text_of(&out).matches("\n\r").count(), 7);
}

#[test]
fn redraw_moves_up_over_the_page_line_and_the_page() {
    let s = Selector::new(entries(12), 10).unwrap();
    let l = labels(12);
    let out = s.queue_redraw(&l);
    assert_eq!(out[0], Draw::MoveUp(8));
    let mut rest = s.queue_page_info();
    rest.extend(s.queue_repo_list(&l));
    assert_eq!(&out[1..], &rest[..]);
    let first = s.queue_first_draw(&l);
    let mut expected = queue_info_bar();
    expected.extend(rest);
    assert_eq!(first, expected);
}

#[test]
fn info_bar_names_the_keys() {
    let out = queue_info_bar();
    assert_eq!(
        text_of(&out),
        "up/down move, enter confirm, space toggle, + all, - none\r\n"
    );
    assert_eq!(out[0], Draw::Styled(Span::new("up/down".to_string(), Style::fg(Color::DarkYellow))));
    assert_eq!(out[2], Draw::Styled(Span::new("move".to_string(), Style::fg(Color::DarkGrey))));
    assert_eq!(out[3], Draw::Styled(Span::new(", ".to_string(), Style::fg(Color::DarkGrey))));
}

#[test]
fn every_key_but_confirm_redraws_the_page() {
    let l = labels(12);
    let mut s = Selector::new(entries(12), 10).unwrap();
    let out = s.on_key(Key::Right, &l).unwrap();
    assert_eq!(s.cursor, 7);
    assert_eq!(out, s.queue_redraw(&l));
    let out = s.on_key(Key::Toggle, &l).unwrap();
    assert!(!s.entries[7].visible == false);
    assert_eq!(out, s.queue_redraw(&l));
    assert!(s.on_key(Key::Other, &l).is_some());
    assert!(s.on_key(Key::Confirm, &l).is_none());
    assert_eq!(s.cursor, 7);
}

#[test]
fn selection_starts_only_with_entries_and_room() {
    assert!(matches!(context_ui(Vec::new(), None, 40), ContextUi::NoRepositories));
    assert!(matches!(context_ui(Vec::new(), None, 3), ContextUi::NoRepositories));
    assert!(matches!(context_ui(entries(3), None, 5), ContextUi::NoRoom));
    match context_ui(entries(12), Some("/r"), 10) {
        ContextUi::Selecting { selector, labels, first_draw } => {
            assert_eq!(selector.cursor, 0);
            assert_eq!(selector.page_size, 7);
            assert_eq!(labels.len(), 12);
            assert_eq!(labels[3], "~/3");
            assert_eq!(first_draw, selector.queue_first_draw(&labels));
        }
        _ => panic!("a selection was expected"),
    }
}
