use gitlasso::terminal::{Color, Draw, Span, Style};
use gitlasso::tui::table::{queue_table, try_queue_table, Cell, Table};

fn text_of(draws: &[Draw]) -> String {
    let mut s = String::new();
    for d in draws {
        match d {
            Draw::Print(t) => s.push_str(t),
            Draw::Styled(span) => s.push_str(&span.text),
            _ => {}
        }
    }
    s
}

fn plain_rows(rows: &[&[&str]]) -> Vec<Vec<Cell>> {
    rows.iter()
        .map(|row| row.iter().map(|c| Cell::plain(c.to_string())).collect())
        .collect()
}

fn lines_of(width: usize, rows: &[&[&str]]) -> Vec<String> {
    let table = Table { width, rows: plain_rows(rows) };
    assert!(table.fits());
    let text = text_of(&queue_table(table));
    assert!(text.ends_with("\r\n") || text.is_empty());
    let mut lines: Vec<String> = text.split("\r\n").map(|l| l.to_string()).collect();
    lines.pop();
    lines
}

#[test]
fn two_columns_in_forty_columns_stay_within_the_width() {
    let lines = lines_of(
        40,
        &[&["path", "status"], &["very/long/path/name/here", "2 modified"]],
    );
    assert_eq!(lines.len(), 2);
    for line in &lines {
        assert!(line.chars().count() <= 40);
    }
    assert_eq!(lines[0], format!("{:26}{:12}", "path", "status"));
    assert_eq!(lines[1], format!("{:26}{:12}", "very/long/path/name/here", "2 modified"));
}

#[test]
fn first_column_is_cut_where_the_table_is_narrower_than_it() {
    let lines = lines_of(
        20,
        &[&["path", "status"], &["very/long/path/name/here", "2 modified"]],
    );
    assert_eq!(lines[0], format!("{:20}", "path"));
    assert_eq!(lines[1], "very/long/path/name\u{2026}");
    assert_eq!(lines[1].chars().count(), 20);
    assert!(lines[1].contains('\u{2026}'));
}

#[test]
fn cell_longer_than_its_column_keeps_width_minus_one_characters() {
    for w in 3usize..10 {
        let lines = lines_of(w, &[&["abcdefghijkl"]]);
        let expected: String = "abcdefghijkl".chars().take(w - 1).collect::<String>() + "\u{2026}";
        assert_eq!(lines[0], expected);
        assert_eq!(lines[0].chars().count(), w);
    }
}

#[test]
fn cell_at_the_minimum_width_of_three() {
    let lines = lines_of(3, &[&["abcdef"]]);
    assert_eq!(lines[0], "ab\u{2026}");
}

#[test]
fn column_clipped_below_three_is_left_out() {
    let lines = lines_of(28, &[&["path", "status"], &["very/long/path/name/here", "2 modified"]]);
    assert_eq!(lines[0], format!("{:26}", "path"));
    assert_eq!(lines[1], format!("{:26}", "very/long/path/name/here"));
    let lines = lines_of(29, &[&["path", "status"], &["very/long/path/name/here", "2 modified"]]);
    assert_eq!(lines[0], format!("{:26}st\u{2026}", "path"));
    assert_eq!(lines[1], format!("{:26}2 \u{2026}", "very/long/path/name/here"));
}

#[test]
fn table_narrower_than_three_shows_no_cell() {
    let lines = lines_of(2, &[&["abc", "d"], &["e"]]);
    assert_eq!(lines, vec!["".to_string(), "".to_string()]);
}

#[test]
fn short_row_draws_only_its_own_columns() {
    let lines = lines_of(80, &[&["a", "bb", "ccc"], &["x"], &[]]);
    assert_eq!(lines[0], "a  bb  ccc  ");
    assert_eq!(lines[1], "x  ");
    assert_eq!(lines[2], "");
}

#[test]
fn empty_column_keeps_its_spacing() {
    let lines = lines_of(80, &[&["a", "", "c"], &["b", "", "d"]]);
    assert_eq!(lines[0], "a    c  ");
    assert_eq!(lines[1], "b    d  ");
}

#[test]
fn empty_table_draws_nothing() {
    let table = Table { width: 10, rows: Vec::new() };
    assert!(queue_table(table).is_empty());
}

#[test]
fn cut_never_splits_a_glyph() {
    let lines = lines_of(6, &[&["h\u{e9}llo w\u{f6}rld"]]);
    assert_eq!(lines[0], "h\u{e9}llo\u{2026}");
    let lines = lines_of(5, &[&["\u{65e5}\u{672c}\u{8a9e}\u{306e}\u{30c6}\u{30b9}\u{30c8}"]]);
    assert_eq!(lines[0], "\u{65e5}\u{672c}\u{8a9e}\u{306e}\u{2026}");
}

#[test]
fn cell_len_counts_code_points_over_all_spans() {
    let cell = Cell::new(vec![
        Span::new("h\u{e9}".to_string(), Style::bold()),
        Span::plain("\u{65e5}\u{672c}".to_string()),
        Span::plain(String::new()),
    ]);
    assert_eq!(cell.len(), 4);
    assert_eq!(cell.checked_len(), Some(4));
    assert_eq!(Cell::plain("abc".to_string()).len(), 3);
    assert_eq!(Cell::new(Vec::new()).len(), 0);
}

#[test]
fn spans_keep_their_styles() {
    let red = Style::fg(Color::Red);
    let cell = Cell::new(vec![
        Span::new("+1".to_string(), Style::fg(Color::Green)),
        Span::plain("/".to_string()),
        Span::new("-2".to_string(), red),
    ]);
    let out = queue_table(Table { width: 80, rows: vec![vec![cell]] });
    assert_eq!(
        out,
        vec![
            Draw::Styled(Span::new("+1".to_string(), Style::fg(Color::Green))),
            Draw::Styled(Span::plain("/".to_string())),
            Draw::Styled(Span::new("-2".to_string(), red)),
            Draw::Print("  ".to_string()),
            Draw::Print("\r\n".to_string()),
        ]
    );
}

#[test]
fn cut_span_keeps_its_style_and_ends_the_cell() {
    let cell = Cell::new(vec![
        Span::new("ab".to_string(), Style::bold()),
        Span::new("cdefgh".to_string(), Style::fg(Color::Red)),
        Span::plain("ij".to_string()),
    ]);
    let out = queue_table(Table { width: 5, rows: vec![vec![cell]] });
    assert_eq!(
        out,
        vec![
            Draw::Styled(Span::new("ab".to_string(), Style::bold())),
            Draw::Styled(Span::new("cd\u{2026}".to_string(), Style::fg(Color::Red))),
            Draw::Print("\r\n".to_string()),
        ]
    );
}

#[test]
fn span_after_a_full_column_is_not_drawn() {
    let cell = Cell::new(vec![
        Span::plain("abc".to_string()),
        Span::plain("de".to_string()),
    ]);
    let out = queue_table(Table { width: 3, rows: vec![vec![cell]] });
    assert_eq!(
        out,
        vec![Draw::Styled(Span::plain("abc".to_string())), Draw::Print("\r\n".to_string())]
    );
}

#[test]
fn table_that_fits_is_queued() {
    let rows = plain_rows(&[&["a", "bb"], &["ccc"]]);
    let out = try_queue_table(Table { width: 9, rows: rows.clone() });
    assert_eq!(out, Some(queue_table(Table { width: 9, rows })));
    assert_eq!(text_of(&out.unwrap()), "a    bb  \r\nccc  \r\n");
}
