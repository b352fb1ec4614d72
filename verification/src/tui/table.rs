use crate::terminal::{
    draw_width, lemma_total_text_concat, lemma_total_text_one, lemma_total_width_concat,
    lemma_views_push, total_text, total_width, views, Draw, DrawView, Span, SpanView, Style,
};
use crate::text::{spaces, spec_spaces};
use vstd::prelude::*;

verus! {

/// A column narrower than this, once clipped to the table, is not shown.
pub const MIN_COL_WIDTH: usize = 3;

/// Blank columns that follow the widest cell of every column.
pub const CELL_SPACING: usize = 2;

/// The mark that ends a cut span.
pub const ELLIPSIS: char = '\u{2026}';

/// A table cell: styled spans, shown one after the other.
#[derive(Clone, Debug)]
pub struct Cell {
    spans: Vec<Span>,
}

/// Rows of cells and the width to fit them in. Rows may differ in length.
#[derive(Clone, Debug)]
pub struct Table {
    pub width: usize,
    pub rows: Vec<Vec<Cell>>,
}

/// What a table is: its width and the spans of each cell of each row.
pub struct TableView {
    pub width: nat,
    pub rows: Seq<Seq<Seq<SpanView>>>,
}

/// What each span of a list is.
pub open spec fn span_views(spans: Seq<Span>) -> Seq<SpanView> {
    spans.map_values(|s: Span| s@)
}

/// The cells of a row.
pub open spec fn row_view(row: Seq<Cell>) -> Seq<Seq<SpanView>> {
    row.map_values(|c: Cell| c@)
}

/// The rows of a table.
pub open spec fn rows_view(rows: Seq<Vec<Cell>>) -> Seq<Seq<Seq<SpanView>>> {
    rows.map_values(|r: Vec<Cell>| row_view(r@))
}

impl View for Cell {
    type V = Seq<SpanView>;

    closed spec fn view(&self) -> Seq<SpanView> {
        span_views(self.spans@)
    }
}

impl View for Table {
    type V = TableView;

    open spec fn view(&self) -> TableView {
        TableView { width: self.width as nat, rows: rows_view(self.rows@) }
    }
}

/// The number of characters that a cell shows: the sum over its spans.
pub open spec fn spec_cell_len(spans: Seq<SpanView>) -> nat
    decreases spans.len(),
{
    if spans.len() == 0 {
        0
    } else {
        spec_cell_len(spans.drop_last()) + spans.last().text.len()
    }
}

/// The characters of a cell from span `from` on, all spans joined.
pub open spec fn spec_text_from(spans: Seq<SpanView>, from: int) -> Seq<char>
    decreases spans.len() - from,
{
    if from < 0 || from >= spans.len() {
        Seq::empty()
    } else {
        spans[from].text + spec_text_from(spans, from + 1)
    }
}

/// The widest cell in column `col`, over the rows that reach it.
pub open spec fn spec_col_width(rows: Seq<Seq<Seq<SpanView>>>, col: int) -> nat
    decreases rows.len(),
{
    if rows.len() == 0 {
        0
    } else {
        let rest = spec_col_width(rows.drop_last(), col);
        let row = rows.last();
        if 0 <= col < row.len() && spec_cell_len(row[col]) > rest {
            spec_cell_len(row[col])
        } else {
            rest
        }
    }
}

/// The length of the longest row.
pub open spec fn spec_col_count(rows: Seq<Seq<Seq<SpanView>>>) -> nat
    decreases rows.len(),
{
    if rows.len() == 0 {
        0
    } else {
        let rest = spec_col_count(rows.drop_last());
        if rows.last().len() > rest {
            rows.last().len()
        } else {
            rest
        }
    }
}

/// The width of every column.
pub open spec fn spec_col_widths(rows: Seq<Seq<Seq<SpanView>>>) -> Seq<nat> {
    Seq::new(spec_col_count(rows), |c: int| spec_col_width(rows, c))
}

/// Every cell, with the spacing after it, has a length that the machine can
/// hold.
pub open spec fn spec_fits(rows: Seq<Seq<Seq<SpanView>>>) -> bool {
    forall|r: int, c: int|
        0 <= r < rows.len() && 0 <= c < rows[r].len() ==> #[trigger] spec_cell_len(rows[r][c])
            + CELL_SPACING <= usize::MAX
}

/// A span cut to `budget` characters, the last of them the ellipsis.
pub open spec fn spec_cut(span: SpanView, budget: nat) -> SpanView
    recommends
        1 <= budget < span.text.len(),
{
    SpanView { text: span.text.take(budget - 1).push(ELLIPSIS), style: span.style }
}

/// The blanks that fill what a cell leaves of its column.
pub open spec fn spec_padding(n: nat) -> Seq<DrawView> {
    if n > 0 {
        seq![DrawView::Print(spec_spaces(n))]
    } else {
        Seq::empty()
    }
}

/// What a cell draws from span `from` on when `budget` characters of its
/// column are left. A span that fits is drawn whole. The first span that does
/// not fit is cut to the budget, ellipsis included, and ends the cell; where
/// nothing is left it is not drawn at all. After the last span, blanks fill
/// the column.
pub open spec fn spec_cell(spans: Seq<SpanView>, from: int, budget: nat) -> Seq<DrawView>
    decreases spans.len() - from,
{
    if from < 0 || from >= spans.len() {
        spec_padding(budget)
    } else if spans[from].text.len() > budget {
        if budget == 0 {
            Seq::empty()
        } else {
            seq![DrawView::Styled(spec_cut(spans[from], budget))]
        }
    } else {
        seq![DrawView::Styled(spans[from])] + spec_cell(
            spans,
            from + 1,
            (budget - spans[from].text.len()) as nat,
        )
    }
}

/// The part of the table's width that column `col` gets when it starts at
/// `pos`: its own width and the spacing, clipped to the table.
pub open spec fn spec_clipped(widths: Seq<nat>, col: int, width: nat, pos: nat) -> nat
    recommends
        0 <= col < widths.len(),
        pos <= width,
{
    let span = (widths[col] + CELL_SPACING) as nat;
    if span <= width - pos {
        span
    } else {
        (width - pos) as nat
    }
}

/// Whether a row ends before column `col`: the column has content, and
/// clipping leaves it less than the minimum.
pub open spec fn spec_stops(widths: Seq<nat>, col: int, width: nat, pos: nat) -> bool {
    widths[col] + CELL_SPACING >= MIN_COL_WIDTH && spec_clipped(widths, col, width, pos)
        < MIN_COL_WIDTH
}

/// What a row draws from column `col` on, the cursor standing at `pos`.
pub open spec fn spec_row(
    widths: Seq<nat>,
    row: Seq<Seq<SpanView>>,
    width: nat,
    col: int,
    pos: nat,
) -> Seq<DrawView>
    decreases row.len() - col,
{
    if col < 0 || col >= row.len() || col >= widths.len() || pos > width {
        Seq::empty()
    } else if spec_stops(widths, col, width, pos) {
        Seq::empty()
    } else {
        spec_cell(row[col], 0, spec_clipped(widths, col, width, pos)) + spec_row(
            widths,
            row,
            width,
            col + 1,
            pos + spec_clipped(widths, col, width, pos),
        )
    }
}

/// The end of a table line.
pub open spec fn spec_line_end() -> DrawView {
    DrawView::Print(seq!['\r', '\n'])
}

/// What the rows from `from` on draw: each row, then the end of its line.
pub open spec fn spec_rows(
    widths: Seq<nat>,
    rows: Seq<Seq<Seq<SpanView>>>,
    width: nat,
    from: int,
) -> Seq<DrawView>
    decreases rows.len() - from,
{
    if from < 0 || from >= rows.len() {
        Seq::empty()
    } else {
        spec_row(widths, rows[from], width, 0, 0).push(spec_line_end()) + spec_rows(
            widths,
            rows,
            width,
            from + 1,
        )
    }
}

/// What a table draws.
pub open spec fn spec_table(table: TableView) -> Seq<DrawView> {
    spec_rows(spec_col_widths(table.rows), table.rows, table.width, 0)
}

impl Cell {
    /// A cell of the given spans.
    pub fn new(spans: Vec<Span>) -> (cell: Cell)
        ensures
            cell@ == span_views(spans@),
    {
        Cell { spans }
    }

    /// A cell of one unstyled span.
    pub fn plain(s: String) -> (cell: Cell)
        ensures
            cell@ == seq![SpanView { text: s@, style: Style::spec_plain() }],
    {
        let mut spans: Vec<Span> = Vec::new();
        spans.push(Span::plain(s));
        assert(span_views(spans@) =~= seq![SpanView { text: s@, style: Style::spec_plain() }]);
        Cell { spans }
    }

    /// The number of characters shown, counted in code points.
    pub fn len(&self) -> (n: usize)
        requires
            spec_cell_len(self@) <= usize::MAX,
        ensures
            n == spec_cell_len(self@),
    {
        let mut total: usize = 0;
        let mut k: usize = 0;
        while k < self.spans.len()
            invariant
                k <= self.spans.len(),
                total == spec_cell_len(self@.take(k as int)),
                spec_cell_len(self@) <= usize::MAX,
            decreases self.spans.len() - k,
        {
            let n = self.spans[k].len();
            proof {
                assert(self@.take(k + 1).drop_last() =~= self@.take(k as int));
                lemma_cell_len_take(self@, k + 1);
            }
            total = total + n;
            k += 1;
        }
        assert(self@.take(k as int) =~= self@);
        total
    }

    /// The number of characters shown, where the machine can hold it.
    pub fn checked_len(&self) -> (n: Option<usize>)
        ensures
            n == if spec_cell_len(self@) <= usize::MAX {
                Some(spec_cell_len(self@) as usize)
            } else {
                None
            },
    {
        let mut total: usize = 0;
        let mut k: usize = 0;
        while k < self.spans.len()
            invariant
                k <= self.spans.len(),
                total == spec_cell_len(self@.take(k as int)),
            decreases self.spans.len() - k,
        {
            let n = self.spans[k].len();
            proof {
                assert(self@.take(k + 1).drop_last() =~= self@.take(k as int));
                lemma_cell_len_take(self@, k + 1);
            }
            if n > usize::MAX - total {
                return None;
            }
            total = total + n;
            k += 1;
        }
        assert(self@.take(k as int) =~= self@);
        Some(total)
    }
}

/// A prefix of a cell is no longer than the cell.
pub proof fn lemma_cell_len_take(spans: Seq<SpanView>, k: int)
    requires
        0 <= k <= spans.len(),
    ensures
        spec_cell_len(spans.take(k)) <= spec_cell_len(spans),
    decreases spans.len(),
{
    if k == spans.len() {
        assert(spans.take(k) =~= spans);
    } else {
        assert(spans.drop_last().take(k) =~= spans.take(k));
        lemma_cell_len_take(spans.drop_last(), k);
    }
}

/// The length of the longest row.
fn col_count(rows: &Vec<Vec<Cell>>) -> (n: usize)
    ensures
        n == spec_col_count(rows_view(rows@)),
{
    let ghost all = rows_view(rows@);
    let mut n: usize = 0;
    let mut r: usize = 0;
    while r < rows.len()
        invariant
            r <= rows.len(),
            all == rows_view(rows@),
            n == spec_col_count(all.take(r as int)),
        decreases rows.len() - r,
    {
        proof {
            assert(all.take(r + 1).drop_last() =~= all.take(r as int));
        }
        if rows[r].len() > n {
            n = rows[r].len();
        }
        r += 1;
    }
    assert(all.take(r as int) =~= all);
    n
}

/// The widest cell of column `col`.
fn col_width(rows: &Vec<Vec<Cell>>, col: usize) -> (w: usize)
    requires
        spec_fits(rows_view(rows@)),
    ensures
        w == spec_col_width(rows_view(rows@), col as int),
        w + CELL_SPACING <= usize::MAX,
{
    let ghost all = rows_view(rows@);
    let mut w: usize = 0;
    let mut r: usize = 0;
    while r < rows.len()
        invariant
            r <= rows.len(),
            all == rows_view(rows@),
            spec_fits(all),
            w == spec_col_width(all.take(r as int), col as int),
            w + CELL_SPACING <= usize::MAX,
        decreases rows.len() - r,
    {
        proof {
            assert(all.take(r + 1).drop_last() =~= all.take(r as int));
        }
        if col < rows[r].len() {
            assert(spec_cell_len(all[r as int][col as int]) + CELL_SPACING <= usize::MAX);
            let n = rows[r][col].len();
            if n > w {
                w = n;
            }
        }
        r += 1;
    }
    assert(all.take(r as int) =~= all);
    w
}

/// The widths as numbers without bound.
pub open spec fn spec_nats(widths: Seq<usize>) -> Seq<nat> {
    widths.map_values(|w: usize| w as nat)
}

/// The width of every column.
fn col_widths(rows: &Vec<Vec<Cell>>) -> (widths: Vec<usize>)
    requires
        spec_fits(rows_view(rows@)),
    ensures
        spec_nats(widths@) == spec_col_widths(rows_view(rows@)),
        forall|c: int| 0 <= c < widths@.len() ==> #[trigger] widths@[c] + CELL_SPACING <= usize::MAX,
{
    let count = col_count(rows);
    let mut widths: Vec<usize> = Vec::new();
    let mut c: usize = 0;
    while c < count
        invariant
            c <= count,
            count == spec_col_count(rows_view(rows@)),
            spec_fits(rows_view(rows@)),
            widths@.len() == c,
            forall|i: int|
                0 <= i < c ==> #[trigger] widths@[i] == spec_col_width(rows_view(rows@), i),
            forall|i: int| 0 <= i < c ==> #[trigger] widths@[i] + CELL_SPACING <= usize::MAX,
        decreases count - c,
    {
        let w = col_width(rows, c);
        widths.push(w);
        c += 1;
    }
    assert(spec_nats(widths@) =~= spec_col_widths(rows_view(rows@)));
    widths
}

/// Queues one cell into a column of `budget` characters.
fn queue_cell(out: &mut Vec<Draw>, cell: &Cell, budget: usize)
    ensures
        views(final(out)@) == views(old(out)@) + spec_cell(cell@, 0, budget as nat),
{
    let ghost start = views(out@);
    let ghost whole = spec_cell(cell@, 0, budget as nat);
    let mut remaining: usize = budget;
    let mut k: usize = 0;
    assert(views(out@) + whole =~= start + whole);
    while k < cell.spans.len()
        invariant
            k <= cell.spans.len(),
            start == views(old(out)@),
            whole == spec_cell(cell@, 0, budget as nat),
            views(out@) + spec_cell(cell@, k as int, remaining as nat) == start + whole,
        decreases cell.spans.len() - k,
    {
        let span = &cell.spans[k];
        let n = span.len();
        let ghost before = views(out@);
        let ghost rest = spec_cell(cell@, k as int, remaining as nat);
        assert(cell@[k as int] == span@);
        if n > remaining {
            if remaining > 0 {
                let kept = span.text.as_str().substring_char(0, remaining - 1);
                let mut text = String::from_str(kept);
                proof {
                    reveal_strlit("\u{2026}");
                }
                text.append("\u{2026}");
                let cut = Draw::Styled(Span::new(text, span.style));
                proof {
                    assert(text@ =~= spec_cut(span@, remaining as nat).text);
                    lemma_views_push(out@, cut);
                    assert(before.push(cut@) =~= before + rest);
                }
                out.push(cut);
            } else {
                assert(before + rest =~= before);
            }
            return ;
        }
        let whole_span = Draw::Styled(span.duplicate());
        proof {
            lemma_views_push(out@, whole_span);
            assert(before.push(whole_span@) + spec_cell(
                cell@,
                k + 1,
                (remaining - n) as nat,
            ) =~= before + rest);
        }
        out.push(whole_span);
        remaining -= n;
        k += 1;
    }
    let ghost before = views(out@);
    if remaining > 0 {
        let blanks = Draw::Print(spaces(remaining));
        proof {
            lemma_views_push(out@, blanks);
            assert(before.push(blanks@) =~= before + spec_padding(remaining as nat));
        }
        out.push(blanks);
    } else {
        assert(before + spec_padding(remaining as nat) =~= before);
    }
}

/// Queues one row, without the end of its line.
fn queue_row(out: &mut Vec<Draw>, widths: &Vec<usize>, row: &Vec<Cell>, width: usize)
    requires
        forall|c: int| 0 <= c < widths@.len() ==> #[trigger] widths@[c] + CELL_SPACING <= usize::MAX,
    ensures
        views(final(out)@) == views(old(out)@) + spec_row(
            spec_nats(widths@),
            row_view(row@),
            width as nat,
            0,
            0,
        ),
{
    let ghost start = views(out@);
    let ghost ws = spec_nats(widths@);
    let ghost cells = row_view(row@);
    let ghost whole = spec_row(ws, cells, width as nat, 0, 0);
    let mut pos: usize = 0;
    let mut col: usize = 0;
    assert(views(out@) + whole =~= start + whole);
    while col < row.len() && col < widths.len()
        invariant
            col <= row.len(),
            pos <= width,
            ws == spec_nats(widths@),
            cells == row_view(row@),
            start == views(old(out)@),
            whole == spec_row(ws, cells, width as nat, 0, 0),
            forall|c: int|
                0 <= c < widths@.len() ==> #[trigger] widths@[c] + CELL_SPACING <= usize::MAX,
            views(out@) + spec_row(ws, cells, width as nat, col as int, pos as nat) == start
                + whole,
        decreases row.len() - col,
    {
        let ghost before = views(out@);
        let ghost rest = spec_row(ws, cells, width as nat, col as int, pos as nat);
        assert(widths@[col as int] + CELL_SPACING <= usize::MAX);
        assert(ws[col as int] == widths@[col as int] as nat);
        let span = widths[col] + CELL_SPACING;
        let left = width - pos;
        let clipped = if span <= left {
            span
        } else {
            left
        };
        assert(clipped == spec_clipped(ws, col as int, width as nat, pos as nat));
        if span >= MIN_COL_WIDTH && clipped < MIN_COL_WIDTH {
            assert(before + rest =~= before);
            return ;
        }
        queue_cell(out, &row[col], clipped);
        proof {
            assert(cells[col as int] == row@[col as int]@);
            let drawn = spec_cell(cells[col as int], 0, clipped as nat);
            let after = spec_row(ws, cells, width as nat, col + 1, (pos + clipped) as nat);
            assert(rest == drawn + after);
            assert((before + drawn) + after =~= before + rest);
        }
        pos += clipped;
        col += 1;
    }
    proof {
        let rest = spec_row(ws, cells, width as nat, col as int, pos as nat);
        assert(views(out@) + rest =~= views(out@));
    }
}

impl Table {
    /// Whether every cell is short enough to be laid out.
    pub fn fits(&self) -> (ok: bool)
        ensures
            ok == spec_fits(self@.rows),
    {
        let ghost all = rows_view(self.rows@);
        let mut r: usize = 0;
        while r < self.rows.len()
            invariant
                r <= self.rows.len(),
                all == rows_view(self.rows@),
                spec_fits(all.take(r as int)),
            decreases self.rows.len() - r,
        {
            let row = &self.rows[r];
            let mut c: usize = 0;
            while c < row.len()
                invariant
                    c <= row.len(),
                    r < self.rows.len(),
                    row == self.rows@[r as int],
                    all == rows_view(self.rows@),
                    forall|i: int|
                        0 <= i < c ==> #[trigger] spec_cell_len(all[r as int][i]) + CELL_SPACING
                            <= usize::MAX,
                decreases row.len() - c,
            {
                assert(all[r as int][c as int] == row@[c as int]@);
                match row[c].checked_len() {
                    Some(n) => {
                        if n > usize::MAX - CELL_SPACING {
                            return false;
                        }
                    },
                    None => {
                        return false;
                    },
                }
                c += 1;
            }
            r += 1;
        }
        assert(all.take(r as int) =~= all);
        true
    }
}

/// Lays the table out and queues it: every column as wide as its widest cell
/// and the spacing, every row clipped to the table's width, every line ended.
pub fn queue_table(table: Table) -> (out: Vec<Draw>)
    requires
        spec_fits(table@.rows),
    ensures
        views(out@) == spec_table(table@),
{
    let widths = col_widths(&table.rows);
    let ghost ws = spec_nats(widths@);
    let ghost all = rows_view(table.rows@);
    let ghost whole = spec_table(table@);
    let mut out: Vec<Draw> = Vec::new();
    let mut r: usize = 0;
    assert(views(out@) + whole =~= whole);
    while r < table.rows.len()
        invariant
            r <= table.rows.len(),
            ws == spec_nats(widths@),
            ws == spec_col_widths(all),
            all == rows_view(table.rows@),
            whole == spec_table(table@),
            forall|c: int|
                0 <= c < widths@.len() ==> #[trigger] widths@[c] + CELL_SPACING <= usize::MAX,
            views(out@) + spec_rows(ws, all, table.width as nat, r as int) == whole,
        decreases table.rows.len() - r,
    {
        let ghost before = views(out@);
        let ghost rest = spec_rows(ws, all, table.width as nat, r as int);
        queue_row(&mut out, &widths, &table.rows[r], table.width);
        let ghost mid = views(out@);
        let end = Draw::Print(String::from_str("\r\n"));
        proof {
            reveal_strlit("\r\n");
            assert(end@ == spec_line_end()) by {
                assert("\r\n"@ =~= seq!['\r', '\n']);
            }
            lemma_views_push(out@, end);
            assert(all[r as int] == row_view(table.rows@[r as int]@));
            assert(mid.push(end@) + spec_rows(ws, all, table.width as nat, r + 1) =~= before
                + rest);
        }
        out.push(end);
        r += 1;
    }
    assert(views(out@) + spec_rows(ws, all, table.width as nat, r as int) =~= views(out@));
    out
}

/// Lays the table out and queues it, where every cell is short enough to be
/// laid out; `None` where one is not.
pub fn try_queue_table(table: Table) -> (out: Option<Vec<Draw>>)
    ensures
        out.is_some() == spec_fits(table@.rows),
        out matches Some(draws) ==> views(draws@) == spec_table(table@),
{
    if table.fits() {
        Some(queue_table(table))
    } else {
        None
    }
}

/// The room that the columns from `from` up to `to` ask for, spacing included.
pub open spec fn spec_room(widths: Seq<nat>, from: int, to: int) -> nat
    decreases to - from,
{
    if from < 0 || from >= to || from >= widths.len() {
        0
    } else {
        (widths[from] + CELL_SPACING + spec_room(widths, from + 1, to)) as nat
    }
}

/// One write alone is as wide as itself.
pub proof fn lemma_total_width_one(draw: DrawView)
    ensures
        total_width(seq![draw]) == draw_width(draw),
{
    assert(seq![draw].drop_last() =~= Seq::<DrawView>::empty());
    assert(total_width(seq![draw].drop_last()) == 0);
}

/// A cell always fills the part of the column it is given, no more and no
/// less: by its spans and blanks, or by spans of which the last is cut.
pub proof fn lemma_cell_fills_column(spans: Seq<SpanView>, from: int, budget: nat)
    ensures
        total_width(spec_cell(spans, from, budget)) == budget,
    decreases spans.len() - from,
{
    if from < 0 || from >= spans.len() {
        if budget > 0 {
            lemma_total_width_one(DrawView::Print(spec_spaces(budget)));
        }
    } else if spans[from].text.len() > budget {
        if budget > 0 {
            lemma_total_width_one(DrawView::Styled(spec_cut(spans[from], budget)));
        }
    } else {
        let rest = (budget - spans[from].text.len()) as nat;
        lemma_cell_fills_column(spans, from + 1, rest);
        lemma_total_width_one(DrawView::Styled(spans[from]));
        lemma_total_width_concat(
            seq![DrawView::Styled(spans[from])],
            spec_cell(spans, from + 1, rest),
        );
    }
}

/// A cell of one span that is longer than its column is drawn as one span of
/// exactly the column's width: the first characters of the span, one fewer
/// than the width, and the ellipsis, in the span's style.
pub proof fn lemma_long_cell_is_cut(span: SpanView, budget: nat)
    requires
        span.text.len() > budget,
        budget >= 1,
    ensures
        spec_cell(seq![span], 0, budget) == seq![DrawView::Styled(spec_cut(span, budget))],
        spec_cut(span, budget).text.len() == budget,
        spec_cut(span, budget).text.last() == ELLIPSIS,
        spec_cut(span, budget).text.drop_last() == span.text.take(budget - 1),
        spec_cut(span, budget).style == span.style,
{
    assert(spec_cut(span, budget).text.drop_last() =~= span.text.take(budget - 1));
}

/// A row never draws past the table's width, nor past the room of its own
/// columns: a row shorter than others draws nothing for the columns it lacks.
pub proof fn lemma_row_bounded(
    widths: Seq<nat>,
    row: Seq<Seq<SpanView>>,
    width: nat,
    col: int,
    pos: nat,
)
    requires
        0 <= col,
        pos <= width,
    ensures
        total_width(spec_row(widths, row, width, col, pos)) <= width - pos,
        total_width(spec_row(widths, row, width, col, pos)) <= spec_room(
            widths,
            col,
            row.len() as int,
        ),
    decreases row.len() - col,
{
    if col >= row.len() || col >= widths.len() {
    } else if spec_stops(widths, col, width, pos) {
    } else {
        let clipped = spec_clipped(widths, col, width, pos);
        lemma_cell_fills_column(row[col], 0, clipped);
        lemma_row_bounded(widths, row, width, col + 1, pos + clipped);
        lemma_total_width_concat(
            spec_cell(row[col], 0, clipped),
            spec_row(widths, row, width, col + 1, pos + clipped),
        );
    }
}

/// Where the table is wide enough for a row's own columns, the row fills
/// exactly their room.
pub proof fn lemma_row_unclipped(
    widths: Seq<nat>,
    row: Seq<Seq<SpanView>>,
    width: nat,
    col: int,
    pos: nat,
)
    requires
        0 <= col,
        row.len() <= widths.len(),
        pos + spec_room(widths, col, row.len() as int) <= width,
    ensures
        total_width(spec_row(widths, row, width, col, pos)) == spec_room(
            widths,
            col,
            row.len() as int,
        ),
    decreases row.len() - col,
{
    if col >= row.len() {
    } else {
        let clipped = spec_clipped(widths, col, width, pos);
        assert(clipped == widths[col] + CELL_SPACING);
        lemma_cell_fills_column(row[col], 0, clipped);
        lemma_row_unclipped(widths, row, width, col + 1, pos + clipped);
        lemma_total_width_concat(
            spec_cell(row[col], 0, clipped),
            spec_row(widths, row, width, col + 1, pos + clipped),
        );
    }
}

/// What a row draws depends on the widths of its own columns only.
pub proof fn lemma_row_ignores_missing_columns(
    widths: Seq<nat>,
    row: Seq<Seq<SpanView>>,
    width: nat,
    col: int,
    pos: nat,
)
    requires
        row.len() <= widths.len(),
    ensures
        spec_row(widths, row, width, col, pos) == spec_row(
            widths.take(row.len() as int),
            row,
            width,
            col,
            pos,
        ),
    decreases row.len() - col,
{
    let own = widths.take(row.len() as int);
    if col < 0 || col >= row.len() || pos > width {
    } else if spec_stops(widths, col, width, pos) {
        assert(spec_stops(own, col, width, pos));
    } else {
        assert(!spec_stops(own, col, width, pos));
        lemma_row_ignores_missing_columns(
            widths,
            row,
            width,
            col + 1,
            pos + spec_clipped(widths, col, width, pos),
        );
    }
}

/// Whether the spans from `from` on that fit fill the budget to the last
/// character while more spans follow: the next span then has no room at
/// all, not even for the ellipsis.
pub open spec fn spec_ends_at_boundary(spans: Seq<SpanView>, from: int, budget: nat) -> bool
    decreases spans.len() - from,
{
    if from < 0 || from >= spans.len() {
        false
    } else if spans[from].text.len() > budget {
        budget == 0
    } else {
        spec_ends_at_boundary(spans, from + 1, (budget - spans[from].text.len()) as nat)
    }
}

/// What a cell shows, read as plain characters. A cell that fits shows all
/// its characters and then blanks up to the column's width. A cell that is
/// too long shows its first characters, one fewer than the width, and the
/// ellipsis; unless a span ends exactly at the column's end, where it shows
/// its first characters up to the width and no ellipsis.
pub proof fn lemma_cell_text(spans: Seq<SpanView>, from: int, budget: nat)
    requires
        0 <= from,
    ensures
        ({
            let whole = spec_text_from(spans, from);
            let drawn = total_text(spec_cell(spans, from, budget));
            if whole.len() <= budget {
                drawn == whole + spec_spaces((budget - whole.len()) as nat)
            } else if spec_ends_at_boundary(spans, from, budget) {
                drawn == whole.take(budget as int)
            } else {
                budget >= 1 && drawn == whole.take(budget - 1).push(ELLIPSIS)
            }
        }),
    decreases spans.len() - from,
{
    let whole = spec_text_from(spans, from);
    let drawn = total_text(spec_cell(spans, from, budget));
    if from >= spans.len() {
        if budget > 0 {
            lemma_total_text_one(DrawView::Print(spec_spaces(budget)));
        }
        assert(drawn =~= whole + spec_spaces(budget));
    } else if spans[from].text.len() > budget {
        if budget > 0 {
            lemma_total_text_one(DrawView::Styled(spec_cut(spans[from], budget)));
            assert(whole.take(budget - 1) =~= spans[from].text.take(budget - 1));
        } else {
            assert(drawn =~= whole.take(0));
        }
    } else {
        let text = spans[from].text;
        let left = (budget - text.len()) as nat;
        let rest = spec_text_from(spans, from + 1);
        let rest_drawn = total_text(spec_cell(spans, from + 1, left));
        lemma_cell_text(spans, from + 1, left);
        lemma_total_text_one(DrawView::Styled(spans[from]));
        lemma_total_text_concat(
            seq![DrawView::Styled(spans[from])],
            spec_cell(spans, from + 1, left),
        );
        assert(drawn == text + rest_drawn);
        if rest.len() <= left {
            assert(drawn =~= whole + spec_spaces((budget - whole.len()) as nat));
        } else if spec_ends_at_boundary(spans, from + 1, left) {
            assert(whole.take(budget as int) =~= text + rest.take(left as int));
        } else {
            assert(whole.take(budget - 1) =~= text + rest.take(left - 1));
            assert(drawn =~= whole.take(budget - 1).push(ELLIPSIS));
        }
    }
}

/// A cell that is too long for its column, and in which no span ends
/// exactly at the column's end, shows exactly as many characters as the
/// column is wide: its own first characters, one fewer than the width, and
/// then the ellipsis.
pub proof fn lemma_long_cell_text(spans: Seq<SpanView>, budget: nat)
    requires
        spec_cell_len(spans) > budget,
        !spec_ends_at_boundary(spans, 0, budget),
    ensures
        budget >= 1,
        total_text(spec_cell(spans, 0, budget)) == spec_text_from(spans, 0).take(
            budget - 1,
        ).push(ELLIPSIS),
        total_text(spec_cell(spans, 0, budget)).len() == budget,
{
    lemma_text_len(spans, 0);
    assert(spans.skip(0) =~= spans);
    lemma_cell_text(spans, 0, budget);
}

/// The characters of a cell from a span on are as many as the lengths of
/// those spans together.
pub proof fn lemma_text_len(spans: Seq<SpanView>, from: int)
    requires
        0 <= from <= spans.len(),
    ensures
        spec_text_from(spans, from).len() == spec_cell_len(spans.skip(from)),
    decreases spans.len() - from,
{
    if from == spans.len() {
        assert(spans.skip(from) =~= Seq::<SpanView>::empty());
    } else {
        lemma_text_len(spans, from + 1);
        lemma_cell_len_front(spans.skip(from));
        assert(spans.skip(from).skip(1) =~= spans.skip(from + 1));
    }
}

/// The length of a cell is the length of its first span and that of the
/// others.
pub proof fn lemma_cell_len_front(spans: Seq<SpanView>)
    requires
        spans.len() > 0,
    ensures
        spec_cell_len(spans) == spans[0].text.len() + spec_cell_len(spans.skip(1)),
    decreases spans.len(),
{
    if spans.len() == 1 {
        assert(spans.drop_last() =~= Seq::<SpanView>::empty());
        assert(spans.skip(1) =~= Seq::<SpanView>::empty());
    } else {
        lemma_cell_len_front(spans.drop_last());
        assert(spans.drop_last().skip(1) =~= spans.skip(1).drop_last());
        assert(spans.skip(1).last() == spans.last());
    }
}

} // verus!
