use crate::config::{repo_views, spec_paths_where, RepoConfig, RepoView};
use crate::path::{labels, spec_home, spec_labels};
use crate::terminal::{
    lemma_views_push, push_all, push_print, push_styled, views, Color, Draw, DrawView, SpanView,
    Style,
};
use crate::text::{
    clear_line, decimal, lemma_strings_push, spec_clear_line, spec_decimal, spec_strings,
};
use vstd::prelude::*;

verus! {

/// What the selection understands of the keyboard.
#[derive(Clone, Copy, Debug, PartialEq, Eq)]
pub enum Key {
    Up,
    Down,
    Left,
    Right,
    /// Flip the entry under the cursor.
    Toggle,
    /// Make every entry visible.
    All,
    /// Make every entry invisible.
    Nothing,
    /// Leave the selection.
    Confirm,
    /// Any other key: nothing changes.
    Other,
}

/// The key that a typed character stands for.
pub open spec fn spec_key_of_char(c: char) -> Key {
    if c == '+' {
        Key::All
    } else if c == '-' {
        Key::Nothing
    } else if c == 'k' {
        Key::Up
    } else if c == 'j' {
        Key::Down
    } else if c == 'h' {
        Key::Left
    } else if c == 'l' {
        Key::Right
    } else if c == ' ' {
        Key::Toggle
    } else {
        Key::Other
    }
}

/// Reads a typed character as a key: `+` and `-` for all and none, the
/// letters `k`, `j`, `h`, `l` for up, down, left and right, the blank for the
/// toggle.
pub fn key_of_char(c: char) -> (key: Key)
    ensures
        key == spec_key_of_char(c),
{
    if c == '+' {
        Key::All
    } else if c == '-' {
        Key::Nothing
    } else if c == 'k' {
        Key::Up
    } else if c == 'j' {
        Key::Down
    } else if c == 'h' {
        Key::Left
    } else if c == 'l' {
        Key::Right
    } else if c == ' ' {
        Key::Toggle
    } else {
        Key::Other
    }
}

/// Lines of the terminal that the selection keeps for itself.
pub const RESERVED_LINES: u16 = 3;

/// A terminal of this height or less has no room for the selection.
pub const MIN_HEIGHT: u16 = 5;

/// The entries on one page: all of them, or as many as the terminal has
/// lines beyond the reserved ones.
pub open spec fn spec_page_size(count: nat, terminal_height: nat) -> nat
    recommends
        terminal_height > MIN_HEIGHT,
{
    if count <= terminal_height - RESERVED_LINES {
        count
    } else {
        (terminal_height - RESERVED_LINES) as nat
    }
}

/// The number of pages: the entries divided by the page size, rounded up.
pub open spec fn spec_page_count(count: nat, page_size: nat) -> nat
    recommends
        page_size > 0,
{
    ((count + page_size - 1) / (page_size as int)) as nat
}

/// The page that entry `index` is on.
pub open spec fn spec_page_of(index: nat, page_size: nat) -> nat
    recommends
        page_size > 0,
{
    index / page_size
}

/// The index of the first entry of a page.
pub open spec fn spec_page_start(page: nat, page_size: nat) -> nat {
    page * page_size
}

/// The index after the last entry of a page.
pub open spec fn spec_page_end(page: nat, page_size: nat, count: nat) -> nat {
    if page * page_size + page_size <= count {
        page * page_size + page_size
    } else {
        count
    }
}

/// Where the cursor stands after a key.
pub open spec fn spec_cursor_after(cursor: nat, count: nat, page_size: nat, key: Key) -> nat
    recommends
        cursor < count,
{
    match key {
        Key::Up => if cursor > 0 {
            (cursor - 1) as nat
        } else {
            0
        },
        Key::Down => if cursor + 1 < count {
            cursor + 1
        } else {
            cursor
        },
        Key::Left => if cursor >= page_size {
            (cursor - page_size) as nat
        } else {
            0
        },
        Key::Right => if cursor + page_size < count {
            cursor + page_size
        } else {
            (count - 1) as nat
        },
        _ => cursor,
    }
}

/// The flag of entry `index` after a key, the cursor standing at `cursor`.
pub open spec fn spec_flag_after(visible: bool, index: int, cursor: nat, key: Key) -> bool {
    match key {
        Key::Toggle => if index == cursor {
            !visible
        } else {
            visible
        },
        Key::All => true,
        Key::Nothing => false,
        _ => visible,
    }
}

/// The entries after a key: the same paths in the same order, each flag as
/// the key leaves it.
pub open spec fn spec_entries_after(entries: Seq<RepoView>, cursor: nat, key: Key) -> Seq<
    RepoView,
> {
    Seq::new(
        entries.len(),
        |i: int|
            RepoView {
                path: entries[i].path,
                visible: spec_flag_after(entries[i].visible, i, cursor, key),
            },
    )
}

/// The paginated selection: the entries, the cursor and the page size.
#[derive(Clone, Debug)]
pub struct Selector {
    pub entries: Vec<RepoConfig>,
    pub cursor: usize,
    pub page_size: usize,
}

/// What a selection is: what its entries are, where the cursor stands, and
/// how many entries a page holds.
pub struct SelectorView {
    pub entries: Seq<RepoView>,
    pub cursor: nat,
    pub page_size: nat,
}

impl View for Selector {
    type V = SelectorView;

    open spec fn view(&self) -> SelectorView {
        SelectorView {
            entries: repo_views(self.entries@),
            cursor: self.cursor as nat,
            page_size: self.page_size as nat,
        }
    }
}

/// The selection after a key.
pub open spec fn spec_step(state: SelectorView, key: Key) -> SelectorView {
    SelectorView {
        entries: spec_entries_after(state.entries, state.cursor, key),
        cursor: spec_cursor_after(state.cursor, state.entries.len(), state.page_size, key),
        page_size: state.page_size,
    }
}

/// The number of entries on a page, or `None` where there is nothing to
/// select or the terminal is too low.
pub fn page_size(count: usize, terminal_height: u16) -> (size: Option<usize>)
    ensures
        size == if count == 0 || terminal_height <= MIN_HEIGHT {
            None
        } else {
            Some(spec_page_size(count as nat, terminal_height as nat) as usize)
        },
{
    if count == 0 || terminal_height <= MIN_HEIGHT {
        return None;
    }
    let room: usize = (terminal_height - RESERVED_LINES) as usize;
    if count <= room {
        Some(count)
    } else {
        Some(room)
    }
}

/// The number of pages that `count` entries take.
pub fn page_count(count: usize, page_size: usize) -> (pages: usize)
    requires
        count > 0,
        page_size > 0,
    ensures
        pages == spec_page_count(count as nat, page_size as nat),
        pages >= 1,
        pages <= count,
{
    let pages: usize = (count - 1) / page_size + 1;
    proof {
        lemma_page_count(count as nat, page_size as nat);
    }
    pages
}

/// Rounding the quotient up is the same as dividing one less and adding one.
pub proof fn lemma_page_count(count: nat, page_size: nat)
    requires
        count > 0,
        page_size > 0,
    ensures
        spec_page_count(count, page_size) == (count - 1) / (page_size as int) + 1,
        1 <= spec_page_count(count, page_size) <= count,
{
    let p = page_size as int;
    let q = (count - 1) / p;
    assert(count + page_size - 1 == (count - 1) + 1 * p);
    assert(((count - 1) + 1 * p) / p == (count - 1) / p + 1) by (nonlinear_arith)
        requires
            p > 0,
    ;
    assert(0 <= q <= count - 1) by (nonlinear_arith)
        requires
            p > 0,
            count >= 1,
            q == (count - 1) / p,
    ;
}

/// Every entry is on the page that its index divided by the page size
/// gives: that page exists, and the entry lies within its bounds.
pub proof fn lemma_entry_on_its_page(index: nat, count: nat, page_size: nat)
    requires
        page_size > 0,
        index < count,
    ensures
        spec_page_of(index, page_size) < spec_page_count(count, page_size),
        spec_page_start(spec_page_of(index, page_size), page_size) <= index,
        index < spec_page_end(spec_page_of(index, page_size), page_size, count),
        spec_page_end(spec_page_of(index, page_size), page_size, count) <= count,
{
    let p = page_size as int;
    let i = index as int;
    let page = i / p;
    lemma_page_count(count, page_size);
    assert(page * p <= i < page * p + p) by (nonlinear_arith)
        requires
            p > 0,
            i >= 0,
            page == i / p,
    ;
    assert(i / p <= (count - 1) / p) by (nonlinear_arith)
        requires
            p > 0,
            0 <= i <= count - 1,
    ;
}

/// Toggling twice at one cursor leaves every flag as it was.
pub proof fn lemma_toggle_twice(visible: bool, index: int, cursor: nat)
    ensures
        spec_flag_after(
            spec_flag_after(visible, index, cursor, Key::Toggle),
            index,
            cursor,
            Key::Toggle,
        ) == visible,
{
}

/// Two toggles in a row give back the selection that was there before.
pub proof fn lemma_step_toggle_twice(state: SelectorView)
    requires
        state.cursor < state.entries.len(),
    ensures
        spec_step(spec_step(state, Key::Toggle), Key::Toggle) == state,
{
    let once = spec_step(state, Key::Toggle);
    let twice = spec_step(once, Key::Toggle);
    assert(twice.entries =~= state.entries);
}

/// After any key the cursor is on an entry.
pub proof fn lemma_cursor_stays(cursor: nat, count: nat, page_size: nat, key: Key)
    requires
        cursor < count,
    ensures
        spec_cursor_after(cursor, count, page_size, key) < count,
{
}

/// One hint of the information bar: the key, a blank, what it does.
pub open spec fn spec_key_hint(key: Seq<char>, description: Seq<char>) -> Seq<DrawView> {
    seq![
        DrawView::Styled(SpanView { text: key, style: Style::spec_fg(Color::DarkYellow) }),
        DrawView::Print(seq![' ']),
        DrawView::Styled(SpanView { text: description, style: Style::spec_fg(Color::DarkGrey) }),
    ]
}

/// What stands between two hints.
pub open spec fn spec_hint_separator() -> Seq<DrawView> {
    seq![DrawView::Styled(SpanView { text: seq![',', ' '], style: Style::spec_fg(Color::DarkGrey) })]
}

/// The information bar: the keys and what they do, on one line.
pub open spec fn spec_info_bar() -> Seq<DrawView> {
    spec_key_hint("up/down"@, "move"@) + spec_hint_separator() + spec_key_hint(
        "enter"@,
        "confirm"@,
    ) + spec_hint_separator() + spec_key_hint("space"@, "toggle"@) + spec_hint_separator()
        + spec_key_hint("+"@, "all"@) + spec_hint_separator() + spec_key_hint("-"@, "none"@)
        + seq![DrawView::Print(seq!['\r', '\n'])]
}

/// The page marks: one per page, the cursor's page filled.
pub open spec fn spec_page_marks(pages: nat, current: nat) -> Seq<DrawView> {
    Seq::new(
        pages,
        |i: int|
            DrawView::Print(
                if i == current {
                    seq!['\u{29BF}']
                } else {
                    seq!['\u{25CB}']
                },
            ),
    )
}

/// The page line: the line cleared; where there is more than one page, the
/// page marks and the page's number; then the count of visible entries.
pub open spec fn spec_page_info(entries: Seq<RepoView>, cursor: nat, page_size: nat) -> Seq<
    DrawView,
> {
    let pages = spec_page_count(entries.len(), page_size);
    let page = spec_page_of(cursor, page_size);
    let visible = spec_paths_where(entries, true).len();
    let head = seq![DrawView::Print(spec_clear_line())];
    let paging = if pages > 1 {
        spec_page_marks(pages, page).push(
            DrawView::Print(
                " [Page "@ + spec_decimal(page + 1) + "/"@ + spec_decimal(pages) + "] "@,
            ),
        )
    } else {
        Seq::empty()
    };
    (head + paging).push(
        DrawView::Print(
            "[Selected "@ + spec_decimal(visible) + "/"@ + spec_decimal(entries.len())
                + "]\r\n"@,
        ),
    )
}

/// The box before an entry's name: ticked where the entry is visible.
pub open spec fn spec_checkbox(visible: bool) -> Seq<char> {
    if visible {
        seq!['[', '\u{2713}', ']', ' ']
    } else {
        seq!['[', ' ', ']', ' ']
    }
}

/// The style of an entry's row: white where visible, grey where not, on dark
/// blue under the cursor.
pub open spec fn spec_row_style(visible: bool, selected: bool) -> Style {
    Style {
        foreground: Some(
            if visible {
                Color::White
            } else {
                Color::Grey
            },
        ),
        background: if selected {
            Some(Color::DarkBlue)
        } else {
            None
        },
        bold: false,
    }
}

/// The row of one entry: the line cleared, the box and the name, the line
/// ended.
pub open spec fn spec_entry_row(entry: RepoView, label: Seq<char>, selected: bool) -> Seq<
    DrawView,
> {
    seq![
        DrawView::Print(spec_clear_line()),
        DrawView::Styled(
            SpanView {
                text: spec_checkbox(entry.visible) + label,
                style: spec_row_style(entry.visible, selected),
            },
        ),
        DrawView::Print(seq!['\n', '\r']),
    ]
}

/// The rows of the entries from `from` up to `to`.
pub open spec fn spec_entry_rows(
    entries: Seq<RepoView>,
    labels: Seq<Seq<char>>,
    cursor: nat,
    from: int,
    to: int,
) -> Seq<DrawView>
    decreases to - from,
{
    if from >= to {
        Seq::empty()
    } else {
        spec_entry_row(entries[from], labels[from], from == cursor) + spec_entry_rows(
            entries,
            labels,
            cursor,
            from + 1,
            to,
        )
    }
}

/// Cleared lines that fill a page which has fewer entries than the page size.
pub open spec fn spec_blank_rows(n: nat) -> Seq<DrawView> {
    Seq::new(n, |i: int| DrawView::Print(spec_clear_line() + seq!['\n', '\r']))
}

/// The list: the rows of the cursor's page, then cleared lines up to the
/// page size.
pub open spec fn spec_repo_list(
    entries: Seq<RepoView>,
    labels: Seq<Seq<char>>,
    cursor: nat,
    page_size: nat,
) -> Seq<DrawView> {
    let page = spec_page_of(cursor, page_size);
    let start = spec_page_start(page, page_size);
    let end = spec_page_end(page, page_size, entries.len());
    spec_entry_rows(entries, labels, cursor, start as int, end as int) + spec_blank_rows(
        (page_size - (end - start)) as nat,
    )
}

/// A redraw in place: the cursor moved up over the page line and the page,
/// then both drawn again.
pub open spec fn spec_redraw(state: SelectorView, labels: Seq<Seq<char>>) -> Seq<DrawView> {
    seq![DrawView::MoveUp((state.page_size + 1) as u16)] + spec_page_info(
        state.entries,
        state.cursor,
        state.page_size,
    ) + spec_repo_list(state.entries, labels, state.cursor, state.page_size)
}

/// The first drawing: the information bar, the page line, the first page.
pub open spec fn spec_first_draw(state: SelectorView, labels: Seq<Seq<char>>) -> Seq<DrawView> {
    spec_info_bar() + spec_page_info(state.entries, state.cursor, state.page_size)
        + spec_repo_list(state.entries, labels, state.cursor, state.page_size)
}

fn queue_key_hint(out: &mut Vec<Draw>, key: &str, description: &str)
    ensures
        views(final(out)@) == views(old(out)@) + spec_key_hint(key@, description@),
{
    let ghost start = views(out@);
    push_styled(out, key, Style::fg(Color::DarkYellow));
    push_print(out, " ");
    push_styled(out, description, Style::fg(Color::DarkGrey));
    proof {
        reveal_strlit(" ");
        assert(" "@ =~= seq![' ']);
        assert(views(out@) =~= start + spec_key_hint(key@, description@));
    }
}

fn queue_hint_separator(out: &mut Vec<Draw>)
    ensures
        views(final(out)@) == views(old(out)@) + spec_hint_separator(),
{
    let ghost start = views(out@);
    push_styled(out, ", ", Style::fg(Color::DarkGrey));
    proof {
        reveal_strlit(", ");
        assert(", "@ =~= seq![',', ' ']);
        assert(views(out@) =~= start + spec_hint_separator());
    }
}

/// Queues the information bar.
pub fn queue_info_bar() -> (out: Vec<Draw>)
    ensures
        views(out@) == spec_info_bar(),
{
    let mut out: Vec<Draw> = Vec::new();
    assert(views(out@) =~= Seq::<DrawView>::empty());
    queue_key_hint(&mut out, "up/down", "move");
    queue_hint_separator(&mut out);
    queue_key_hint(&mut out, "enter", "confirm");
    queue_hint_separator(&mut out);
    queue_key_hint(&mut out, "space", "toggle");
    queue_hint_separator(&mut out);
    queue_key_hint(&mut out, "+", "all");
    queue_hint_separator(&mut out);
    queue_key_hint(&mut out, "-", "none");
    push_print(&mut out, "\r\n");
    proof {
        reveal_strlit("\r\n");
        assert("\r\n"@ =~= seq!['\r', '\n']);
        assert(views(out@) =~= spec_info_bar());
    }
    out
}

impl Selector {
    /// The cursor is on an entry, a page holds at least one entry and no more
    /// than there are, and the page with its page line can be moved over.
    pub open spec fn wf(&self) -> bool {
        &&& self.cursor < self.entries@.len()
        &&& 1 <= self.page_size <= self.entries@.len()
        &&& self.page_size < u16::MAX
    }

    /// Whether the selection is well formed.
    pub fn check(&self) -> (ok: bool)
        ensures
            ok == self.wf(),
    {
        self.cursor < self.entries.len() && 1 <= self.page_size && self.page_size
            <= self.entries.len() && self.page_size < 65535
    }

    /// A selection over `entries` with the cursor on the first, or `None`
    /// where there are no entries or the terminal is too low to show any.
    pub fn new(entries: Vec<RepoConfig>, terminal_height: u16) -> (selector: Option<Selector>)
        ensures
            selector.is_none() == (entries@.len() == 0 || terminal_height <= MIN_HEIGHT),
            selector matches Some(s) ==> s.wf() && s@ == (SelectorView {
                entries: repo_views(entries@),
                cursor: 0,
                page_size: spec_page_size(entries@.len(), terminal_height as nat),
            }),
    {
        match page_size(entries.len(), terminal_height) {
            None => None,
            Some(size) => Some(Selector { entries, cursor: 0, page_size: size }),
        }
    }

    fn set_flag(&mut self, index: usize, visible: bool)
        requires
            index < old(self).entries@.len(),
        ensures
            final(self).cursor == old(self).cursor,
            final(self).page_size == old(self).page_size,
            final(self).entries@.len() == old(self).entries@.len(),
            forall|i: int|
                0 <= i < old(self).entries@.len() && i != index ==> final(self)@.entries[i] == old(
                    self,
                )@.entries[i],
            final(self)@.entries[index as int] == (RepoView {
                path: old(self)@.entries[index as int].path,
                visible,
            }),
    {
        let path = self.entries[index].path.clone();
        self.entries.set(index, RepoConfig { path, visible });
    }

    fn set_all(&mut self, visible: bool)
        ensures
            final(self).cursor == old(self).cursor,
            final(self).page_size == old(self).page_size,
            final(self).entries@.len() == old(self).entries@.len(),
            forall|i: int|
                0 <= i < old(self).entries@.len() ==> final(self)@.entries[i] == (RepoView {
                    path: old(self)@.entries[i].path,
                    visible,
                }),
    {
        let mut i: usize = 0;
        while i < self.entries.len()
            invariant
                i <= self.entries@.len(),
                self.cursor == old(self).cursor,
                self.page_size == old(self).page_size,
                self.entries@.len() == old(self).entries@.len(),
                forall|j: int|
                    0 <= j < i ==> self@.entries[j] == (RepoView {
                        path: old(self)@.entries[j].path,
                        visible,
                    }),
                forall|j: int|
                    i <= j < self.entries@.len() ==> self@.entries[j] == old(self)@.entries[j],
            decreases self.entries@.len() - i,
        {
            self.set_flag(i, visible);
            i += 1;
        }
    }

    /// Takes one key. Arrows move the cursor by one entry or by one page and
    /// stop at the ends; the toggle flips the entry under the cursor; all and
    /// none set every flag. Says whether the selection is over, which it is
    /// on `Confirm` alone.
    pub fn step(&mut self, key: Key) -> (exit: bool)
        requires
            old(self).wf(),
        ensures
            final(self).wf(),
            final(self)@ == spec_step(old(self)@, key),
            exit == (key == Key::Confirm),
    {
        let count = self.entries.len();
        let mut exit = false;
        match key {
            Key::Up => {
                if self.cursor > 0 {
                    self.cursor -= 1;
                }
            },
            Key::Down => {
                if self.cursor < count - 1 {
                    self.cursor += 1;
                }
            },
            Key::Left => {
                if self.cursor >= self.page_size {
                    self.cursor -= self.page_size;
                } else {
                    self.cursor = 0;
                }
            },
            Key::Right => {
                if self.page_size < count - self.cursor {
                    self.cursor += self.page_size;
                } else {
                    self.cursor = count - 1;
                }
            },
            Key::Toggle => {
                let flag = !self.entries[self.cursor].visible;
                self.set_flag(self.cursor, flag);
            },
            Key::All => {
                self.set_all(true);
            },
            Key::Nothing => {
                self.set_all(false);
            },
            Key::Confirm => {
                exit = true;
            },
            Key::Other => {},
        }
        assert(self@.entries =~= spec_step(old(self)@, key).entries);
        exit
    }

    /// Takes one key and says what to draw: after every key but `Confirm`
    /// the page line and the page of the cursor are drawn again in place;
    /// `Confirm` ends the selection and draws nothing.
    pub fn on_key(&mut self, key: Key, labels: &Vec<String>) -> (drawn: Option<Vec<Draw>>)
        requires
            old(self).wf(),
            labels@.len() == old(self).entries@.len(),
        ensures
            final(self).wf(),
            final(self)@ == spec_step(old(self)@, key),
            drawn.is_none() == (key == Key::Confirm),
            drawn matches Some(out) ==> views(out@) == spec_redraw(
                final(self)@,
                spec_strings(labels@),
            ),
    {
        if self.step(key) {
            None
        } else {
            assert(self@.entries.len() == old(self)@.entries.len());
            Some(self.queue_redraw(labels))
        }
    }

    /// The number of entries that are visible.
    pub fn visible_count(&self) -> (n: usize)
        ensures
            n == spec_paths_where(self@.entries, true).len(),
    {
        let ghost all = self@.entries;
        let mut n: usize = 0;
        let mut i: usize = 0;
        while i < self.entries.len()
            invariant
                i <= self.entries@.len(),
                all == repo_views(self.entries@),
                n == spec_paths_where(all.take(i as int), true).len(),
                n <= i,
            decreases self.entries@.len() - i,
        {
            proof {
                assert(all.take(i + 1).drop_last() =~= all.take(i as int));
                assert(all.take(i + 1).last() == self.entries@[i as int]@);
            }
            if self.entries[i].visible {
                n += 1;
            }
            i += 1;
        }
        assert(all.take(i as int) =~= all);
        n
    }

    /// Queues the page line.
    pub fn queue_page_info(&self) -> (out: Vec<Draw>)
        requires
            self.wf(),
        ensures
            views(out@) == spec_page_info(self@.entries, self@.cursor, self@.page_size),
    {
        let count = self.entries.len();
        let pages = page_count(count, self.page_size);
        let page: usize = self.cursor / self.page_size;
        let visible = self.visible_count();
        let mut out: Vec<Draw> = Vec::new();
        assert(views(out@) =~= Seq::<DrawView>::empty());
        push_print(&mut out, clear_line().as_str());
        let ghost head = views(out@);
        assert(head =~= seq![DrawView::Print(spec_clear_line())]);
        proof {
            lemma_entry_on_its_page(self.cursor as nat, count as nat, self.page_size as nat);
        }
        if pages > 1 {
            let mut i: usize = 0;
            assert(views(out@) =~= head + spec_page_marks(pages as nat, page as nat).take(0));
            while i < pages
                invariant
                    i <= pages,
                    views(out@) == head + spec_page_marks(pages as nat, page as nat).take(
                        i as int,
                    ),
                decreases pages - i,
            {
                let ghost before = views(out@);
                proof {
                    reveal_strlit("\u{29BF}");
                    reveal_strlit("\u{25CB}");
                    assert("\u{29BF}"@ =~= seq!['\u{29BF}']);
                    assert("\u{25CB}"@ =~= seq!['\u{25CB}']);
                }
                if i == page {
                    push_print(&mut out, "\u{29BF}");
                } else {
                    push_print(&mut out, "\u{25CB}");
                }
                i += 1;
                assert(views(out@) =~= head + spec_page_marks(pages as nat, page as nat).take(
                    i as int,
                ));
            }
            assert(spec_page_marks(pages as nat, page as nat).take(pages as int)
                =~= spec_page_marks(pages as nat, page as nat));
            let mut text = String::from_str(" [Page ");
            text.append(decimal(page + 1).as_str());
            text.append("/");
            text.append(decimal(pages).as_str());
            text.append("] ");
            push_print(&mut out, text.as_str());
        }
        let mut text = String::from_str("[Selected ");
        text.append(decimal(visible).as_str());
        text.append("/");
        text.append(decimal(count).as_str());
        text.append("]\r\n");
        push_print(&mut out, text.as_str());
        assert(views(out@) =~= spec_page_info(self@.entries, self@.cursor, self@.page_size));
        out
    }

    /// Queues the rows of the cursor's page, each line cleared before it is
    /// written, and cleared lines up to the page size. `labels` holds the
    /// name to show for each entry.
    pub fn queue_repo_list(&self, labels: &Vec<String>) -> (out: Vec<Draw>)
        requires
            self.wf(),
            labels@.len() == self.entries@.len(),
        ensures
            views(out@) == spec_repo_list(
                self@.entries,
                spec_strings(labels@),
                self@.cursor,
                self@.page_size,
            ),
    {
        let count = self.entries.len();
        let page: usize = self.cursor / self.page_size;
        proof {
            lemma_entry_on_its_page(self.cursor as nat, count as nat, self.page_size as nat);
            assert(page * self.page_size <= self.cursor) by (nonlinear_arith)
                requires
                    page == self.cursor / self.page_size,
                    self.page_size > 0,
            ;
        }
        let start: usize = page * self.page_size;
        let end: usize = if self.page_size <= count - start {
            start + self.page_size
        } else {
            count
        };
        let ghost entries = self@.entries;
        let ghost names = spec_strings(labels@);
        let ghost rows = spec_entry_rows(entries, names, self.cursor as nat, start as int, end as int);
        let mut out: Vec<Draw> = Vec::new();
        let mut i: usize = start;
        assert(views(out@) + rows =~= rows);
        while i < end
            invariant
                start <= i <= end <= count,
                count == self.entries@.len(),
                labels@.len() == count,
                entries == repo_views(self.entries@),
                names == spec_strings(labels@),
                views(out@) + spec_entry_rows(
                    entries,
                    names,
                    self.cursor as nat,
                    i as int,
                    end as int,
                ) == rows,
            decreases end - i,
        {
            let ghost before = views(out@);
            let ghost rest = spec_entry_rows(
                entries,
                names,
                self.cursor as nat,
                i as int,
                end as int,
            );
            let repo = &self.entries[i];
            let mut text = if repo.visible {
                String::from_str("[\u{2713}] ")
            } else {
                String::from_str("[ ] ")
            };
            proof {
                reveal_strlit("[\u{2713}] ");
                reveal_strlit("[ ] ");
                assert(text@ =~= spec_checkbox(repo.visible));
            }
            text.append(labels[i].as_str());
            let style = Style {
                foreground: Some(
                    if repo.visible {
                        Color::White
                    } else {
                        Color::Grey
                    },
                ),
                background: if i == self.cursor {
                    Some(Color::DarkBlue)
                } else {
                    None
                },
                bold: false,
            };
            push_print(&mut out, clear_line().as_str());
            push_styled(&mut out, text.as_str(), style);
            push_print(&mut out, "\n\r");
            proof {
                reveal_strlit("\n\r");
                assert("\n\r"@ =~= seq!['\n', '\r']);
                assert(entries[i as int] == repo@);
                assert(names[i as int] == labels@[i as int]@);
                let row = spec_entry_row(entries[i as int], names[i as int], i == self.cursor);
                assert(views(out@) =~= before + row);
                assert((before + row) + spec_entry_rows(
                    entries,
                    names,
                    self.cursor as nat,
                    i + 1,
                    end as int,
                ) =~= before + rest);
            }
            i += 1;
        }
        assert(views(out@) =~= rows);
        let blanks: usize = self.page_size - (end - start);
        let mut b: usize = 0;
        assert(views(out@) =~= rows + spec_blank_rows(blanks as nat).take(0));
        while b < blanks
            invariant
                b <= blanks,
                views(out@) == rows + spec_blank_rows(blanks as nat).take(b as int),
            decreases blanks - b,
        {
            let mut line = clear_line();
            proof {
                reveal_strlit("\n\r");
                assert("\n\r"@ =~= seq!['\n', '\r']);
            }
            line.append("\n\r");
            push_print(&mut out, line.as_str());
            b += 1;
            assert(views(out@) =~= rows + spec_blank_rows(blanks as nat).take(b as int));
        }
        assert(spec_blank_rows(blanks as nat).take(blanks as int) =~= spec_blank_rows(
            blanks as nat,
        ));
        out
    }

    /// Queues the first drawing of the selection.
    pub fn queue_first_draw(&self, labels: &Vec<String>) -> (out: Vec<Draw>)
        requires
            self.wf(),
            labels@.len() == self.entries@.len(),
        ensures
            views(out@) == spec_first_draw(self@, spec_strings(labels@)),
    {
        let mut out = queue_info_bar();
        push_all(&mut out, self.queue_page_info());
        push_all(&mut out, self.queue_repo_list(labels));
        out
    }

    /// Queues a redraw in place of what was drawn before.
    pub fn queue_redraw(&self, labels: &Vec<String>) -> (out: Vec<Draw>)
        requires
            self.wf(),
            labels@.len() == self.entries@.len(),
        ensures
            views(out@) == spec_redraw(self@, spec_strings(labels@)),
    {
        let mut out: Vec<Draw> = Vec::new();
        let lines: u16 = (self.page_size + 1) as u16;
        let up = Draw::MoveUp(lines);
        proof {
            lemma_views_push(out@, up);
            assert(views(out@.push(up)) =~= seq![DrawView::MoveUp((self.page_size + 1) as u16)]);
        }
        out.push(up);
        push_all(&mut out, self.queue_page_info());
        push_all(&mut out, self.queue_repo_list(labels));
        out
    }
}


/// How the selection starts.
#[derive(Debug)]
pub enum ContextUi {
    /// Nothing is registered: say so, and do nothing.
    NoRepositories,
    /// The terminal is too low: do nothing.
    NoRoom,
    /// The selection, the names of its entries, and its first drawing.
    Selecting { selector: Selector, labels: Vec<String>, first_draw: Vec<Draw> },
}

/// The paths of the entries, in their order.
pub open spec fn spec_entry_paths(entries: Seq<RepoView>) -> Seq<Seq<char>> {
    Seq::new(entries.len(), |i: int| entries[i].path)
}

fn entry_paths(entries: &Vec<RepoConfig>) -> (paths: Vec<String>)
    ensures
        spec_strings(paths@) == spec_entry_paths(repo_views(entries@)),
{
    let ghost all = spec_entry_paths(repo_views(entries@));
    let mut paths: Vec<String> = Vec::new();
    let mut i: usize = 0;
    assert(spec_strings(paths@) =~= all.take(0));
    while i < entries.len()
        invariant
            i <= entries@.len(),
            all == spec_entry_paths(repo_views(entries@)),
            spec_strings(paths@) == all.take(i as int),
        decreases entries@.len() - i,
    {
        let path = entries[i].path.clone();
        proof {
            lemma_strings_push(paths@, path);
            assert(repo_views(entries@)[i as int] == entries@[i as int]@);
            assert(all.take(i as int).push(path@) =~= all.take(i + 1));
        }
        paths.push(path);
        i += 1;
    }
    assert(all.take(i as int) =~= all);
    paths
}

/// Starts the selection over the registered repositories: with nothing
/// registered there is nothing to select; in a terminal of five lines or
/// fewer there is no room; else the cursor stands on the first entry, and
/// the information bar, the page line and the first page are drawn.
pub fn context_ui(entries: Vec<RepoConfig>, home: Option<&str>, terminal_height: u16) -> (ui:
    ContextUi)
    ensures
        ui is NoRepositories <==> entries@.len() == 0,
        ui is NoRoom <==> entries@.len() > 0 && terminal_height <= MIN_HEIGHT,
        ui matches ContextUi::Selecting { selector, labels, first_draw } ==> {
            &&& selector.wf()
            &&& selector@ == (SelectorView {
                entries: repo_views(entries@),
                cursor: 0,
                page_size: spec_page_size(entries@.len(), terminal_height as nat),
            })
            &&& labels@.len() == entries@.len()
            &&& spec_strings(labels@) == spec_labels(
                spec_entry_paths(repo_views(entries@)),
                spec_home(home),
            )
            &&& views(first_draw@) == spec_first_draw(selector@, spec_strings(labels@))
        },
{
    if entries.len() == 0 {
        return ContextUi::NoRepositories;
    }
    let paths = entry_paths(&entries);
    let names = labels(&paths, home);
    assert(names@.len() == entries@.len()) by {
        assert(spec_strings(paths@).len() == paths@.len());
    }
    match Selector::new(entries, terminal_height) {
        None => ContextUi::NoRoom,
        Some(selector) => {
            assert(selector@.entries.len() == selector.entries@.len());
            let first_draw = selector.queue_first_draw(&names);
            ContextUi::Selecting { selector, labels: names, first_draw }
        },
    }
}

} // verus!
