use vstd::prelude::*;

verus! {

/// The terminal colours that the displays use.
#[derive(Clone, Copy, Debug, PartialEq, Eq)]
pub enum Color {
    Black,
    DarkRed,
    Red,
    DarkGreen,
    Green,
    DarkYellow,
    DarkBlue,
    White,
    Grey,
    DarkGrey,
}

/// Display attributes of a piece of text.
#[derive(Clone, Copy, Debug, PartialEq, Eq)]
pub struct Style {
    pub foreground: Option<Color>,
    pub background: Option<Color>,
    pub bold: bool,
}

impl Style {
    /// No attribute at all.
    pub open spec fn spec_plain() -> Style {
        Style { foreground: None, background: None, bold: false }
    }

    /// Only a foreground colour.
    pub open spec fn spec_fg(color: Color) -> Style {
        Style { foreground: Some(color), background: None, bold: false }
    }

    /// Only the bold attribute.
    pub open spec fn spec_bold() -> Style {
        Style { foreground: None, background: None, bold: true }
    }

    /// A foreground colour on a background colour.
    pub open spec fn spec_on(foreground: Color, background: Color) -> Style {
        Style { foreground: Some(foreground), background: Some(background), bold: false }
    }

    /// The style without any attribute.
    pub fn plain() -> (style: Style)
        ensures
            style == Style::spec_plain(),
    {
        Style { foreground: None, background: None, bold: false }
    }

    /// The style of a foreground colour alone.
    pub fn fg(color: Color) -> (style: Style)
        ensures
            style == Style::spec_fg(color),
    {
        Style { foreground: Some(color), background: None, bold: false }
    }

    /// The bold style.
    pub fn bold() -> (style: Style)
        ensures
            style == Style::spec_bold(),
    {
        Style { foreground: None, background: None, bold: true }
    }

    /// The style of a foreground colour on a background colour.
    pub fn on(foreground: Color, background: Color) -> (style: Style)
        ensures
            style == Style::spec_on(foreground, background),
    {
        Style { foreground: Some(foreground), background: Some(background), bold: false }
    }
}

/// A run of text with one style.
#[derive(Clone, Debug, PartialEq, Eq)]
pub struct Span {
    pub text: String,
    pub style: Style,
}

/// What a span is: its characters and its style.
pub struct SpanView {
    pub text: Seq<char>,
    pub style: Style,
}

impl View for Span {
    type V = SpanView;

    open spec fn view(&self) -> SpanView {
        SpanView { text: self.text@, style: self.style }
    }
}

impl Span {
    /// Text in a style.
    pub fn new(text: String, style: Style) -> (span: Span)
        ensures
            span@ == (SpanView { text: text@, style }),
    {
        Span { text, style }
    }

    /// Unstyled text.
    pub fn plain(text: String) -> (span: Span)
        ensures
            span@ == (SpanView { text: text@, style: Style::spec_plain() }),
    {
        Span { text, style: Style::plain() }
    }

    /// A copy with the same characters and style.
    pub fn duplicate(&self) -> (span: Span)
        ensures
            span@ == self@,
    {
        Span { text: self.text.clone(), style: self.style }
    }

    /// The number of characters shown.
    pub fn len(&self) -> (n: usize)
        ensures
            n == self@.text.len(),
    {
        self.text.as_str().unicode_len()
    }
}

/// One queued terminal write.
#[derive(Clone, Debug, PartialEq, Eq)]
pub enum Draw {
    /// Unstyled text, control characters included.
    Print(String),
    /// Styled text.
    Styled(Span),
    /// Move the cursor up by a number of lines.
    MoveUp(u16),
    HideCursor,
    ShowCursor,
}

/// What a queued write is.
pub enum DrawView {
    Print(Seq<char>),
    Styled(SpanView),
    MoveUp(u16),
    HideCursor,
    ShowCursor,
}

impl View for Draw {
    type V = DrawView;

    open spec fn view(&self) -> DrawView {
        match self {
            Draw::Print(s) => DrawView::Print(s@),
            Draw::Styled(span) => DrawView::Styled(span@),
            Draw::MoveUp(n) => DrawView::MoveUp(*n),
            Draw::HideCursor => DrawView::HideCursor,
            Draw::ShowCursor => DrawView::ShowCursor,
        }
    }
}

/// The writes that a queue holds, in order.
pub open spec fn views(draws: Seq<Draw>) -> Seq<DrawView> {
    draws.map_values(|d: Draw| d@)
}

/// The number of characters that one write puts on the line.
pub open spec fn draw_width(draw: DrawView) -> nat {
    match draw {
        DrawView::Print(s) => s.len(),
        DrawView::Styled(span) => span.text.len(),
        _ => 0,
    }
}

/// The number of characters that a run of writes puts on the line.
pub open spec fn total_width(draws: Seq<DrawView>) -> nat
    decreases draws.len(),
{
    if draws.len() == 0 {
        0
    } else {
        total_width(draws.drop_last()) + draw_width(draws.last())
    }
}

/// The characters that one write puts on the line.
pub open spec fn draw_text(draw: DrawView) -> Seq<char> {
    match draw {
        DrawView::Print(s) => s,
        DrawView::Styled(span) => span.text,
        _ => Seq::empty(),
    }
}

/// The characters that a run of writes puts on the line.
pub open spec fn total_text(draws: Seq<DrawView>) -> Seq<char>
    decreases draws.len(),
{
    if draws.len() == 0 {
        Seq::empty()
    } else {
        total_text(draws.drop_last()) + draw_text(draws.last())
    }
}

/// The text of two runs is the text of the first, then that of the second.
pub proof fn lemma_total_text_concat(a: Seq<DrawView>, b: Seq<DrawView>)
    ensures
        total_text(a + b) == total_text(a) + total_text(b),
    decreases b.len(),
{
    if b.len() == 0 {
        assert(a + b =~= a);
        assert(total_text(a) + total_text(b) =~= total_text(a));
    } else {
        assert((a + b).drop_last() =~= a + b.drop_last());
        assert((a + b).last() == b.last());
        lemma_total_text_concat(a, b.drop_last());
        assert(total_text(a + b) =~= total_text(a) + total_text(b));
    }
}

/// One write alone puts its own characters on the line.
pub proof fn lemma_total_text_one(draw: DrawView)
    ensures
        total_text(seq![draw]) == draw_text(draw),
{
    assert(seq![draw].drop_last() =~= Seq::<DrawView>::empty());
    assert(total_text(seq![draw].drop_last()) =~= Seq::<char>::empty());
    assert(total_text(seq![draw]) =~= draw_text(draw));
}

/// The width of two runs is the sum of their widths.
pub proof fn lemma_total_width_concat(a: Seq<DrawView>, b: Seq<DrawView>)
    ensures
        total_width(a + b) == total_width(a) + total_width(b),
    decreases b.len(),
{
    if b.len() == 0 {
        assert(a + b =~= a);
    } else {
        assert((a + b).drop_last() =~= a + b.drop_last());
        assert((a + b).last() == b.last());
        lemma_total_width_concat(a, b.drop_last());
    }
}

/// Appending one write to a queue appends its view.
pub proof fn lemma_views_push(draws: Seq<Draw>, draw: Draw)
    ensures
        views(draws.push(draw)) == views(draws).push(draw@),
{
    assert(views(draws.push(draw)) =~= views(draws).push(draw@));
}

/// The views of two queues joined are the joined views.
pub proof fn lemma_views_concat(a: Seq<Draw>, b: Seq<Draw>)
    ensures
        views(a + b) == views(a) + views(b),
{
    assert(views(a + b) =~= views(a) + views(b));
}

/// Queues unstyled text.
pub fn push_print(out: &mut Vec<Draw>, text: &str)
    ensures
        views(final(out)@) == views(old(out)@).push(DrawView::Print(text@)),
{
    let draw = Draw::Print(String::from_str(text));
    proof {
        lemma_views_push(out@, draw);
    }
    out.push(draw);
}

/// Queues styled text.
pub fn push_styled(out: &mut Vec<Draw>, text: &str, style: Style)
    ensures
        views(final(out)@) == views(old(out)@).push(
            DrawView::Styled(SpanView { text: text@, style }),
        ),
{
    let draw = Draw::Styled(Span { text: String::from_str(text), style });
    proof {
        lemma_views_push(out@, draw);
    }
    out.push(draw);
}

/// Moves every write of `more` to the end of `out`, in order.
pub fn push_all(out: &mut Vec<Draw>, more: Vec<Draw>)
    ensures
        views(final(out)@) == views(old(out)@) + views(more@),
{
    let ghost before = out@;
    let ghost added = more@;
    let mut more = more;
    out.append(&mut more);
    proof {
        lemma_views_concat(before, added);
    }
}

} // verus!
