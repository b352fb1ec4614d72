use crate::config::{queue_context_line, spec_context_line, spec_paths_where, Config};
use crate::path::{labels, spec_home, spec_labels};
use crate::terminal::{
    lemma_views_push, push_all, push_print, push_styled, views, Color, Draw, DrawView, SpanView,
    Style,
};
use crate::text::{
    clear_line, decimal, pad_right, spec_clear_line, spec_decimal, spec_pad_right, spec_strings,
};
use vstd::prelude::*;

verus! {

/// How long the display waits for an outcome before it draws again, in
/// milliseconds.
pub const TICK_MILLIS: u64 = 100;

/// The number of frames of the spinner.
pub const SPINNER_FRAMES: usize = 10;

/// Where one target stands: still running, or done, with what it printed.
#[derive(Clone, Debug, PartialEq, Eq)]
pub enum ProcessStatus {
    Running,
    /// Exited with success; holds the captured standard output.
    Finished(String),
    /// Exited with failure, or could not be started; holds the captured
    /// standard error, or the reason.
    Error(String),
}

/// What a status is.
pub enum StatusView {
    Running,
    Finished(Seq<char>),
    Error(Seq<char>),
}

impl View for ProcessStatus {
    type V = StatusView;

    open spec fn view(&self) -> StatusView {
        match self {
            ProcessStatus::Running => StatusView::Running,
            ProcessStatus::Finished(out) => StatusView::Finished(out@),
            ProcessStatus::Error(err) => StatusView::Error(err@),
        }
    }
}

/// What each status of a list is.
pub open spec fn status_views(statuses: Seq<ProcessStatus>) -> Seq<StatusView> {
    statuses.map_values(|s: ProcessStatus| s@)
}

impl ProcessStatus {
    /// The outcome of a process that ran to its end: its output where it
    /// succeeded, its error output where it did not.
    pub fn from_exit(success: bool, stdout: String, stderr: String) -> (status: ProcessStatus)
        ensures
            status@ == if success {
                StatusView::Finished(stdout@)
            } else {
                StatusView::Error(stderr@)
            },
    {
        if success {
            ProcessStatus::Finished(stdout)
        } else {
            ProcessStatus::Error(stderr)
        }
    }

    /// The outcome of a process that could not be started.
    pub fn from_spawn_failure(message: String) -> (status: ProcessStatus)
        ensures
            status@ == StatusView::Error(message@),
    {
        ProcessStatus::Error(message)
    }

    /// A copy of the status.
    pub fn duplicate(&self) -> (status: ProcessStatus)
        ensures
            status@ == self@,
    {
        match self {
            ProcessStatus::Running => ProcessStatus::Running,
            ProcessStatus::Finished(out) => ProcessStatus::Finished(out.clone()),
            ProcessStatus::Error(err) => ProcessStatus::Error(err.clone()),
        }
    }

    /// Whether the target is done, one way or the other.
    pub fn is_done(&self) -> (done: bool)
        ensures
            done == !(self@ is Running),
    {
        match self {
            ProcessStatus::Running => false,
            _ => true,
        }
    }
}

/// Whether the progress display collapses to one shared line: it does where
/// there are at least as many targets as the terminal has lines.
pub open spec fn spec_use_compact(target_count: nat, terminal_height: nat) -> bool {
    target_count >= terminal_height
}

/// Chooses between the compact and the full progress display.
pub fn use_compact(target_count: usize, terminal_height: u16) -> (compact: bool)
    ensures
        compact == spec_use_compact(target_count as nat, terminal_height as nat),
{
    let height: usize = terminal_height as usize;
    target_count >= height
}

/// The frames of the spinner, in order.
pub open spec fn spec_spinner(index: nat) -> char {
    if index == 0 {
        '\u{280B}'
    } else if index == 1 {
        '\u{2819}'
    } else if index == 2 {
        '\u{2839}'
    } else if index == 3 {
        '\u{2838}'
    } else if index == 4 {
        '\u{283C}'
    } else if index == 5 {
        '\u{2834}'
    } else if index == 6 {
        '\u{2826}'
    } else if index == 7 {
        '\u{2827}'
    } else if index == 8 {
        '\u{2807}'
    } else {
        '\u{280F}'
    }
}

/// The frame that follows `index`: the next one, and the first after the last.
pub open spec fn spec_next_frame(index: nat) -> nat {
    if index + 1 < SPINNER_FRAMES {
        index + 1
    } else {
        0
    }
}

fn spinner(index: usize) -> (s: &'static str)
    requires
        index < SPINNER_FRAMES,
    ensures
        s@ == seq![spec_spinner(index as nat)],
{
    proof {
        reveal_strlit("\u{280B}");
        reveal_strlit("\u{2819}");
        reveal_strlit("\u{2839}");
        reveal_strlit("\u{2838}");
        reveal_strlit("\u{283C}");
        reveal_strlit("\u{2834}");
        reveal_strlit("\u{2826}");
        reveal_strlit("\u{2827}");
        reveal_strlit("\u{2807}");
        reveal_strlit("\u{280F}");
    }
    let s = if index == 0 {
        "\u{280B}"
    } else if index == 1 {
        "\u{2819}"
    } else if index == 2 {
        "\u{2839}"
    } else if index == 3 {
        "\u{2838}"
    } else if index == 4 {
        "\u{283C}"
    } else if index == 5 {
        "\u{2834}"
    } else if index == 6 {
        "\u{2826}"
    } else if index == 7 {
        "\u{2827}"
    } else if index == 8 {
        "\u{2807}"
    } else {
        "\u{280F}"
    };
    assert(s@ =~= seq![spec_spinner(index as nat)]);
    s
}

/// As many statuses as there are targets, all running.
pub open spec fn spec_all_running(count: nat) -> Seq<StatusView> {
    Seq::new(count, |i: int| StatusView::Running)
}

/// The statuses after the outcome of `path` has arrived: every target of
/// that path that was still running has the outcome, every other target
/// keeps what it had. A status that is done never changes again.
pub open spec fn spec_record(
    paths: Seq<Seq<char>>,
    statuses: Seq<StatusView>,
    path: Seq<char>,
    outcome: StatusView,
) -> Seq<StatusView> {
    Seq::new(
        statuses.len(),
        |i: int|
            if 0 <= i < paths.len() && paths[i] == path && statuses[i] is Running {
                outcome
            } else {
                statuses[i]
            },
    )
}

/// The statuses after a run of outcomes has arrived, one after the other.
pub open spec fn spec_record_all(
    paths: Seq<Seq<char>>,
    statuses: Seq<StatusView>,
    outcomes: Seq<(Seq<char>, StatusView)>,
) -> Seq<StatusView>
    decreases outcomes.len(),
{
    if outcomes.len() == 0 {
        statuses
    } else {
        spec_record(
            paths,
            spec_record_all(paths, statuses, outcomes.drop_last()),
            outcomes.last().0,
            outcomes.last().1,
        )
    }
}

/// The number of targets that are done.
pub open spec fn spec_done_count(statuses: Seq<StatusView>) -> nat
    decreases statuses.len(),
{
    if statuses.len() == 0 {
        0
    } else if statuses.last() is Running {
        spec_done_count(statuses.drop_last())
    } else {
        spec_done_count(statuses.drop_last()) + 1
    }
}

/// The compact display: back to the start of the line, the spinner, and how
/// many targets are done.
pub open spec fn spec_progress_compact(statuses: Seq<StatusView>, frame: nat) -> Seq<DrawView> {
    seq![
        DrawView::Print(seq!['\r']),
        DrawView::Styled(SpanView { text: seq![spec_spinner(frame)], style: Style::spec_bold() }),
        DrawView::Print(
            " running ["@ + spec_decimal(spec_done_count(statuses)) + "/"@ + spec_decimal(
                statuses.len(),
            ) + " complete]"@,
        ),
    ]
}

/// The mark before a target's name: the spinner while it runs, a tick where
/// it succeeded, a cross where it failed.
pub open spec fn spec_status_mark(status: StatusView, frame: nat) -> SpanView {
    match status {
        StatusView::Running => SpanView {
            text: seq![spec_spinner(frame)],
            style: Style::spec_bold(),
        },
        StatusView::Finished(_) => SpanView {
            text: seq!['\u{2713}'],
            style: Style::spec_fg(Color::DarkGreen),
        },
        StatusView::Error(_) => SpanView {
            text: seq!['X'],
            style: Style::spec_fg(Color::DarkRed),
        },
    }
}

/// The line of one target in the full display: the line cleared, the mark,
/// a blank and the name, the line ended.
pub open spec fn spec_progress_line(label: Seq<char>, status: StatusView, frame: nat) -> Seq<
    DrawView,
> {
    seq![
        DrawView::Print(spec_clear_line()),
        DrawView::Styled(spec_status_mark(status, frame)),
        DrawView::Print(seq![' '] + label + seq!['\n']),
    ]
}

/// The full display from target `from` on: one line per target, in the
/// order of the targets.
pub open spec fn spec_progress_full(
    labels: Seq<Seq<char>>,
    statuses: Seq<StatusView>,
    frame: nat,
    from: int,
) -> Seq<DrawView>
    decreases statuses.len() - from,
{
    if from < 0 || from >= statuses.len() {
        Seq::empty()
    } else {
        spec_progress_line(labels[from], statuses[from], frame) + spec_progress_full(
            labels,
            statuses,
            frame,
            from + 1,
        )
    }
}

/// The bar above a target's output: the name, padded to the whole width of
/// the terminal, black on `background`.
pub open spec fn spec_header(label: Seq<char>, width: nat, background: Color) -> DrawView {
    DrawView::Styled(
        SpanView {
            text: spec_pad_right(label, width),
            style: Style::spec_on(Color::Black, background),
        },
    )
}

/// What is reported of one target: its name on a red bar and the error
/// where it failed; its name on a white bar and the output where it
/// succeeded and printed something; nothing otherwise.
pub open spec fn spec_frame(label: Seq<char>, status: StatusView, width: nat) -> Seq<DrawView> {
    match status {
        StatusView::Error(err) => seq![
            DrawView::Print(seq!['\n']),
            spec_header(label, width, Color::Red),
            DrawView::Print(seq!['\n']),
            DrawView::Print(err),
        ],
        StatusView::Finished(out) => if out.len() > 0 {
            seq![
                DrawView::Print(seq!['\n']),
                spec_header(label, width, Color::White),
                DrawView::Print(seq!['\n']),
                DrawView::Print(out),
            ]
        } else {
            Seq::empty()
        },
        StatusView::Running => Seq::empty(),
    }
}

/// Whether a target is reported at all.
pub open spec fn spec_is_reported(status: StatusView) -> bool {
    match status {
        StatusView::Error(_) => true,
        StatusView::Finished(out) => out.len() > 0,
        StatusView::Running => false,
    }
}

/// The report from target `from` on, in the order of the targets.
pub open spec fn spec_report(
    labels: Seq<Seq<char>>,
    statuses: Seq<StatusView>,
    width: nat,
    from: int,
) -> Seq<DrawView>
    decreases statuses.len() - from,
{
    if from < 0 || from >= statuses.len() {
        Seq::empty()
    } else {
        spec_frame(labels[from], statuses[from], width) + spec_report(
            labels,
            statuses,
            width,
            from + 1,
        )
    }
}

/// The number of targets from `from` on that are reported.
pub open spec fn spec_reported_count(statuses: Seq<StatusView>, from: int) -> nat
    decreases statuses.len() - from,
{
    if from < 0 || from >= statuses.len() {
        0
    } else if spec_is_reported(statuses[from]) {
        1 + spec_reported_count(statuses, from + 1)
    } else {
        spec_reported_count(statuses, from + 1)
    }
}

/// Queues the bar above a target's output.
pub fn queue_header(label: &str, width: u16, background: Color) -> (out: Vec<Draw>)
    ensures
        views(out@) == seq![
            DrawView::Print(seq!['\n']),
            spec_header(label@, width as nat, background),
            DrawView::Print(seq!['\n']),
        ],
{
    let mut out: Vec<Draw> = Vec::new();
    let w: usize = width as usize;
    let bar = pad_right(label, w);
    push_print(&mut out, "\n");
    push_styled(&mut out, bar.as_str(), Style::on(Color::Black, background));
    push_print(&mut out, "\n");
    proof {
        reveal_strlit("\n");
        assert("\n"@ =~= seq!['\n']);
        assert(views(out@) =~= seq![
            DrawView::Print(seq!['\n']),
            spec_header(label@, width as nat, background),
            DrawView::Print(seq!['\n']),
        ]);
    }
    out
}

/// The number of targets that are done.
pub fn done_count(statuses: &Vec<ProcessStatus>) -> (n: usize)
    ensures
        n == spec_done_count(status_views(statuses@)),
{
    let ghost all = status_views(statuses@);
    let mut n: usize = 0;
    let mut i: usize = 0;
    while i < statuses.len()
        invariant
            i <= statuses@.len(),
            all == status_views(statuses@),
            n == spec_done_count(all.take(i as int)),
            n <= i,
        decreases statuses@.len() - i,
    {
        proof {
            assert(all.take(i + 1).drop_last() =~= all.take(i as int));
            assert(all.take(i + 1).last() == statuses@[i as int]@);
        }
        if statuses[i].is_done() {
            n += 1;
        }
        i += 1;
    }
    assert(all.take(i as int) =~= all);
    n
}

/// Queues the compact display: one line, rewritten from its start.
pub fn queue_update_progress_compact(statuses: &Vec<ProcessStatus>, spinner_index: usize) -> (out:
    Vec<Draw>)
    requires
        spinner_index < SPINNER_FRAMES,
    ensures
        views(out@) == spec_progress_compact(status_views(statuses@), spinner_index as nat),
{
    let mut out: Vec<Draw> = Vec::new();
    let total = statuses.len();
    let finished = done_count(statuses);
    push_print(&mut out, "\r");
    push_styled(&mut out, spinner(spinner_index), Style::bold());
    let mut text = String::from_str(" running [");
    text.append(decimal(finished).as_str());
    text.append("/");
    text.append(decimal(total).as_str());
    text.append(" complete]");
    push_print(&mut out, text.as_str());
    proof {
        reveal_strlit("\r");
        assert("\r"@ =~= seq!['\r']);
        assert(views(out@) =~= spec_progress_compact(
            status_views(statuses@),
            spinner_index as nat,
        ));
    }
    out
}

/// Queues the full display: one line per target, each cleared and written
/// again, all with the same spinner frame.
pub fn queue_update_progress(
    labels: &Vec<String>,
    statuses: &Vec<ProcessStatus>,
    spinner_index: usize,
) -> (out: Vec<Draw>)
    requires
        spinner_index < SPINNER_FRAMES,
        labels@.len() == statuses@.len(),
    ensures
        views(out@) == spec_progress_full(
            spec_strings(labels@),
            status_views(statuses@),
            spinner_index as nat,
            0,
        ),
{
    let ghost names = spec_strings(labels@);
    let ghost all = status_views(statuses@);
    let ghost whole = spec_progress_full(names, all, spinner_index as nat, 0);
    let mut out: Vec<Draw> = Vec::new();
    let mut i: usize = 0;
    assert(views(out@) + whole =~= whole);
    while i < statuses.len()
        invariant
            i <= statuses@.len(),
            spinner_index < SPINNER_FRAMES,
            labels@.len() == statuses@.len(),
            names == spec_strings(labels@),
            all == status_views(statuses@),
            views(out@) + spec_progress_full(names, all, spinner_index as nat, i as int) == whole,
        decreases statuses@.len() - i,
    {
        let ghost before = views(out@);
        let ghost rest = spec_progress_full(names, all, spinner_index as nat, i as int);
        push_print(&mut out, clear_line().as_str());
        match &statuses[i] {
            ProcessStatus::Running => {
                push_styled(&mut out, spinner(spinner_index), Style::bold());
            },
            ProcessStatus::Finished(_) => {
                proof {
                    reveal_strlit("\u{2713}");
                    assert("\u{2713}"@ =~= seq!['\u{2713}']);
                }
                push_styled(&mut out, "\u{2713}", Style::fg(Color::DarkGreen));
            },
            ProcessStatus::Error(_) => {
                proof {
                    reveal_strlit("X");
                    assert("X"@ =~= seq!['X']);
                }
                push_styled(&mut out, "X", Style::fg(Color::DarkRed));
            },
        }
        let mut text = String::from_str(" ");
        text.append(labels[i].as_str());
        text.append("\n");
        push_print(&mut out, text.as_str());
        proof {
            reveal_strlit(" ");
            reveal_strlit("\n");
            assert(text@ =~= seq![' '] + labels@[i as int]@ + seq!['\n']);
            assert(names[i as int] == labels@[i as int]@);
            assert(all[i as int] == statuses@[i as int]@);
            let line = spec_progress_line(names[i as int], all[i as int], spinner_index as nat);
            assert(views(out@) =~= before + line);
            assert((before + line) + spec_progress_full(names, all, spinner_index as nat, i + 1)
                =~= before + rest);
        }
        i += 1;
    }
    assert(views(out@) + spec_progress_full(names, all, spinner_index as nat, i as int)
        =~= views(out@));
    out
}

/// Queues the report: for every target in the order of the targets, a bar
/// with its name and what it printed, where it failed or printed anything.
pub fn queue_report(labels: &Vec<String>, statuses: &Vec<ProcessStatus>, width: u16) -> (out: Vec<
    Draw,
>)
    requires
        labels@.len() == statuses@.len(),
    ensures
        views(out@) == spec_report(
            spec_strings(labels@),
            status_views(statuses@),
            width as nat,
            0,
        ),
{
    let ghost names = spec_strings(labels@);
    let ghost all = status_views(statuses@);
    let ghost whole = spec_report(names, all, width as nat, 0);
    let mut out: Vec<Draw> = Vec::new();
    let mut i: usize = 0;
    assert(views(out@) + whole =~= whole);
    while i < statuses.len()
        invariant
            i <= statuses@.len(),
            labels@.len() == statuses@.len(),
            names == spec_strings(labels@),
            all == status_views(statuses@),
            views(out@) + spec_report(names, all, width as nat, i as int) == whole,
        decreases statuses@.len() - i,
    {
        let ghost before = views(out@);
        let ghost rest = spec_report(names, all, width as nat, i as int);
        proof {
            assert(names[i as int] == labels@[i as int]@);
            assert(all[i as int] == statuses@[i as int]@);
        }
        match &statuses[i] {
            ProcessStatus::Error(err) => {
                push_all(&mut out, queue_header(labels[i].as_str(), width, Color::Red));
                push_print(&mut out, err.as_str());
            },
            ProcessStatus::Finished(text) => {
                if text.as_str().unicode_len() > 0 {
                    push_all(&mut out, queue_header(labels[i].as_str(), width, Color::White));
                    push_print(&mut out, text.as_str());
                }
            },
            ProcessStatus::Running => {},
        }
        proof {
            let frame = spec_frame(names[i as int], all[i as int], width as nat);
            assert(views(out@) =~= before + frame);
            assert((before + frame) + spec_report(names, all, width as nat, i + 1) =~= before
                + rest);
        }
        i += 1;
    }
    assert(views(out@) + spec_report(names, all, width as nat, i as int) =~= views(out@));
    out
}

/// The state of a concurrent run: the targets in their order, the name to
/// show for each, where each stands, and the display.
#[derive(Clone, Debug)]
pub struct Orchestrator {
    pub paths: Vec<String>,
    pub labels: Vec<String>,
    pub statuses: Vec<ProcessStatus>,
    pub spinner_index: usize,
    pub compact: bool,
}

/// What the state of a run is.
pub struct OrchestratorView {
    pub paths: Seq<Seq<char>>,
    pub labels: Seq<Seq<char>>,
    pub statuses: Seq<StatusView>,
    pub frame: nat,
    pub compact: bool,
}

impl View for Orchestrator {
    type V = OrchestratorView;

    open spec fn view(&self) -> OrchestratorView {
        OrchestratorView {
            paths: spec_strings(self.paths@),
            labels: spec_strings(self.labels@),
            statuses: status_views(self.statuses@),
            frame: self.spinner_index as nat,
            compact: self.compact,
        }
    }
}

/// What a redraw queues: in the compact display the one line; in the full
/// display the cursor moved up by one line per target, then every line.
pub open spec fn spec_redraw(state: OrchestratorView) -> Seq<DrawView> {
    if state.compact {
        spec_progress_compact(state.statuses, state.frame)
    } else {
        seq![DrawView::MoveUp(state.statuses.len() as u16)] + spec_progress_full(
            state.labels,
            state.statuses,
            state.frame,
            0,
        )
    }
}

/// What is queued before the first outcome: the context line, the cursor
/// hidden and, in the full display, every line once.
pub open spec fn spec_start(state: OrchestratorView, visible: nat, total: nat) -> Seq<DrawView> {
    spec_context_line(visible, total) + seq![DrawView::HideCursor] + if state.compact {
        Seq::empty()
    } else {
        spec_progress_full(state.labels, state.statuses, state.frame, 0)
    }
}

/// What is queued after the last outcome: one more redraw, the compact line
/// ended, the cursor shown.
pub open spec fn spec_finish(state: OrchestratorView) -> Seq<DrawView> {
    spec_redraw(state) + if state.compact {
        seq![DrawView::Print(seq!['\r', '\n']), DrawView::ShowCursor]
    } else {
        seq![DrawView::ShowCursor]
    }
}

impl Orchestrator {
    /// Every target has a name and a status, the spinner stands on one of
    /// its frames, and the full display is no higher than a cursor can move.
    pub open spec fn wf(&self) -> bool {
        &&& self.labels@.len() == self.paths@.len()
        &&& self.statuses@.len() == self.paths@.len()
        &&& self.spinner_index < SPINNER_FRAMES
        &&& !self.compact ==> self.paths@.len() < u16::MAX
    }

    /// Whether the state is well formed.
    pub fn check(&self) -> (ok: bool)
        ensures
            ok == self.wf(),
    {
        self.labels.len() == self.paths.len() && self.statuses.len() == self.paths.len()
            && self.spinner_index < SPINNER_FRAMES && (self.compact || self.paths.len() < 65535)
    }

    /// The state before any outcome: every target running, the spinner on
    /// its first frame, the display chosen by the terminal's height.
    pub fn new(paths: Vec<String>, labels: Vec<String>, terminal_height: u16) -> (state:
        Orchestrator)
        requires
            labels@.len() == paths@.len(),
        ensures
            state.wf(),
            state@ == (OrchestratorView {
                paths: spec_strings(paths@),
                labels: spec_strings(labels@),
                statuses: spec_all_running(paths@.len()),
                frame: 0,
                compact: spec_use_compact(paths@.len(), terminal_height as nat),
            }),
    {
        let count = paths.len();
        let mut statuses: Vec<ProcessStatus> = Vec::new();
        let mut i: usize = 0;
        while i < count
            invariant
                i <= count,
                statuses@.len() == i,
                forall|j: int| 0 <= j < i ==> (#[trigger] statuses@[j])@ is Running,
            decreases count - i,
        {
            statuses.push(ProcessStatus::Running);
            i += 1;
        }
        assert(status_views(statuses@) =~= spec_all_running(count as nat));
        let compact = use_compact(count, terminal_height);
        Orchestrator { paths, labels, statuses, spinner_index: 0, compact }
    }

    /// Takes the outcome of `path`: every target of that path that was
    /// still running gets it; nothing else changes.
    pub fn record(&mut self, path: &str, outcome: ProcessStatus)
        requires
            old(self).wf(),
        ensures
            final(self).wf(),
            final(self)@ == (OrchestratorView {
                statuses: spec_record(
                    old(self)@.paths,
                    old(self)@.statuses,
                    path@,
                    outcome@,
                ),
                ..old(self)@
            }),
    {
        let key = String::from_str(path);
        let ghost before = self@.statuses;
        let ghost names = self@.paths;
        let mut i: usize = 0;
        while i < self.statuses.len()
            invariant
                i <= self.statuses@.len(),
                self.wf(),
                key@ == path@,
                self.paths == old(self).paths,
                self.labels == old(self).labels,
                self.spinner_index == old(self).spinner_index,
                self.compact == old(self).compact,
                names == spec_strings(self.paths@),
                before == old(self)@.statuses,
                self.statuses@.len() == before.len(),
                forall|j: int|
                    0 <= j < i ==> (#[trigger] self.statuses@[j])@ == spec_record(
                        names,
                        before,
                        path@,
                        outcome@,
                    )[j],
                forall|j: int|
                    i <= j < before.len() ==> (#[trigger] self.statuses@[j])@ == before[j],
            decreases self.statuses@.len() - i,
        {
            assert(names[i as int] == self.paths@[i as int]@);
            assert(before[i as int] == self.statuses@[i as int]@);
            if self.paths[i] == key && !self.statuses[i].is_done() {
                let copy = outcome.duplicate();
                self.statuses.set(i, copy);
            }
            i += 1;
        }
        assert(status_views(self.statuses@) =~= spec_record(names, before, path@, outcome@));
    }

    /// Queues what is drawn before the first outcome.
    pub fn queue_start(&self, config: &Config) -> (out: Vec<Draw>)
        requires
            self.wf(),
        ensures
            views(out@) == spec_start(
                self@,
                spec_paths_where(config@.repositories, true).len(),
                config@.repositories.len(),
            ),
    {
        let mut out = queue_context_line(config);
        let hide = Draw::HideCursor;
        let ghost head = views(out@);
        proof {
            lemma_views_push(out@, hide);
            assert(head.push(hide@) =~= head + seq![DrawView::HideCursor]);
        }
        out.push(hide);
        if !self.compact {
            push_all(
                &mut out,
                queue_update_progress(&self.labels, &self.statuses, self.spinner_index),
            );
        } else {
            assert(views(out@) + Seq::<DrawView>::empty() =~= views(out@));
        }
        out
    }

    fn queue_redraw(&self) -> (out: Vec<Draw>)
        requires
            self.wf(),
        ensures
            views(out@) == spec_redraw(self@),
    {
        if self.compact {
            queue_update_progress_compact(&self.statuses, self.spinner_index)
        } else {
            let mut out: Vec<Draw> = Vec::new();
            let lines: u16 = self.statuses.len() as u16;
            let up = Draw::MoveUp(lines);
            proof {
                lemma_views_push(out@, up);
                assert(views(out@.push(up)) =~= seq![
                    DrawView::MoveUp(self@.statuses.len() as u16),
                ]);
            }
            out.push(up);
            push_all(
                &mut out,
                queue_update_progress(&self.labels, &self.statuses, self.spinner_index),
            );
            out
        }
    }

    /// Takes one tick without an outcome: queues a redraw with the current
    /// frame, then moves the spinner on by one frame.
    pub fn tick(&mut self) -> (out: Vec<Draw>)
        requires
            old(self).wf(),
        ensures
            final(self).wf(),
            views(out@) == spec_redraw(old(self)@),
            final(self)@ == (OrchestratorView {
                frame: spec_next_frame(old(self)@.frame),
                ..old(self)@
            }),
    {
        let out = self.queue_redraw();
        self.spinner_index = if self.spinner_index + 1 < SPINNER_FRAMES {
            self.spinner_index + 1
        } else {
            0
        };
        out
    }

    /// Queues what is drawn once every worker is done.
    pub fn queue_finish(&self) -> (out: Vec<Draw>)
        requires
            self.wf(),
        ensures
            views(out@) == spec_finish(self@),
    {
        let mut out = self.queue_redraw();
        let ghost head = views(out@);
        if self.compact {
            push_print(&mut out, "\r\n");
            proof {
                reveal_strlit("\r\n");
                assert("\r\n"@ =~= seq!['\r', '\n']);
            }
        }
        let show = Draw::ShowCursor;
        proof {
            lemma_views_push(out@, show);
            assert(views(out@).push(show@) =~= spec_finish(self@));
        }
        out.push(show);
        out
    }

    /// Queues the report of the run, in the order of the targets.
    pub fn queue_report(&self, width: u16) -> (out: Vec<Draw>)
        requires
            self.wf(),
        ensures
            views(out@) == spec_report(self@.labels, self@.statuses, width as nat, 0),
    {
        queue_report(&self.labels, &self.statuses, width)
    }
}

/// Sets up a run of one program in every visible repository at once: the
/// targets are the visible repositories in the order of the list, each with
/// the name to show for it, and each running.
pub fn parallel_run(config: &Config, home: Option<&str>, terminal_height: u16) -> (state:
    Orchestrator)
    ensures
        state.wf(),
        state@ == (OrchestratorView {
            paths: spec_paths_where(config@.repositories, true),
            labels: spec_labels(spec_paths_where(config@.repositories, true), spec_home(home)),
            statuses: spec_all_running(spec_paths_where(config@.repositories, true).len()),
            frame: 0,
            compact: spec_use_compact(
                spec_paths_where(config@.repositories, true).len(),
                terminal_height as nat,
            ),
        }),
{
    let paths = config.visible_repos();
    let names = labels(&paths, home);
    Orchestrator::new(paths, names, terminal_height)
}

/// Recording outcomes never changes the number of statuses: there is one
/// per target, whatever arrives.
pub proof fn lemma_record_all_len(
    paths: Seq<Seq<char>>,
    statuses: Seq<StatusView>,
    outcomes: Seq<(Seq<char>, StatusView)>,
)
    ensures
        spec_record_all(paths, statuses, outcomes).len() == statuses.len(),
    decreases outcomes.len(),
{
    if outcomes.len() > 0 {
        lemma_record_all_len(paths, statuses, outcomes.drop_last());
    }
}

/// A target that no outcome names keeps its status.
pub proof fn lemma_unnamed_target_keeps_status(
    paths: Seq<Seq<char>>,
    statuses: Seq<StatusView>,
    outcomes: Seq<(Seq<char>, StatusView)>,
    target: int,
)
    requires
        paths.len() == statuses.len(),
        0 <= target < paths.len(),
        forall|k: int| 0 <= k < outcomes.len() ==> (#[trigger] outcomes[k]).0 != paths[target],
    ensures
        spec_record_all(paths, statuses, outcomes)[target] == statuses[target],
    decreases outcomes.len(),
{
    if outcomes.len() > 0 {
        let earlier = outcomes.drop_last();
        assert forall|k: int| 0 <= k < earlier.len() implies (#[trigger] earlier[k]).0
            != paths[target] by {
            assert(earlier[k] == outcomes[k]);
        }
        lemma_unnamed_target_keeps_status(paths, statuses, earlier, target);
        lemma_record_all_len(paths, statuses, earlier);
        assert(outcomes.last() == outcomes[outcomes.len() - 1]);
    }
}

/// In whatever order the outcomes arrive, a target that started running and
/// that exactly one of them names ends with that outcome, and the statuses
/// stay one per target in the order of the targets.
pub proof fn lemma_outcome_independent_of_order(
    paths: Seq<Seq<char>>,
    outcomes: Seq<(Seq<char>, StatusView)>,
    target: int,
    arrival: int,
)
    requires
        0 <= target < paths.len(),
        0 <= arrival < outcomes.len(),
        outcomes[arrival].0 == paths[target],
        forall|k: int|
            0 <= k < outcomes.len() && k != arrival ==> (#[trigger] outcomes[k]).0
                != paths[target],
    ensures
        spec_record_all(paths, spec_all_running(paths.len()), outcomes).len() == paths.len(),
        spec_record_all(paths, spec_all_running(paths.len()), outcomes)[target]
            == outcomes[arrival].1,
    decreases outcomes.len(),
{
    let start = spec_all_running(paths.len());
    let earlier = outcomes.drop_last();
    lemma_record_all_len(paths, start, outcomes);
    lemma_record_all_len(paths, start, earlier);
    if arrival == outcomes.len() - 1 {
        assert forall|k: int| 0 <= k < earlier.len() implies (#[trigger] earlier[k]).0
            != paths[target] by {
            assert(earlier[k] == outcomes[k]);
        }
        lemma_unnamed_target_keeps_status(paths, start, earlier, target);
    } else {
        assert(earlier[arrival] == outcomes[arrival]);
        assert forall|k: int| 0 <= k < earlier.len() && k != arrival implies (
        #[trigger] earlier[k]).0 != paths[target] by {
            assert(earlier[k] == outcomes[k]);
        }
        lemma_outcome_independent_of_order(paths, earlier, target, arrival);
        assert(outcomes.last() == outcomes[outcomes.len() - 1]);
    }
}

/// Whether `arrival` is the one outcome that names `target`.
pub open spec fn spec_names_once(
    paths: Seq<Seq<char>>,
    outcomes: Seq<(Seq<char>, StatusView)>,
    target: int,
    arrival: int,
) -> bool {
    &&& 0 <= target < paths.len()
    &&& 0 <= arrival < outcomes.len()
    &&& outcomes[arrival].0 == paths[target]
    &&& forall|k: int|
        0 <= k < outcomes.len() && k != arrival ==> (#[trigger] outcomes[k]).0 != paths[target]
}

/// Whether exactly one outcome names `target`, and says that it is done.
pub open spec fn spec_has_outcome(
    paths: Seq<Seq<char>>,
    outcomes: Seq<(Seq<char>, StatusView)>,
    target: int,
) -> bool {
    exists|arrival: int|
        #[trigger] spec_names_once(paths, outcomes, target, arrival) && !(outcomes[arrival].1
            is Running)
}

/// Where every target is named by exactly one outcome, and no outcome says
/// that its target is still running, then after all outcomes, in whatever
/// order they arrived, there is one status per target and every target is
/// done.
pub proof fn lemma_every_target_done(
    paths: Seq<Seq<char>>,
    outcomes: Seq<(Seq<char>, StatusView)>,
)
    requires
        forall|target: int|
            0 <= target < paths.len() ==> #[trigger] spec_has_outcome(paths, outcomes, target),
    ensures
        spec_record_all(paths, spec_all_running(paths.len()), outcomes).len() == paths.len(),
        forall|target: int|
            0 <= target < paths.len() ==> !(#[trigger] spec_record_all(
                paths,
                spec_all_running(paths.len()),
                outcomes,
            )[target] is Running),
{
    let done = spec_record_all(paths, spec_all_running(paths.len()), outcomes);
    lemma_record_all_len(paths, spec_all_running(paths.len()), outcomes);
    assert forall|target: int| 0 <= target < paths.len() implies !(#[trigger] done[target]
        is Running) by {
        assert(spec_has_outcome(paths, outcomes, target));
        let arrival = choose|arrival: int|
            #[trigger] spec_names_once(paths, outcomes, target, arrival) && !(
            outcomes[arrival].1 is Running);
        lemma_outcome_independent_of_order(paths, outcomes, target, arrival);
    }
}

/// The report holds four writes for every target that is reported, and
/// nothing for the others.
pub proof fn lemma_report_len(
    labels: Seq<Seq<char>>,
    statuses: Seq<StatusView>,
    width: nat,
    from: int,
)
    ensures
        spec_report(labels, statuses, width, from).len() == 4 * spec_reported_count(
            statuses,
            from,
        ),
    decreases statuses.len() - from,
{
    if 0 <= from < statuses.len() {
        lemma_report_len(labels, statuses, width, from + 1);
    }
}

} // verus!
