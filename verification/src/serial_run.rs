use crate::config::{spec_paths_where, Config};
use crate::parallel_run::{queue_header, spec_header};
use crate::path::{path_to_string, spec_home, spec_path_to_string};
use crate::terminal::{views, Color, Draw, DrawView};
use crate::text::spec_strings;
use vstd::prelude::*;

verus! {

/// One step of a run in turn: what to draw before the program starts, and
/// the directory to start it in.
#[derive(Clone, Debug)]
pub struct SerialStep {
    pub header: Vec<Draw>,
    pub path: String,
}

/// What a step is.
pub struct SerialStepView {
    pub header: Seq<DrawView>,
    pub path: Seq<char>,
}

impl View for SerialStep {
    type V = SerialStepView;

    open spec fn view(&self) -> SerialStepView {
        SerialStepView { header: views(self.header@), path: self.path@ }
    }
}

/// What each step of a list is.
pub open spec fn step_views(steps: Seq<SerialStep>) -> Seq<SerialStepView> {
    steps.map_values(|s: SerialStep| s@)
}

/// The step for one target: its name on a white bar as wide as the
/// terminal, then the program in its directory.
pub open spec fn spec_serial_step(path: Seq<char>, home: Option<Seq<char>>, width: nat) -> SerialStepView {
    SerialStepView {
        header: seq![
            DrawView::Print(seq!['\n']),
            spec_header(spec_path_to_string(path, home), width, Color::White),
            DrawView::Print(seq!['\n']),
        ],
        path,
    }
}

/// The steps of a run in turn: one per target, in the order of the targets.
pub open spec fn spec_serial_steps(
    paths: Seq<Seq<char>>,
    home: Option<Seq<char>>,
    width: nat,
) -> Seq<SerialStepView> {
    Seq::new(paths.len(), |i: int| spec_serial_step(paths[i], home, width))
}

/// Lays out a run of one program in every visible repository, one after
/// the other, in the order of the list: for each the bar to draw before its
/// process starts, and the directory of the process.
pub fn serial_run(config: &Config, home: Option<&str>, width: u16) -> (steps: Vec<SerialStep>)
    ensures
        step_views(steps@) == spec_serial_steps(
            spec_paths_where(config@.repositories, true),
            spec_home(home),
            width as nat,
        ),
{
    let paths = config.visible_repos();
    let ghost all = spec_serial_steps(spec_strings(paths@), spec_home(home), width as nat);
    let mut steps: Vec<SerialStep> = Vec::new();
    let mut i: usize = 0;
    assert(step_views(steps@) =~= all.take(0));
    while i < paths.len()
        invariant
            i <= paths@.len(),
            all == spec_serial_steps(spec_strings(paths@), spec_home(home), width as nat),
            step_views(steps@) == all.take(i as int),
        decreases paths@.len() - i,
    {
        let name = path_to_string(paths[i].as_str(), home);
        let step = SerialStep {
            header: queue_header(name.as_str(), width, Color::White),
            path: paths[i].clone(),
        };
        proof {
            assert(spec_strings(paths@)[i as int] == paths@[i as int]@);
            assert(step_views(steps@.push(step)) =~= step_views(steps@).push(step@));
            assert(all.take(i as int).push(step@) =~= all.take(i + 1));
        }
        steps.push(step);
        i += 1;
    }
    assert(all.take(i as int) =~= all);
    steps
}

} // verus!
