//! Printing the paths of the log files of tasks.

use vstd::prelude::*;

use crate::cmd::{not_found, not_found_message};
use crate::state::State;
use crate::task::TaskView;
use crate::text::{line_views, OutputLine, OutputLineView};

verus! {

/// The path of the log file of a task below the daemon's directory, as the
/// daemon computes it on the platform that this library is built for.
pub uninterp spec fn log_path_of(task_id: usize, pueue_dir: Seq<char>) -> Seq<char>;

/// The path of the log file of a task below the daemon's directory.
///
/// Calls `pueue_lib::log::get_log_path` and writes the path out with
/// `Path::display`. The contract claims that the text depends on the id and
/// on the directory alone, and gives it its name. The function joins the
/// directory, the name of the log directory and the file name of the task; it
/// reads no file and no setting.
#[verifier::external_body]
fn log_path(task_id: usize, pueue_dir: &str) -> (path: String)
    ensures
        path@ == log_path_of(task_id, pueue_dir@),
{
    let path = pueue_lib::log::get_log_path(task_id, std::path::Path::new(pueue_dir));
    format!("{}", path.display())
}

/// What is printed for one id, given the path of its log file: the path, if
/// a task has the id, or the diagnostic.
pub open spec fn path_line(tasks: Map<usize, TaskView>, id: usize, path: Seq<char>)
    -> OutputLineView {
    if tasks.contains_key(id) {
        OutputLineView::Stdout(path)
    } else {
        OutputLineView::Stderr(not_found(id))
    }
}

/// Writes what is printed for one id, given the path of its log file.
pub fn log_path_line(state: &State, task_id: usize, log_path: String) -> (line: OutputLine)
    ensures
        line@ == path_line(state@, task_id, log_path@),
{
    if state.contains(task_id) {
        OutputLine::Stdout(log_path)
    } else {
        OutputLine::Stderr(not_found_message(task_id))
    }
}

/// The lines that show the log files of the tasks with the given ids, one
/// line for each id in the order of the request. An id that no task has gets
/// a diagnostic, and the ids after it are still looked up.
pub fn print_output(state: &State, pueue_dir: &str, task_ids: Vec<usize>) -> (lines: Vec<
    OutputLine,
>)
    ensures
        line_views(lines@) == task_ids@.map_values(
            |id: usize| path_line(state@, id, log_path_of(id, pueue_dir@)),
        ),
{
    let mut lines: Vec<OutputLine> = Vec::new();
    let mut i: usize = 0;
    while i < task_ids.len()
        invariant
            i <= task_ids.len(),
            lines@.len() == i,
            forall|j: int|
                0 <= j < i ==> (#[trigger] lines@[j])@ == path_line(
                    state@,
                    task_ids@[j],
                    log_path_of(task_ids@[j], pueue_dir@),
                ),
        decreases task_ids.len() - i,
    {
        let id = task_ids[i];
        let path = log_path(id, pueue_dir);
        lines.push(log_path_line(state, id, path));
        i = i + 1;
    }
    assert(line_views(lines@) =~= task_ids@.map_values(
        |id: usize| path_line(state@, id, log_path_of(id, pueue_dir@)),
    ));
    lines
}

} // verus!
