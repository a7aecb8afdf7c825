//! Printing the commands of tasks.

use vstd::prelude::*;
use vstd::string::StringExecFns;

use crate::state::State;
use crate::task::TaskView;
use crate::text::{decimal, line_views, to_decimal, OutputLine, OutputLineView};

verus! {

/// The diagnostic for an id that no task has.
pub open spec fn not_found(id: usize) -> Seq<char> {
    "Task "@ + decimal(id as nat) + " not found"@
}

/// What is printed for one id: the command of its task as it is shown, or
/// the diagnostic.
pub open spec fn command_line(tasks: Map<usize, TaskView>, id: usize) -> OutputLineView {
    if tasks.contains_key(id) {
        OutputLineView::Stdout(tasks[id].command)
    } else {
        OutputLineView::Stderr(not_found(id))
    }
}

/// Writes the diagnostic for an id that no task has.
pub fn not_found_message(id: usize) -> (text: String)
    ensures
        text@ == not_found(id),
{
    let mut text = String::from_str("Task ");
    let number = to_decimal(id);
    text.append(number.as_str());
    text.append(" not found");
    assert(text@ =~= not_found(id));
    text
}

/// The lines that show the commands of the tasks with the given ids, one
/// line for each id in the order of the request. An id that no task has gets
/// a diagnostic, and the ids after it are still looked up.
pub fn print_cmd(state: &State, task_ids: Vec<usize>) -> (lines: Vec<OutputLine>)
    ensures
        line_views(lines@) == task_ids@.map_values(|id: usize| command_line(state@, id)),
{
    let mut lines: Vec<OutputLine> = Vec::new();
    let mut i: usize = 0;
    while i < task_ids.len()
        invariant
            i <= task_ids.len(),
            lines@.len() == i,
            forall|j: int| 0 <= j < i ==> (#[trigger] lines@[j])@ == command_line(state@, task_ids@[j]),
        decreases task_ids.len() - i,
    {
        let id = task_ids[i];
        let line = match state.get(id) {
            Some(task) => OutputLine::Stdout(task.command.clone()),
            None => OutputLine::Stderr(not_found_message(id)),
        };
        lines.push(line);
        i = i + 1;
    }
    assert(line_views(lines@) =~= task_ids@.map_values(|id: usize| command_line(state@, id)));
    lines
}

} // verus!
