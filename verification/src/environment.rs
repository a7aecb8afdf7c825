//! Changing and listing the environment of a task.

use vstd::prelude::*;

use crate::message::{EnvRequest, EnvRequestView, Response, ResponseView};
use crate::text::{line_views, OutputLine, OutputLineView};

verus! {

/// What the user asks of the environment of a task.
#[derive(Debug, PartialEq, Eq)]
pub enum EnvCommand {
    /// Give the variable `key` the value `value`.
    Assign { task_id: usize, key: String, value: String },
    /// Remove the variable `key`.
    Unset { task_id: usize, key: String },
    /// Show all variables.
    List { task_id: usize },
}

/// A command as a mathematical value.
pub enum EnvCommandView {
    Assign { task_id: usize, key: Seq<char>, value: Seq<char> },
    Unset { task_id: usize, key: Seq<char> },
    List { task_id: usize },
}

impl View for EnvCommand {
    type V = EnvCommandView;

    open spec fn view(&self) -> EnvCommandView {
        match *self {
            EnvCommand::Assign { task_id, key, value } => EnvCommandView::Assign {
                task_id,
                key: key@,
                value: value@,
            },
            EnvCommand::Unset { task_id, key } => EnvCommandView::Unset { task_id, key: key@ },
            EnvCommand::List { task_id } => EnvCommandView::List { task_id },
        }
    }
}

/// The request that carries a command to the daemon.
pub open spec fn request_of(command: EnvCommandView) -> EnvRequestView {
    match command {
        EnvCommandView::Assign { task_id, key, value } => EnvRequestView::Assign {
            task_id,
            key,
            value,
        },
        EnvCommandView::Unset { task_id, key } => EnvRequestView::Unset { task_id, key },
        EnvCommandView::List { task_id } => EnvRequestView::List { task_id },
    }
}

/// Builds the request that carries the command to the daemon.
pub fn env(command: EnvCommand) -> (request: EnvRequest)
    ensures
        request@ == request_of(command@),
{
    match command {
        EnvCommand::Assign { task_id, key, value } => EnvRequest::Assign { task_id, key, value },
        EnvCommand::Unset { task_id, key } => EnvRequest::Unset { task_id, key },
        EnvCommand::List { task_id } => EnvRequest::List { task_id },
    }
}

/// What is done with the daemon's answer.
#[derive(Debug, PartialEq, Eq)]
pub enum EnvOutput {
    /// The variables of the task are printed, one line each.
    Print(Vec<OutputLine>),
    /// The answer is left to whoever handles the answers to all commands.
    Handle(Response),
}

/// The line that shows one variable.
pub open spec fn variable_line(variable: (Seq<char>, Seq<char>)) -> OutputLineView {
    OutputLineView::Stdout(variable.0 + seq!['='] + variable.1)
}

/// Decides what is done with the daemon's answer: variables are printed as
/// `name=value` in the order in which they came, any other answer is handed
/// on as it is.
pub fn env_output(response: Response) -> (output: EnvOutput)
    ensures
        match response@ {
            ResponseView::EnvVars(envs) => output matches EnvOutput::Print(lines) && line_views(
                lines@,
            ) == envs.map_values(|variable: (Seq<char>, Seq<char>)| variable_line(variable)),
            _ => output matches EnvOutput::Handle(other) && other@ == response@,
        },
{
    match response {
        Response::EnvVars(envs) => {
            let mut lines: Vec<OutputLine> = Vec::new();
            let mut i: usize = 0;
            proof {
                reveal_strlit("=");
            }
            while i < envs.len()
                invariant
                    i <= envs.len(),
                    lines@.len() == i,
                    "="@ == seq!['='],
                    forall|j: int|
                        0 <= j < i ==> (#[trigger] lines@[j])@ == variable_line(
                            (envs@[j].0@, envs@[j].1@),
                        ),
                decreases envs.len() - i,
            {
                let mut text = envs[i].0.clone();
                text.append("=");
                text.append(envs[i].1.as_str());
                lines.push(OutputLine::Stdout(text));
                i = i + 1;
            }
            assert(line_views(lines@) =~= crate::task::env_views(envs@).map_values(
                |variable: (Seq<char>, Seq<char>)| variable_line(variable),
            ));
            EnvOutput::Print(lines)
        },
        other => EnvOutput::Handle(other),
    }
}

} // verus!
