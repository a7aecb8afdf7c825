//! What the client sends to the daemon and what it gets back.

use vstd::prelude::*;

use crate::task::{
    clone_envs, clone_text, env_views, text_view, unique_names, Task, TaskView,
};

verus! {

/// The request to add a task.
#[derive(Debug, PartialEq, Eq)]
pub struct AddRequest {
    pub command: String,
    pub path: String,
    pub envs: Vec<(String, String)>,
    /// Start the task at once, whatever the queue holds.
    pub start_immediately: bool,
    /// Create the task stashed and not queued.
    pub stashed: bool,
    pub group: String,
    /// When a stashed task is to be enqueued, in milliseconds since the Unix epoch.
    pub enqueue_at: Option<i64>,
    pub dependencies: Vec<usize>,
    pub priority: Option<i32>,
    pub label: Option<String>,
}

/// A request to add a task as a mathematical value.
pub struct AddRequestView {
    pub command: Seq<char>,
    pub path: Seq<char>,
    pub envs: Seq<(Seq<char>, Seq<char>)>,
    pub start_immediately: bool,
    pub stashed: bool,
    pub group: Seq<char>,
    pub enqueue_at: Option<i64>,
    pub dependencies: Seq<usize>,
    pub priority: Option<i32>,
    pub label: Option<Seq<char>>,
}

impl View for AddRequest {
    type V = AddRequestView;

    open spec fn view(&self) -> AddRequestView {
        AddRequestView {
            command: self.command@,
            path: self.path@,
            envs: env_views(self.envs@),
            start_immediately: self.start_immediately,
            stashed: self.stashed,
            group: self.group@,
            enqueue_at: self.enqueue_at,
            dependencies: self.dependencies@,
            priority: self.priority,
            label: text_view(self.label),
        }
    }
}

impl Clone for AddRequest {
    fn clone(&self) -> (copy: Self)
        ensures
            copy@ == self@,
    {
        AddRequest {
            command: self.command.clone(),
            path: self.path.clone(),
            envs: clone_envs(&self.envs),
            start_immediately: self.start_immediately,
            stashed: self.stashed,
            group: self.group.clone(),
            enqueue_at: self.enqueue_at,
            dependencies: self.dependencies.clone(),
            priority: self.priority,
            label: clone_text(&self.label),
        }
    }
}

/// The daemon's answer to a request.
#[derive(Debug, PartialEq, Eq)]
pub enum Response {
    /// The daemon did what was asked; the text says what it did.
    Success(String),
    /// The daemon refused; the text says why.
    Failure(String),
    /// The environment variables of a task, as pairs of name and value.
    EnvVars(Vec<(String, String)>),
}

/// An answer as a mathematical value.
pub enum ResponseView {
    Success(Seq<char>),
    Failure(Seq<char>),
    EnvVars(Seq<(Seq<char>, Seq<char>)>),
}

impl View for Response {
    type V = ResponseView;

    open spec fn view(&self) -> ResponseView {
        match *self {
            Response::Success(text) => ResponseView::Success(text@),
            Response::Failure(text) => ResponseView::Failure(text@),
            Response::EnvVars(envs) => ResponseView::EnvVars(env_views(envs@)),
        }
    }
}

impl Clone for Response {
    fn clone(&self) -> (copy: Self)
        ensures
            copy@ == self@,
    {
        match self {
            Response::Success(text) => Response::Success(text.clone()),
            Response::Failure(text) => Response::Failure(text.clone()),
            Response::EnvVars(envs) => Response::EnvVars(clone_envs(envs)),
        }
    }
}

/// The part of a task that a user may edit, with the id of the task.
#[derive(Debug, PartialEq, Eq)]
pub struct EditableTask {
    pub id: usize,
    /// The command that is run: the task's original command.
    pub command: String,
    pub path: String,
    pub label: Option<String>,
    pub priority: i32,
    pub envs: Vec<(String, String)>,
}

/// The editable part of a task as a mathematical value.
pub struct EditableTaskView {
    pub id: usize,
    pub command: Seq<char>,
    pub path: Seq<char>,
    pub label: Option<Seq<char>>,
    pub priority: i32,
    pub envs: Seq<(Seq<char>, Seq<char>)>,
}

/// The editable part of a task.
pub open spec fn editable(task: TaskView) -> EditableTaskView {
    EditableTaskView {
        id: task.id,
        command: task.original_command,
        path: task.path,
        label: task.label,
        priority: task.priority,
        envs: task.envs,
    }
}

/// The task with its editable part replaced. Its id, shown command, group,
/// dependencies and status stay.
pub open spec fn with_edit(task: TaskView, edited: EditableTaskView) -> TaskView {
    TaskView {
        original_command: edited.command,
        path: edited.path,
        label: edited.label,
        priority: edited.priority,
        envs: edited.envs,
        ..task
    }
}

/// Putting back what was taken out of a task changes nothing.
pub proof fn lemma_edit_round_trip(task: TaskView)
    ensures
        with_edit(task, editable(task)) == task,
{
}

/// An edited task keeps its id, and its environment names no variable twice
/// if that of the edit does not.
pub proof fn lemma_edit_keeps_id(task: TaskView, edited: EditableTaskView)
    ensures
        with_edit(task, edited).id == task.id,
        with_edit(task, edited).well_formed() == unique_names(edited.envs),
        task.well_formed() ==> unique_names(editable(task).envs),
{
}

/// Of two edits, the later one decides.
pub proof fn lemma_later_edit_decides(
    task: TaskView,
    first: EditableTaskView,
    second: EditableTaskView,
)
    ensures
        with_edit(with_edit(task, first), second) == with_edit(task, second),
{
}

impl View for EditableTask {
    type V = EditableTaskView;

    open spec fn view(&self) -> EditableTaskView {
        EditableTaskView {
            id: self.id,
            command: self.command@,
            path: self.path@,
            label: text_view(self.label),
            priority: self.priority,
            envs: env_views(self.envs@),
        }
    }
}

impl Clone for EditableTask {
    fn clone(&self) -> (copy: Self)
        ensures
            copy@ == self@,
    {
        EditableTask {
            id: self.id,
            command: self.command.clone(),
            path: self.path.clone(),
            label: clone_text(&self.label),
            priority: self.priority,
            envs: clone_envs(&self.envs),
        }
    }
}

impl EditableTask {
    /// Takes the editable part out of a task.
    pub fn from_task(task: &Task) -> (edit: EditableTask)
        ensures
            edit@ == editable(task@),
    {
        EditableTask {
            id: task.id,
            command: task.original_command.clone(),
            path: task.path.clone(),
            label: clone_text(&task.label),
            priority: task.priority,
            envs: clone_envs(&task.envs),
        }
    }

    /// Puts the editable part into a task, whatever the id of the task.
    pub fn into_task(self, task: &mut Task)
        ensures
            final(task)@ == with_edit(old(task)@, self@),
    {
        task.original_command = self.command;
        task.path = self.path;
        task.label = self.label;
        task.priority = self.priority;
        task.envs = self.envs;
    }
}

/// The request to change or to list the environment of a task.
#[derive(Debug, PartialEq, Eq)]
pub enum EnvRequest {
    /// Give the variable `key` the value `value`.
    Assign { task_id: usize, key: String, value: String },
    /// Remove the variable `key`.
    Unset { task_id: usize, key: String },
    /// Report all variables.
    List { task_id: usize },
}

/// A request on the environment of a task as a mathematical value.
pub enum EnvRequestView {
    Assign { task_id: usize, key: Seq<char>, value: Seq<char> },
    Unset { task_id: usize, key: Seq<char> },
    List { task_id: usize },
}

impl View for EnvRequest {
    type V = EnvRequestView;

    open spec fn view(&self) -> EnvRequestView {
        match *self {
            EnvRequest::Assign { task_id, key, value } => EnvRequestView::Assign {
                task_id,
                key: key@,
                value: value@,
            },
            EnvRequest::Unset { task_id, key } => EnvRequestView::Unset { task_id, key: key@ },
            EnvRequest::List { task_id } => EnvRequestView::List { task_id },
        }
    }
}

} // verus!
