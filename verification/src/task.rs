//! Tasks and the states of their life.

use vstd::prelude::*;

verus! {

/// How the process of a finished task ended.
#[derive(Clone, Copy, Debug, PartialEq, Eq)]
pub enum TaskResult {
    /// The process exited with code 0.
    Success,
    /// The process exited with another code.
    Failed(i32),
    /// The process could not be started.
    FailedToSpawn,
    /// The process was killed.
    Killed,
    /// Reading from or writing to the process failed.
    Errored,
    /// A task that this one depends on has failed.
    DependencyFailed,
}

/// Where a task stands in its life. Times are milliseconds since the Unix epoch.
#[derive(Clone, Copy, Debug, PartialEq, Eq)]
pub enum TaskStatus {
    /// Held back until it is enqueued, by hand or at `enqueue_at`.
    Stashed { enqueue_at: Option<i64> },
    /// Waiting for a free slot.
    Queued { enqueued_at: i64 },
    /// Its process runs.
    Running { enqueued_at: i64, start: i64 },
    /// Its process is suspended.
    Paused { enqueued_at: i64, start: i64 },
    /// Its process has ended.
    Done { enqueued_at: i64, start: i64, end: i64, result: TaskResult },
}

/// A shell command with what the daemon needs to run it.
#[derive(Debug, PartialEq, Eq)]
pub struct Task {
    /// Given by the daemon, and the key under which a snapshot holds the task.
    pub id: usize,
    /// The command as it was submitted.
    pub original_command: String,
    /// The command as it is shown, which an edit may have changed.
    pub command: String,
    /// The working directory.
    pub path: String,
    /// Environment variables as pairs of name and value.
    pub envs: Vec<(String, String)>,
    /// The group that the task is queued in.
    pub group: String,
    /// Ids of the tasks that must succeed before this one starts.
    pub dependencies: Vec<usize>,
    /// Its rank among the queued tasks of its group.
    pub priority: i32,
    pub label: Option<String>,
    pub status: TaskStatus,
}

/// A task as a mathematical value.
pub struct TaskView {
    pub id: usize,
    pub original_command: Seq<char>,
    pub command: Seq<char>,
    pub path: Seq<char>,
    pub envs: Seq<(Seq<char>, Seq<char>)>,
    pub group: Seq<char>,
    pub dependencies: Seq<usize>,
    pub priority: i32,
    pub label: Option<Seq<char>>,
    pub status: TaskStatus,
}

/// The pairs of an environment as sequences of characters.
pub open spec fn env_views(envs: Seq<(String, String)>) -> Seq<(Seq<char>, Seq<char>)> {
    envs.map_values(|pair: (String, String)| (pair.0@, pair.1@))
}

/// An optional text as an optional sequence of characters.
pub open spec fn text_view(text: Option<String>) -> Option<Seq<char>> {
    match text {
        Some(t) => Some(t@),
        None => None,
    }
}

/// No variable is named twice.
pub open spec fn unique_names(envs: Seq<(Seq<char>, Seq<char>)>) -> bool {
    forall|i: int, j: int| 0 <= i < j < envs.len() ==> envs[i].0 != envs[j].0
}

impl TaskView {
    /// The environment is a mapping: it names no variable twice.
    pub open spec fn well_formed(self) -> bool {
        unique_names(self.envs)
    }
}

impl View for Task {
    type V = TaskView;

    open spec fn view(&self) -> TaskView {
        TaskView {
            id: self.id,
            original_command: self.original_command@,
            command: self.command@,
            path: self.path@,
            envs: env_views(self.envs@),
            group: self.group@,
            dependencies: self.dependencies@,
            priority: self.priority,
            label: text_view(self.label),
            status: self.status,
        }
    }
}

/// Copies an environment pair by pair.
pub fn clone_envs(envs: &Vec<(String, String)>) -> (copy: Vec<(String, String)>)
    ensures
        env_views(copy@) == env_views(envs@),
{
    let mut copy: Vec<(String, String)> = Vec::new();
    let mut i: usize = 0;
    while i < envs.len()
        invariant
            i <= envs.len(),
            copy@.len() == i,
            forall|j: int|
                0 <= j < i ==> copy@[j].0@ == envs@[j].0@ && copy@[j].1@ == envs@[j].1@,
        decreases envs.len() - i,
    {
        let name = envs[i].0.clone();
        let value = envs[i].1.clone();
        copy.push((name, value));
        i = i + 1;
    }
    assert(env_views(copy@) =~= env_views(envs@));
    copy
}

/// Copies an optional text.
pub fn clone_text(text: &Option<String>) -> (copy: Option<String>)
    ensures
        text_view(copy) == text_view(*text),
{
    match text {
        Some(t) => Some(t.clone()),
        None => None,
    }
}

impl Clone for Task {
    /// A copy that shares nothing with the task it was made from.
    fn clone(&self) -> (copy: Self)
        ensures
            copy@ == self@,
    {
        Task {
            id: self.id,
            original_command: self.original_command.clone(),
            command: self.command.clone(),
            path: self.path.clone(),
            envs: clone_envs(&self.envs),
            group: self.group.clone(),
            dependencies: self.dependencies.clone(),
            priority: self.priority,
            label: clone_text(&self.label),
            status: self.status,
        }
    }
}

impl Task {
    /// Whether the task has a process, running or suspended.
    pub fn is_running(&self) -> (r: bool)
        ensures
            r == (self.status is Running || self.status is Paused),
    {
        match self.status {
            TaskStatus::Running { .. } => true,
            TaskStatus::Paused { .. } => true,
            _ => false,
        }
    }

    /// Whether the task's process is suspended.
    pub fn is_paused(&self) -> (r: bool)
        ensures
            r == (self.status is Paused),
    {
        match self.status {
            TaskStatus::Paused { .. } => true,
            _ => false,
        }
    }

    /// Whether the task's process has ended.
    pub fn is_done(&self) -> (r: bool)
        ensures
            r == (self.status is Done),
    {
        match self.status {
            TaskStatus::Done { .. } => true,
            _ => false,
        }
    }

    /// Whether the task has ended and its process exited with code 0.
    pub fn succeeded(&self) -> (r: bool)
        ensures
            r == (self.status matches TaskStatus::Done { result, .. } && result is Success),
    {
        match self.status {
            TaskStatus::Done { result: TaskResult::Success, .. } => true,
            _ => false,
        }
    }

    /// Whether the task has ended in any other way than with exit code 0.
    pub fn failed(&self) -> (r: bool)
        ensures
            r == (self.status matches TaskStatus::Done { result, .. } && !(result is Success)),
    {
        match self.status {
            TaskStatus::Done { result: TaskResult::Success, .. } => false,
            TaskStatus::Done { .. } => true,
            _ => false,
        }
    }

    /// Whether the task is held back.
    pub fn is_stashed(&self) -> (r: bool)
        ensures
            r == (self.status is Stashed),
    {
        match self.status {
            TaskStatus::Stashed { .. } => true,
            _ => false,
        }
    }

    /// Whether the task is queued, or stashed with a time at which it will be.
    pub fn is_queued(&self) -> (r: bool)
        ensures
            r == (self.status is Queued || self.status matches TaskStatus::Stashed {
                enqueue_at: Some(_),
            }),
    {
        match self.status {
            TaskStatus::Queued { .. } => true,
            TaskStatus::Stashed { enqueue_at: Some(_) } => true,
            _ => false,
        }
    }
}

} // verus!
