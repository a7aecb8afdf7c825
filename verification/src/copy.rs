//! Duplicating tasks: each task that is found is submitted to the daemon once
//! more, under a label that names its source.

use vstd::prelude::*;
use vstd::string::StringExecFns;

use crate::clock::now;
use crate::message::{
    editable, with_edit, AddRequest, AddRequestView, EditableTask, EditableTaskView, Response,
};
use crate::order::{ascending, lemma_ascending_unique, lists_ascending};
use crate::state::{
    accepts, decides, found, keyed_by_id, lemma_matching_all, missing, FilteredTasks, State,
};
use crate::task::{clone_envs, text_view, unique_names, Task, TaskStatus, TaskView};
use crate::text::{decimal, format_ids, id_list, to_decimal, OutputLine, OutputLineView};

verus! {

/// Why no more copies are made.
#[derive(Debug, PartialEq, Eq)]
pub enum CopyError {
    /// No id was given.
    NoTaskIds,
    /// An edited task bears an id that was not handed out for editing.
    UnexpectedTaskId(usize),
    /// The daemon refused a copy; the text is the daemon's.
    Rejected(String),
}

/// An error as a mathematical value.
pub enum CopyErrorView {
    NoTaskIds,
    UnexpectedTaskId(usize),
    Rejected(Seq<char>),
}

impl View for CopyError {
    type V = CopyErrorView;

    open spec fn view(&self) -> CopyErrorView {
        match *self {
            CopyError::NoTaskIds => CopyErrorView::NoTaskIds,
            CopyError::UnexpectedTaskId(id) => CopyErrorView::UnexpectedTaskId(id),
            CopyError::Rejected(text) => CopyErrorView::Rejected(text@),
        }
    }
}

/// What the user is told of an error.
pub open spec fn error_message(error: CopyErrorView) -> Seq<char> {
    match error {
        CopyErrorView::NoTaskIds => "Please provide the ids of the tasks you want to copy."@,
        CopyErrorView::UnexpectedTaskId(id) => "Found unexpected task id during editing: "@
            + decimal(id as nat),
        CopyErrorView::Rejected(text) => text,
    }
}

impl CopyError {
    /// What the user is told of the error. A refusal is given in the daemon's
    /// own words.
    pub fn message(&self) -> (text: String)
        ensures
            text@ == error_message(self@),
    {
        match self {
            CopyError::NoTaskIds => String::from_str(
                "Please provide the ids of the tasks you want to copy.",
            ),
            CopyError::UnexpectedTaskId(id) => {
                let mut text = String::from_str("Found unexpected task id during editing: ");
                let number = to_decimal(*id);
                text.append(number.as_str());
                text
            },
            CopyError::Rejected(text) => text.clone(),
        }
    }
}

/// The note that names the source of a copy.
pub open spec fn copy_note(id: usize) -> Seq<char> {
    "(copy from #"@ + decimal(id as nat) + ")"@
}

/// The label of a copy: the source's label, if it has one, and the note.
pub open spec fn label_of_copy(label: Option<Seq<char>>, id: usize) -> Seq<char> {
    match label {
        Some(text) => text + " "@ + copy_note(id),
        None => copy_note(id),
    }
}

/// The status that a copy starts with: queued since the given time, or stashed
/// with no time at which it would be enqueued.
pub open spec fn status_of_copy(enqueued_at: Option<i64>) -> TaskStatus {
    match enqueued_at {
        Some(time) => TaskStatus::Queued { enqueued_at: time },
        None => TaskStatus::Stashed { enqueue_at: None },
    }
}

/// The request that adds a copy of the task. It asks for the command as it was
/// first submitted, and for no dependencies.
pub open spec fn request_for(task: TaskView, start_immediately: bool, enqueue: bool)
    -> AddRequestView {
    AddRequestView {
        command: task.original_command,
        path: task.path,
        envs: task.envs,
        start_immediately,
        stashed: !enqueue,
        group: task.group,
        enqueue_at: None,
        dependencies: Seq::empty(),
        priority: Some(task.priority),
        label: Some(label_of_copy(task.label, task.id)),
    }
}

/// Writes the label of a copy of the task with the given label and id.
pub fn copy_label(label: &Option<String>, id: usize) -> (text: String)
    ensures
        text@ == label_of_copy(text_view(*label), id),
{
    let mut text = match label {
        Some(label) => {
            let mut text = label.clone();
            text.append(" ");
            text
        },
        None => String::new(),
    };
    text.append("(copy from #");
    let number = to_decimal(id);
    text.append(number.as_str());
    text.append(")");
    proof {
        let note = copy_note(id);
        match text_view(*label) {
            Some(l) => {
                assert(text@ =~= l + " "@ + note);
            },
            None => {
                assert(text@ =~= note);
            },
        }
    }
    text
}

/// The status that a copy starts with.
pub fn new_task_status(enqueued_at: Option<i64>) -> (status: TaskStatus)
    ensures
        status == status_of_copy(enqueued_at),
{
    match enqueued_at {
        Some(time) => TaskStatus::Queued { enqueued_at: time },
        None => TaskStatus::Stashed { enqueue_at: None },
    }
}

/// Builds the request that adds a copy of the task.
pub fn add_request(task: &Task, start_immediately: bool, enqueue: bool) -> (request: AddRequest)
    ensures
        request@ == request_for(task@, start_immediately, enqueue),
{
    AddRequest {
        command: task.original_command.clone(),
        path: task.path.clone(),
        envs: clone_envs(&task.envs),
        start_immediately,
        stashed: !enqueue,
        group: task.group.clone(),
        enqueue_at: None,
        dependencies: Vec::new(),
        priority: Some(task.priority),
        label: Some(copy_label(&task.label, task.id)),
    }
}

/// What is printed once all copies are made: the ids that were found, where
/// there are any, and the ids that were not, where there are any.
pub open spec fn report(matching: Seq<usize>, non_matching: Seq<usize>) -> Seq<OutputLineView> {
    let copied = if matching.len() > 0 {
        seq![OutputLineView::Stdout("Copied tasks: "@ + id_list(matching))]
    } else {
        Seq::empty()
    };
    let not_found = if non_matching.len() > 0 {
        seq![OutputLineView::Stderr("Couldn't find tasks: "@ + id_list(non_matching))]
    } else {
        Seq::empty()
    };
    copied + not_found
}

/// Writes what is printed once all copies are made.
pub fn report_lines(filtered: &FilteredTasks) -> (lines: Vec<OutputLine>)
    ensures
        crate::text::line_views(lines@) == report(
            filtered.matching_ids@,
            filtered.non_matching_ids@,
        ),
{
    let mut lines: Vec<OutputLine> = Vec::new();
    if filtered.matching_ids.len() > 0 {
        let mut text = String::from_str("Copied tasks: ");
        let ids = format_ids(&filtered.matching_ids);
        text.append(ids.as_str());
        lines.push(OutputLine::Stdout(text));
    }
    if filtered.non_matching_ids.len() > 0 {
        let mut text = String::from_str("Couldn't find tasks: ");
        let ids = format_ids(&filtered.non_matching_ids);
        text.append(ids.as_str());
        lines.push(OutputLine::Stderr(text));
    }
    assert(crate::text::line_views(lines@) =~= report(
        filtered.matching_ids@,
        filtered.non_matching_ids@,
    ));
    lines
}

/// One copy that is to be made.
#[derive(Debug, PartialEq, Eq)]
pub struct PlannedCopy {
    /// The copy as it starts out: the source, with the status of a copy.
    pub task: Task,
    /// What is sent to the daemon to have the copy made.
    pub request: AddRequest,
}

/// A copy that is to be made as a mathematical value.
pub struct PlannedCopyView {
    pub task: TaskView,
    pub request: AddRequestView,
}

impl View for PlannedCopy {
    type V = PlannedCopyView;

    open spec fn view(&self) -> PlannedCopyView {
        PlannedCopyView { task: self.task@, request: self.request@ }
    }
}

/// The copies as mathematical values.
pub open spec fn plan_views(plan: Seq<PlannedCopy>) -> Seq<PlannedCopyView> {
    plan.map_values(|copy: PlannedCopy| copy@)
}

/// The task with another status.
pub open spec fn with_status(task: TaskView, status: TaskStatus) -> TaskView {
    TaskView { status, ..task }
}

/// The copy of one task.
pub open spec fn planned(
    source: TaskView,
    status: TaskStatus,
    start_immediately: bool,
    enqueue: bool,
) -> PlannedCopyView {
    let task = with_status(source, status);
    PlannedCopyView { task, request: request_for(task, start_immediately, enqueue) }
}

/// The ids of the tasks that the copies are made from, in the order of the
/// copies.
pub open spec fn sources(plan: Seq<PlannedCopyView>) -> Seq<usize> {
    plan.map_values(|copy: PlannedCopyView| copy.task.id)
}

/// The plan holds one copy of each task, in ascending order of their ids.
pub open spec fn is_plan(
    plan: Seq<PlannedCopyView>,
    tasks: Map<usize, TaskView>,
    status: TaskStatus,
    start_immediately: bool,
    enqueue: bool,
) -> bool {
    &&& lists_ascending(sources(plan), tasks.dom())
    &&& forall|i: int|
        0 <= i < plan.len() ==> #[trigger] plan[i] == planned(
            tasks[plan[i].task.id],
            status,
            start_immediately,
            enqueue,
        )
}

/// The ids of the edited tasks, in their order.
pub open spec fn edit_ids(edits: Seq<EditableTaskView>) -> Seq<usize> {
    edits.map_values(|edit: EditableTaskView| edit.id)
}

/// The edited tasks as mathematical values.
pub open spec fn edit_views(edits: Seq<EditableTask>) -> Seq<EditableTaskView> {
    edits.map_values(|edit: EditableTask| edit@)
}

/// The first of the ids that no known task has.
pub open spec fn first_missing(known: Set<usize>, ids: Seq<usize>) -> Option<usize> {
    if missing(known, ids).len() > 0 {
        Some(missing(known, ids)[0])
    } else {
        None
    }
}

/// The tasks after the edits were put into them one after the other, each
/// into the task that bears its id. An edit whose id no task bears changes
/// nothing.
pub open spec fn merged(tasks: Map<usize, TaskView>, edits: Seq<EditableTaskView>) -> Map<
    usize,
    TaskView,
>
    decreases edits.len(),
{
    if edits.len() == 0 {
        tasks
    } else {
        let before = merged(tasks, edits.drop_last());
        let edit = edits.last();
        if before.contains_key(edit.id) {
            before.insert(edit.id, with_edit(before[edit.id], edit))
        } else {
            before
        }
    }
}

/// The command was accepted, and the snapshot of the daemon's tasks is needed.
#[derive(Debug)]
pub struct AwaitState {
    task_ids: Vec<usize>,
    start_immediately: bool,
    enqueue: bool,
    edit: bool,
    status: TaskStatus,
}

/// The tasks were found and copied, and the user is to edit the copies.
#[derive(Debug)]
pub struct AwaitEdit {
    tasks: State,
    filtered: FilteredTasks,
    start_immediately: bool,
    enqueue: bool,
    status: TaskStatus,
}

/// A request was handed out, and the daemon's answer to it is needed.
#[derive(Debug)]
pub struct AwaitResponse {
    plan: Vec<PlannedCopy>,
    sent: usize,
    filtered: FilteredTasks,
}

/// What the caller is to do next. The first three hold what goes on with the
/// outcome; the last two end the command.
#[derive(Debug)]
pub enum CopyStep {
    /// Fetch the snapshot of the daemon's tasks, and hand it to `state`.
    GetState(AwaitState),
    /// Let the user edit `editable_tasks`, and hand the result to `edited`.
    Edit(AwaitEdit),
    /// Send `request` to the daemon, and hand its answer to `response`.
    Send(AwaitResponse),
    /// All copies are made. The ids that were found and those that were not
    /// are to be reported.
    Done(FilteredTasks),
    /// No more copies are made. Those that the daemon has accepted stay.
    Failed(CopyError),
}

/// The first step of a command: without ids it fails, with ids the snapshot
/// is asked for.
pub open spec fn starts(
    step: CopyStep,
    task_ids: Seq<usize>,
    start_immediately: bool,
    enqueued_at: Option<i64>,
    edit: bool,
) -> bool {
    if task_ids.len() == 0 {
        step matches CopyStep::Failed(error) && error@ == CopyErrorView::NoTaskIds
    } else {
        &&& step matches CopyStep::GetState(next)
        &&& next.task_ids() == task_ids
        &&& next.start_immediately() == start_immediately
        &&& next.enqueue() == enqueued_at.is_some()
        &&& next.edit() == edit
        &&& next.status() == status_of_copy(enqueued_at)
    }
}

/// The step that starts the submission of the copies of `tasks`: without
/// tasks the command is done, else the request for the first copy goes out.
pub open spec fn submits(
    step: CopyStep,
    tasks: Map<usize, TaskView>,
    matching_ids: Seq<usize>,
    non_matching_ids: Seq<usize>,
    status: TaskStatus,
    start_immediately: bool,
    enqueue: bool,
) -> bool {
    if tasks.dom().is_empty() {
        &&& step matches CopyStep::Done(filtered)
        &&& filtered.matching_ids@ == matching_ids
        &&& filtered.non_matching_ids@ == non_matching_ids
    } else {
        &&& step matches CopyStep::Send(next)
        &&& is_plan(next.plan(), tasks, status, start_immediately, enqueue)
        &&& next.sent() == 0
        &&& next.matching_ids() == matching_ids
        &&& next.non_matching_ids() == non_matching_ids
    }
}

/// Starts a copy command. Without ids the command fails before anything is
/// asked of the daemon, or of the clock. Where the copies are to be enqueued,
/// they are queued as of now.
pub fn copy(task_ids: Vec<usize>, start_immediately: bool, enqueue: bool, edit: bool) -> (step:
    CopyStep)
    ensures
        !enqueue || task_ids@.len() == 0 ==> starts(
            step,
            task_ids@,
            start_immediately,
            None,
            edit,
        ),
        enqueue && task_ids@.len() > 0 ==> exists|now: i64|
            starts(step, task_ids@, start_immediately, Some(now), edit),
{
    if task_ids.len() == 0 {
        return CopyStep::Failed(CopyError::NoTaskIds);
    }
    let enqueued_at = if enqueue {
        Some(now())
    } else {
        None
    };
    copy_with(task_ids, start_immediately, enqueued_at, edit)
}

/// Starts a copy command whose copies are to be enqueued as of the given
/// time, or to be stashed if no time is given.
pub fn copy_with(
    task_ids: Vec<usize>,
    start_immediately: bool,
    enqueued_at: Option<i64>,
    edit: bool,
) -> (step: CopyStep)
    ensures
        starts(step, task_ids@, start_immediately, enqueued_at, edit),
{
    if task_ids.len() == 0 {
        return CopyStep::Failed(CopyError::NoTaskIds);
    }
    CopyStep::GetState(
        AwaitState {
            task_ids,
            start_immediately,
            enqueue: enqueued_at.is_some(),
            edit,
            status: new_task_status(enqueued_at),
        },
    )
}

impl AwaitState {
    /// The ids that were asked for.
    pub closed spec fn task_ids(&self) -> Seq<usize> {
        self.task_ids@
    }

    /// Whether the copies are to start at once.
    pub closed spec fn start_immediately(&self) -> bool {
        self.start_immediately
    }

    /// Whether the copies are to be enqueued and not stashed.
    pub closed spec fn enqueue(&self) -> bool {
        self.enqueue
    }

    /// Whether the user is to edit the copies before they are submitted.
    pub closed spec fn edit(&self) -> bool {
        self.edit
    }

    /// The status that the copies start with.
    pub closed spec fn status(&self) -> TaskStatus {
        self.status
    }

    /// Takes the snapshot: finds the tasks that were asked for, whatever their
    /// status, and copies them. Then the copies are edited, if that was asked
    /// for, or submitted.
    pub fn state(self, state: &State) -> (step: CopyStep)
        ensures
            self.edit() ==> {
                &&& step matches CopyStep::Edit(next)
                &&& next.tasks() == state@.restrict(self.task_ids().to_set())
                &&& next.matching_ids() == found(state@.dom(), self.task_ids())
                &&& next.non_matching_ids() == missing(state@.dom(), self.task_ids())
                &&& next.start_immediately() == self.start_immediately()
                &&& next.enqueue() == self.enqueue()
                &&& next.status() == self.status()
            },
            !self.edit() ==> submits(
                step,
                state@.restrict(self.task_ids().to_set()),
                found(state@.dom(), self.task_ids()),
                missing(state@.dom(), self.task_ids()),
                self.status(),
                self.start_immediately(),
                self.enqueue(),
            ),
    {
        let AwaitState { task_ids, start_immediately, enqueue, edit, status } = self;
        let ghost ids = task_ids@;
        let all = |_task: &Task| -> (keep: bool)
            ensures
                keep,
            { true };
        assert(decides(all));
        let filtered = state.filter_tasks(all, Some(task_ids));
        proof {
            assert forall|task: Task| accepts(all, task) by {}
            lemma_matching_all(state.tasks(), all, ids);
            assert(state@.dom() =~= state.tasks().dom());
        }
        let tasks = select(state, &filtered.matching_ids);
        proof {
            let matching = filtered.matching_ids@;
            let known = |id: usize| state@.dom().contains(id);
            assert forall|id: usize| matching.to_set().contains(id) <==> ids.to_set().contains(id)
                && state@.contains_key(id) by {
                if matching.contains(id) {
                    ids.lemma_filter_contains_rev(known, id);
                }
                if ids.contains(id) && state@.contains_key(id) {
                    let i = choose|i: int| 0 <= i < ids.len() && ids[i] == id;
                    ids.lemma_filter_contains(known, i);
                }
            }
            assert(state@.restrict(matching.to_set()) =~= state@.restrict(ids.to_set()));
        }
        if edit {
            CopyStep::Edit(AwaitEdit { tasks, filtered, start_immediately, enqueue, status })
        } else {
            submit(tasks, filtered, status, start_immediately, enqueue)
        }
    }
}

/// Copies the tasks with the given ids out of the snapshot.
fn select(state: &State, ids: &Vec<usize>) -> (tasks: State)
    ensures
        tasks@ == state@.restrict(ids@.to_set()),
{
    let mut tasks = State::new();
    let mut i: usize = 0;
    assert(tasks@ =~= state@.restrict(ids@.take(0).to_set()));
    while i < ids.len()
        invariant
            i <= ids.len(),
            tasks@ == state@.restrict(ids@.take(i as int).to_set()),
        decreases ids.len() - i,
    {
        let id = ids[i];
        proof {
            assert(ids@.take(i + 1) =~= ids@.take(i as int).push(id));
            ids@.take(i as int).lemma_push_to_set_commute(id);
        }
        match state.get(id) {
            Some(task) => {
                tasks.insert(task.clone());
            },
            None => {},
        }
        assert(tasks@ =~= state@.restrict(ids@.take(i + 1).to_set()));
        i = i + 1;
    }
    assert(ids@.take(ids.len() as int) =~= ids@);
    tasks
}

/// Plans the copies of the tasks, and hands out the first request.
fn submit(
    tasks: State,
    filtered: FilteredTasks,
    status: TaskStatus,
    start_immediately: bool,
    enqueue: bool,
) -> (step: CopyStep)
    ensures
        submits(
            step,
            tasks@,
            filtered.matching_ids@,
            filtered.non_matching_ids@,
            status,
            start_immediately,
            enqueue,
        ),
{
    let listed = tasks.values();
    let mut plan: Vec<PlannedCopy> = Vec::new();
    let mut i: usize = 0;
    while i < listed.len()
        invariant
            i <= listed.len(),
            plan@.len() == i,
            forall|j: int|
                0 <= j < listed@.len() ==> (#[trigger] listed@[j])@ == tasks@[listed@[j].id],
            forall|j: int|
                0 <= j < i ==> (#[trigger] plan@[j])@ == planned(
                    listed@[j]@,
                    status,
                    start_immediately,
                    enqueue,
                ),
        decreases listed.len() - i,
    {
        let mut task = listed[i].clone();
        task.status = status;
        let request = add_request(&task, start_immediately, enqueue);
        plan.push(PlannedCopy { task, request });
        i = i + 1;
    }
    proof {
        let views = plan_views(plan@);
        assert(sources(views) =~= crate::state::task_ids(listed@));
        if plan@.len() > 0 {
            assert(sources(views).to_set().contains(sources(views)[0]));
        }
        if !tasks@.dom().is_empty() {
            let id = choose|id: usize| tasks@.dom().contains(id);
            assert(sources(views).contains(id));
        }
    }
    if plan.len() == 0 {
        CopyStep::Done(filtered)
    } else {
        CopyStep::Send(AwaitResponse { plan, sent: 0, filtered })
    }
}

impl AwaitEdit {
    /// The copies under the ids of their sources.
    pub closed spec fn tasks(&self) -> Map<usize, TaskView> {
        self.tasks@
    }

    /// The ids that were asked for and found, in the order of the request.
    pub closed spec fn matching_ids(&self) -> Seq<usize> {
        self.filtered.matching_ids@
    }

    /// The ids that were asked for and not found, in the order of the request.
    pub closed spec fn non_matching_ids(&self) -> Seq<usize> {
        self.filtered.non_matching_ids@
    }

    /// Whether the copies are to start at once.
    pub closed spec fn start_immediately(&self) -> bool {
        self.start_immediately
    }

    /// Whether the copies are to be enqueued and not stashed.
    pub closed spec fn enqueue(&self) -> bool {
        self.enqueue
    }

    /// The status that the copies start with.
    pub closed spec fn status(&self) -> TaskStatus {
        self.status
    }

    /// What the user may edit of the copies, in ascending order of their ids.
    pub fn editable_tasks(&self) -> (edits: Vec<EditableTask>)
        ensures
            lists_ascending(edit_ids(edit_views(edits@)), self.tasks().dom()),
            forall|i: int|
                0 <= i < edits@.len() ==> (#[trigger] edits@[i])@ == editable(
                    self.tasks()[edits@[i].id],
                ),
    {
        let listed = self.tasks.values();
        let mut edits: Vec<EditableTask> = Vec::new();
        let mut i: usize = 0;
        while i < listed.len()
            invariant
                i <= listed.len(),
                edits@.len() == i,
                forall|j: int| 0 <= j < i ==> (#[trigger] edits@[j])@ == editable(listed@[j]@),
            decreases listed.len() - i,
        {
            edits.push(EditableTask::from_task(listed[i]));
            i = i + 1;
        }
        assert(edit_ids(edit_views(edits@)) =~= crate::state::task_ids(listed@));
        edits
    }

    /// Takes what the user made of the editable tasks, and puts each edit into
    /// the copy that bears its id. An id that no copy bears ends the command;
    /// else the copies are submitted.
    pub fn edited(self, edits: Vec<EditableTask>) -> (step: CopyStep)
        ensures
            match first_missing(self.tasks().dom(), edit_ids(edit_views(edits@))) {
                Some(id) => step matches CopyStep::Failed(error) && error@
                    == CopyErrorView::UnexpectedTaskId(id),
                None => submits(
                    step,
                    merged(self.tasks(), edit_views(edits@)),
                    self.matching_ids(),
                    self.non_matching_ids(),
                    self.status(),
                    self.start_immediately(),
                    self.enqueue(),
                ),
            },
    {
        let AwaitEdit { tasks, filtered, start_immediately, enqueue, status } = self;
        let mut tasks = tasks;
        let ghost given = tasks@;
        let ghost views = edit_views(edits@);
        let ghost ids = edit_ids(views);
        let ghost unknown = |id: usize| !given.dom().contains(id);
        let mut i: usize = 0;
        proof {
            reveal(Seq::filter);
            assert(views.take(0) =~= Seq::<EditableTaskView>::empty());
        }
        while i < edits.len()
            invariant
                i <= edits.len(),
                given == self.tasks(),
                views == edit_views(edits@),
                ids == edit_ids(views),
                unknown == |id: usize| !given.dom().contains(id),
                tasks@ == merged(given, views.take(i as int)),
                tasks@.dom() == given.dom(),
                ids.take(i as int).filter(unknown).len() == 0,
            decreases edits.len() - i,
        {
            let edit = edits[i].clone();
            proof {
                assert(views.take(i + 1).drop_last() =~= views.take(i as int));
                assert(ids.take(i + 1) =~= ids.take(i as int).push(edit.id));
                ids.take(i as int).lemma_filter_push(edit.id, unknown);
            }
            match tasks.get(edit.id) {
                None => {
                    proof {
                        assert(ids =~= ids.take(i + 1) + ids.skip(i + 1));
                        Seq::filter_distributes_over_add(ids.take(i + 1), ids.skip(i + 1), unknown);
                        assert(ids.take(i + 1).filter(unknown) =~= seq![edit.id]);
                        assert(ids.filter(unknown)[0] == edit.id);
                        assert(missing(given.dom(), ids) == ids.filter(unknown));
                        assert(first_missing(given.dom(), ids) == Some(edit.id));
                    }
                    return CopyStep::Failed(CopyError::UnexpectedTaskId(edit.id));
                },
                Some(task) => {
                    let mut task = task.clone();
                    edit.into_task(&mut task);
                    tasks.insert(task);
                    assert(tasks@.dom() =~= given.dom());
                },
            }
            i = i + 1;
        }
        proof {
            assert(ids.take(edits.len() as int) =~= ids);
            assert(views.take(edits.len() as int) =~= views);
        }
        submit(tasks, filtered, status, start_immediately, enqueue)
    }
}

impl AwaitResponse {
    #[verifier::type_invariant]
    spec fn one_is_sent(self) -> bool {
        self.sent < self.plan@.len()
    }

    /// All copies that are to be made, in the order in which they are
    /// submitted.
    pub closed spec fn plan(&self) -> Seq<PlannedCopyView> {
        plan_views(self.plan@)
    }

    /// The number of copies that the daemon has accepted. The request for the
    /// copy after them is the one that was handed out.
    pub closed spec fn sent(&self) -> nat {
        self.sent as nat
    }

    /// The ids that were asked for and found, in the order of the request.
    pub closed spec fn matching_ids(&self) -> Seq<usize> {
        self.filtered.matching_ids@
    }

    /// The ids that were asked for and not found, in the order of the request.
    pub closed spec fn non_matching_ids(&self) -> Seq<usize> {
        self.filtered.non_matching_ids@
    }

    /// All copies that are to be made.
    pub fn copies(&self) -> (plan: &Vec<PlannedCopy>)
        ensures
            plan_views(plan@) == self.plan(),
            self.sent() < self.plan().len(),
    {
        proof {
            use_type_invariant(self);
        }
        &self.plan
    }

    /// The number of copies that the daemon has accepted.
    pub fn accepted(&self) -> (n: usize)
        ensures
            n == self.sent(),
            n < self.plan().len(),
    {
        proof {
            use_type_invariant(self);
        }
        self.sent
    }

    /// The request that is to be sent to the daemon.
    pub fn request(&self) -> (request: &AddRequest)
        ensures
            self.sent() < self.plan().len(),
            request@ == self.plan()[self.sent() as int].request,
    {
        proof {
            use_type_invariant(self);
        }
        &self.plan[self.sent].request
    }

    /// Takes the daemon's answer to the request. A refusal ends the command
    /// with the daemon's words, and the copies after it are not submitted.
    /// After any other answer the next copy is submitted, or the command is
    /// done.
    pub fn response(self, response: Response) -> (step: CopyStep)
        ensures
            match response {
                Response::Failure(text) => step matches CopyStep::Failed(error) && error@
                    == CopyErrorView::Rejected(text@),
                _ => if self.sent() + 1 < self.plan().len() {
                    &&& step matches CopyStep::Send(next)
                    &&& next.plan() == self.plan()
                    &&& next.sent() == self.sent() + 1
                    &&& next.matching_ids() == self.matching_ids()
                    &&& next.non_matching_ids() == self.non_matching_ids()
                } else {
                    &&& step matches CopyStep::Done(filtered)
                    &&& filtered.matching_ids@ == self.matching_ids()
                    &&& filtered.non_matching_ids@ == self.non_matching_ids()
                },
            },
    {
        proof {
            use_type_invariant(&self);
        }
        let AwaitResponse { plan, sent, filtered } = self;
        let planned = plan.len();
        match response {
            Response::Failure(text) => CopyStep::Failed(CopyError::Rejected(text)),
            _ => {
                if sent + 1 < planned {
                    CopyStep::Send(AwaitResponse { plan, sent: sent + 1, filtered })
                } else {
                    CopyStep::Done(filtered)
                }
            },
        }
    }
}

/// Every requested id is either found or missing, and the two lists hold
/// what their names say.
pub proof fn lemma_found_and_missing(known: Set<usize>, ids: Seq<usize>)
    ensures
        found(known, ids).len() + missing(known, ids).len() == ids.len(),
        forall|id: usize| #[trigger]
            found(known, ids).contains(id) <==> ids.contains(id) && known.contains(id),
        forall|id: usize| #[trigger]
            missing(known, ids).contains(id) <==> ids.contains(id) && !known.contains(id),
    decreases ids.len(),
{
    reveal(Seq::filter);
    let is_known = |id: usize| known.contains(id);
    let is_unknown = |id: usize| !known.contains(id);
    if ids.len() > 0 {
        let front = ids.drop_last();
        let last = ids.last();
        lemma_found_and_missing(known, front);
        assert(ids =~= front.push(last));
        front.lemma_filter_push(last, is_known);
        front.lemma_filter_push(last, is_unknown);
        assert forall|id: usize| #[trigger]
            found(known, ids).contains(id) <==> ids.contains(id) && known.contains(id) by {
            if found(known, ids).contains(id) {
                ids.lemma_filter_contains_rev(is_known, id);
            }
            if ids.contains(id) && known.contains(id) {
                let i = choose|i: int| 0 <= i < ids.len() && ids[i] == id;
                ids.lemma_filter_contains(is_known, i);
            }
        }
        assert forall|id: usize| #[trigger]
            missing(known, ids).contains(id) <==> ids.contains(id) && !known.contains(id) by {
            if missing(known, ids).contains(id) {
                ids.lemma_filter_contains_rev(is_unknown, id);
            }
            if ids.contains(id) && !known.contains(id) {
                let i = choose|i: int| 0 <= i < ids.len() && ids[i] == id;
                ids.lemma_filter_contains(is_unknown, i);
            }
        }
    }
}

/// Tasks have one plan only: what is said of a plan says which one it is.
pub proof fn lemma_plan_unique(
    first: Seq<PlannedCopyView>,
    second: Seq<PlannedCopyView>,
    tasks: Map<usize, TaskView>,
    status: TaskStatus,
    start_immediately: bool,
    enqueue: bool,
)
    requires
        is_plan(first, tasks, status, start_immediately, enqueue),
        is_plan(second, tasks, status, start_immediately, enqueue),
    ensures
        first == second,
{
    lemma_ascending_unique(sources(first), sources(second));
    assert(first.len() == sources(first).len());
    assert(second.len() == sources(second).len());
    assert forall|i: int| 0 <= i < first.len() implies first[i] == second[i] by {
        assert(sources(first)[i] == first[i].task.id);
        assert(sources(second)[i] == second[i].task.id);
    }
    assert(first =~= second);
}

/// A task is copied whatever its status. Asked for by its id alone, it is
/// found and nothing is missing, the plan holds its copy and no other, the
/// label of the copy names the id, and the request for the copy is the same
/// for every status of the task.
pub proof fn lemma_copy_whatever_the_status(
    tasks: Map<usize, TaskView>,
    id: usize,
    plan: Seq<PlannedCopyView>,
    status: TaskStatus,
    start_immediately: bool,
    enqueue: bool,
)
    requires
        tasks.contains_key(id),
        is_plan(plan, tasks.restrict(seq![id].to_set()), status, start_immediately, enqueue),
    ensures
        found(tasks.dom(), seq![id]) == seq![id],
        missing(tasks.dom(), seq![id]) == Seq::<usize>::empty(),
        plan.len() == 1,
        plan[0] == planned(tasks[id], status, start_immediately, enqueue),
        plan[0].request.label == Some(label_of_copy(tasks[id].label, id)),
        forall|other: TaskStatus|
            request_for(#[trigger] with_status(tasks[id], other), start_immediately, enqueue)
                == plan[0].request,
{
    let ids = seq![id];
    lemma_found_and_missing(tasks.dom(), ids);
    assert(ids.contains(ids[0]));
    assert(found(tasks.dom(), ids).contains(id));
    if missing(tasks.dom(), ids).len() > 0 {
        assert(missing(tasks.dom(), ids).contains(missing(tasks.dom(), ids)[0]));
    }
    assert(found(tasks.dom(), ids).len() == 1);
    assert(found(tasks.dom(), ids) =~= seq![id]);
    assert(missing(tasks.dom(), ids) =~= Seq::<usize>::empty());
    let selected = tasks.restrict(ids.to_set());
    assert(ids.to_set() =~= set![id]);
    assert(selected.dom() =~= set![id]);
    assert(ascending(ids));
    lemma_ascending_unique(sources(plan), ids);
    assert(plan.len() == sources(plan).len());
    assert(sources(plan)[0] == id);
    assert(selected[id] == tasks[id]);
}

/// The status of a copy. Where the copies are not to be enqueued, a copy
/// starts stashed, with no time at which it would be enqueued, and is
/// requested stashed. Where they are, a copy starts queued and is requested
/// so. Either way the request names no time.
pub proof fn lemma_status_of_a_copy(
    source: TaskView,
    enqueued_at: Option<i64>,
    start_immediately: bool,
)
    ensures
        ({
            let copy = planned(
                source,
                status_of_copy(enqueued_at),
                start_immediately,
                enqueued_at.is_some(),
            );
            &&& enqueued_at is None ==> copy.task.status == (TaskStatus::Stashed {
                enqueue_at: None,
            }) && copy.request.stashed
            &&& enqueued_at matches Some(time) ==> copy.task.status == (TaskStatus::Queued {
                enqueued_at: time,
            }) && !copy.request.stashed
            &&& copy.request.enqueue_at is None
        }),
{
}

/// The label of a copy. The copy of a task without a label is labelled with
/// the note that names the id of the task; the copy of a task with a label
/// is labelled with that label, a space and the note.
pub proof fn lemma_label_of_a_copy(
    source: TaskView,
    status: TaskStatus,
    start_immediately: bool,
    enqueue: bool,
)
    ensures
        ({
            let copy = planned(source, status, start_immediately, enqueue);
            let note = "(copy from #"@ + decimal(source.id as nat) + ")"@;
            &&& source.label is None ==> copy.request.label == Some(note)
            &&& source.label matches Some(label) ==> copy.request.label == Some(
                label + " "@ + note,
            )
        }),
{
}

/// A copy has the environment of its source, which names no variable twice
/// if that of the source does not, and it depends on no other task.
pub proof fn lemma_copy_keeps_environment(
    source: TaskView,
    status: TaskStatus,
    start_immediately: bool,
    enqueue: bool,
)
    ensures
        ({
            let copy = planned(source, status, start_immediately, enqueue);
            &&& copy.request.envs == source.envs
            &&& copy.request.dependencies.len() == 0
            &&& source.well_formed() ==> copy.task.well_formed() && unique_names(
                copy.request.envs,
            )
        }),
{
}

/// The count of a batch. Where the ids that are found were asked for in
/// ascending order, the plan holds one copy for each of them and in their
/// order, so that as many copies are made as ids are found and the ids
/// reported as found are those of the copies; the ids reported as missing are
/// all others that were asked for.
pub proof fn lemma_batch_accounting(
    tasks: Map<usize, TaskView>,
    ids: Seq<usize>,
    plan: Seq<PlannedCopyView>,
    status: TaskStatus,
    start_immediately: bool,
    enqueue: bool,
)
    requires
        ascending(found(tasks.dom(), ids)),
        is_plan(plan, tasks.restrict(ids.to_set()), status, start_immediately, enqueue),
    ensures
        sources(plan) == found(tasks.dom(), ids),
        plan.len() == found(tasks.dom(), ids).len(),
        missing(tasks.dom(), ids).len() == ids.len() - plan.len(),
        forall|id: usize| #[trigger]
            missing(tasks.dom(), ids).contains(id) <==> ids.contains(id) && !tasks.contains_key(
                id,
            ),
{
    lemma_found_and_missing(tasks.dom(), ids);
    let matching = found(tasks.dom(), ids);
    assert(matching.to_set() =~= tasks.restrict(ids.to_set()).dom());
    lemma_ascending_unique(sources(plan), matching);
    assert(plan.len() == sources(plan).len());
}

/// However the ids were asked for, no task is copied twice: the plan holds
/// as many copies as there are tasks among the ids.
pub proof fn lemma_one_copy_of_each(
    tasks: Map<usize, TaskView>,
    plan: Seq<PlannedCopyView>,
    status: TaskStatus,
    start_immediately: bool,
    enqueue: bool,
)
    requires
        is_plan(plan, tasks, status, start_immediately, enqueue),
    ensures
        tasks.dom().finite(),
        plan.len() == tasks.dom().len(),
        sources(plan).no_duplicates(),
{
    let ids = sources(plan);
    assert(ids.no_duplicates());
    ids.unique_seq_to_set();
    assert(plan.len() == ids.len());
}

/// Edits change neither which tasks there are nor their ids, and a task
/// that no edit bears the id of stays as it is.
pub proof fn lemma_merged_keeps_tasks(tasks: Map<usize, TaskView>, edits: Seq<EditableTaskView>)
    ensures
        merged(tasks, edits).dom() == tasks.dom(),
        keyed_by_id(tasks) ==> keyed_by_id(merged(tasks, edits)),
        forall|id: usize|
            tasks.contains_key(id) && !edit_ids(edits).contains(id) ==> #[trigger] merged(
                tasks,
                edits,
            )[id] == tasks[id],
    decreases edits.len(),
{
    if edits.len() > 0 {
        let front = edits.drop_last();
        lemma_merged_keeps_tasks(tasks, front);
        let before = merged(tasks, front);
        let edit = edits.last();
        assert(merged(tasks, edits).dom() =~= tasks.dom());
        assert forall|id: usize|
            tasks.contains_key(id) && !edit_ids(edits).contains(id) implies #[trigger] merged(
            tasks,
            edits,
        )[id] == tasks[id] by {
            assert(edit_ids(edits)[edits.len() - 1] == edit.id);
            if edit_ids(front).contains(id) {
                let i = choose|i: int| 0 <= i < edit_ids(front).len() && edit_ids(front)[i] == id;
                assert(edit_ids(edits)[i] == id);
            }
        }
    }
}

/// Of the edits that bear the id of a task, the last one decides what the
/// task becomes.
pub proof fn lemma_last_edit_decides(
    tasks: Map<usize, TaskView>,
    edits: Seq<EditableTaskView>,
    last: int,
)
    requires
        0 <= last < edits.len(),
        tasks.contains_key(edits[last].id),
        forall|i: int| last < i < edits.len() ==> edits[i].id != edits[last].id,
    ensures
        merged(tasks, edits)[edits[last].id] == with_edit(tasks[edits[last].id], edits[last]),
    decreases edits.len(),
{
    let id = edits[last].id;
    let front = edits.drop_last();
    lemma_merged_keeps_tasks(tasks, front);
    if last == edits.len() - 1 {
        lemma_edits_keep_the_rest(tasks, front, id);
    } else {
        lemma_last_edit_decides(tasks, front, last);
    }
}

/// Whatever the edits, a task keeps what no edit can change.
pub proof fn lemma_edits_keep_the_rest(
    tasks: Map<usize, TaskView>,
    edits: Seq<EditableTaskView>,
    id: usize,
)
    requires
        tasks.contains_key(id),
    ensures
        forall|edit: EditableTaskView| #[trigger]
            with_edit(merged(tasks, edits)[id], edit) == with_edit(tasks[id], edit),
    decreases edits.len(),
{
    if edits.len() > 0 {
        lemma_edits_keep_the_rest(tasks, edits.drop_last(), id);
        lemma_merged_keeps_tasks(tasks, edits.drop_last());
        let before = merged(tasks, edits.drop_last());
        assert forall|edit: EditableTaskView| #[trigger]
            with_edit(merged(tasks, edits)[id], edit) == with_edit(tasks[id], edit) by {
            assert(with_edit(before[id], edit) == with_edit(tasks[id], edit));
        }
    }
}

} // verus!
