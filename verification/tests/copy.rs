use pueue::copy::{copy, copy_with, report_lines, CopyError, CopyStep};
use pueue::message::{AddRequest, EditableTask, Response};
use pueue::state::{FilteredTasks, State};
use pueue::task::{Task, TaskResult, TaskStatus};
use pueue::text::OutputLine;

/// A daemon that keeps its tasks in memory and counts what it is asked.
struct Daemon {
    state: State,
    fetches: usize,
    submissions: usize,
    /// The submission, counted from 1, that is refused.
    refuse: Option<usize>,
}

fn daemon() -> Daemon {
    Daemon { state: State::new(), fetches: 0, submissions: 0, refuse: None }
}

fn next_id(state: &State) -> usize {
    match state.task_ids().last() {
        Some(id) => id + 1,
        None => 0,
    }
}

fn add(daemon: &mut Daemon, request: &AddRequest) -> Response {
    daemon.submissions += 1;
    if daemon.refuse == Some(daemon.submissions) {
        return Response::Failure(format!("submission {} was refused", daemon.submissions));
    }
    let id = next_id(&daemon.state);
    let status = if request.stashed {
        TaskStatus::Stashed { enqueue_at: request.enqueue_at }
    } else {
        TaskStatus::Queued { enqueued_at: 0 }
    };
    daemon.state.insert(Task {
        id,
        original_command: request.command.clone(),
        command: request.command.clone(),
        path: request.path.clone(),
        envs: request.envs.clone(),
        group: request.group.clone(),
        dependencies: request.dependencies.clone(),
        priority: request.priority.unwrap_or(0),
        label: request.label.clone(),
        status,
    });
    Response::Success(format!("New task added (id {}).", id))
}

fn request(command: &str, label: Option<&str>, stashed: bool) -> AddRequest {
    AddRequest {
        command: command.to_string(),
        path: "/tmp".to_string(),
        envs: vec![("HOME".to_string(), "/root".to_string())],
        start_immediately: false,
        stashed,
        group: "default".to_string(),
        enqueue_at: None,
        dependencies: vec![],
        priority: None,
        label: label.map(|text| text.to_string()),
    }
}

fn add_task(daemon: &mut Daemon, command: &str) {
    let response = add(daemon, &request(command, None, false));
    assert!(matches!(response, Response::Success(_)));
    daemon.submissions = 0;
}

fn set_status(daemon: &mut Daemon, id: usize, status: TaskStatus) {
    let mut task = daemon.state.get(id).unwrap().clone();
    task.status = status;
    daemon.state.insert(task);
}

fn finish(daemon: &mut Daemon, id: usize) {
    let done = TaskStatus::Done { enqueued_at: 1, start: 2, end: 3, result: TaskResult::Success };
    set_status(daemon, id, done);
}

fn unedited(edits: Vec<EditableTask>) -> Vec<EditableTask> {
    edits
}

/// Does what each step asks for, as a client would.
fn run(
    daemon: &mut Daemon,
    first: CopyStep,
    editor: fn(Vec<EditableTask>) -> Vec<EditableTask>,
) -> Result<FilteredTasks, CopyError> {
    let mut step = first;
    loop {
        step = match step {
            CopyStep::GetState(next) => {
                daemon.fetches += 1;
                let snapshot = daemon.state.clone();
                next.state(&snapshot)
            }
            CopyStep::Edit(next) => {
                let edits = editor(next.editable_tasks());
                next.edited(edits)
            }
            CopyStep::Send(next) => {
                let response = add(daemon, next.request());
                next.response(response)
            }
            CopyStep::Done(filtered) => return Ok(filtered),
            CopyStep::Failed(error) => return Err(error),
        }
    }
}

fn run_copy(daemon: &mut Daemon, ids: &[usize], enqueue: bool) -> Result<FilteredTasks, CopyError> {
    run(daemon, copy(ids.to_vec(), false, enqueue, false), unedited)
}

#[test]
fn copy_simple_task() {
    let mut daemon = daemon();
    add_task(&mut daemon, "echo 'test'");
    finish(&mut daemon, 0);

    run_copy(&mut daemon, &[0], false).unwrap();

    let state = &daemon.state;
    assert_eq!(state.len(), 2, "Should have two tasks after copy");

    let original_task = state.get(0).unwrap();
    assert_eq!(original_task.original_command, "echo 'test'");

    let copied_task = state.get(1).unwrap();
    assert_eq!(copied_task.original_command, "echo 'test'");
    assert_eq!(copied_task.label, Some("(copy from #0)".to_string()));
    assert!(
        matches!(copied_task.status, TaskStatus::Stashed { .. }),
        "Copied task should be stashed by default"
    );
}

#[test]
fn copy_task_with_label() {
    let mut daemon = daemon();
    let response = add(&mut daemon, &request("echo test", Some("my-task"), false));
    assert!(matches!(response, Response::Success(_)));
    finish(&mut daemon, 0);

    run_copy(&mut daemon, &[0], false).unwrap();

    let copied_task = daemon.state.get(1).unwrap();
    assert_eq!(copied_task.label, Some("my-task (copy from #0)".to_string()));
}

#[test]
fn copy_running_task() {
    let mut daemon = daemon();
    add_task(&mut daemon, "sleep 60");
    set_status(&mut daemon, 0, TaskStatus::Running { enqueued_at: 1, start: 2 });
    assert!(daemon.state.get(0).unwrap().is_running());

    run_copy(&mut daemon, &[0], false).unwrap();

    let state = &daemon.state;
    assert_eq!(state.len(), 2, "Should have two tasks after copy");

    let original_task = state.get(0).unwrap();
    let copied_task = state.get(1).unwrap();

    assert!(
        matches!(original_task.status, TaskStatus::Running { .. }),
        "Original task should still be running"
    );

    assert_eq!(copied_task.original_command, "sleep 60");
    assert!(
        matches!(copied_task.status, TaskStatus::Stashed { .. }),
        "Copied task should be stashed by default"
    );
}

#[test]
fn copy_stashed_task() {
    let mut daemon = daemon();
    let response = add(&mut daemon, &request("echo test", None, true));
    assert!(matches!(response, Response::Success(_)));

    let original_task = daemon.state.get(0).unwrap();
    assert!(
        matches!(original_task.status, TaskStatus::Stashed { .. }),
        "Original task should be stashed"
    );

    run_copy(&mut daemon, &[0], false).unwrap();

    let copied_task = daemon.state.get(1).unwrap();
    assert_eq!(copied_task.original_command, "echo test");
    assert!(
        matches!(copied_task.status, TaskStatus::Stashed { .. }),
        "Copied task should be stashed by default"
    );
}

#[test]
fn copy_with_enqueue_flag() {
    let mut daemon = daemon();
    add_task(&mut daemon, "echo 'test'");
    finish(&mut daemon, 0);

    run_copy(&mut daemon, &[0], true).unwrap();

    let copied_task = daemon.state.get(1).unwrap();
    assert!(
        matches!(copied_task.status, TaskStatus::Queued { .. }),
        "Copied task should be queued when using --enqueue flag"
    );
}

#[test]
fn copy_multiple_tasks() {
    let mut daemon = daemon();
    add_task(&mut daemon, "echo 'task1'");
    add_task(&mut daemon, "echo 'task2'");
    add_task(&mut daemon, "echo 'task3'");
    finish(&mut daemon, 0);
    finish(&mut daemon, 1);
    finish(&mut daemon, 2);

    run_copy(&mut daemon, &[0, 1, 2], false).unwrap();

    let state = &daemon.state;
    assert_eq!(state.len(), 6, "Should have six tasks after copying three");

    for i in 0..3 {
        let copied_task = state.get(i + 3).unwrap();
        assert_eq!(copied_task.label, Some(format!("(copy from #{})", i)));
    }
}

#[test]
fn copy_works_for_every_status_and_leaves_the_source_alone() {
    let statuses = vec![
        TaskStatus::Stashed { enqueue_at: None },
        TaskStatus::Stashed { enqueue_at: Some(99) },
        TaskStatus::Queued { enqueued_at: 1 },
        TaskStatus::Running { enqueued_at: 1, start: 2 },
        TaskStatus::Paused { enqueued_at: 1, start: 2 },
        TaskStatus::Done { enqueued_at: 1, start: 2, end: 3, result: TaskResult::Success },
        TaskStatus::Done { enqueued_at: 1, start: 2, end: 3, result: TaskResult::Failed(2) },
    ];
    for status in statuses {
        let mut daemon = daemon();
        add_task(&mut daemon, "make");
        set_status(&mut daemon, 0, status);

        let filtered = run_copy(&mut daemon, &[0], false).unwrap();

        assert_eq!(filtered.matching_ids, vec![0]);
        assert_eq!(filtered.non_matching_ids, Vec::<usize>::new());
        assert_eq!(daemon.state.len(), 2);
        assert_eq!(daemon.submissions, 1);
        assert_eq!(daemon.state.get(0).unwrap().status, status);
        let copied = daemon.state.get(1).unwrap();
        assert_eq!(copied.status, TaskStatus::Stashed { enqueue_at: None });
        assert_eq!(copied.original_command, "make");
    }
}

#[test]
fn the_request_of_a_copy_carries_what_the_source_has() {
    let source = Task {
        id: 7,
        original_command: "ls -l".to_string(),
        command: "ls -l --color".to_string(),
        path: "/srv".to_string(),
        envs: vec![("A".to_string(), "1".to_string()), ("B".to_string(), "2".to_string())],
        group: "build".to_string(),
        dependencies: vec![3, 4],
        priority: -5,
        label: Some("nightly".to_string()),
        status: TaskStatus::Running { enqueued_at: 1, start: 2 },
    };
    let mut state = State::new();
    state.insert(source);

    let step = match copy_with(vec![7], true, None, false) {
        CopyStep::GetState(next) => next.state(&state),
        other => panic!("the snapshot was not asked for: {:?}", other),
    };
    let next = match step {
        CopyStep::Send(next) => next,
        other => panic!("no request was handed out: {:?}", other),
    };

    let expected = AddRequest {
        command: "ls -l".to_string(),
        path: "/srv".to_string(),
        envs: vec![("A".to_string(), "1".to_string()), ("B".to_string(), "2".to_string())],
        start_immediately: true,
        stashed: true,
        group: "build".to_string(),
        enqueue_at: None,
        dependencies: vec![],
        priority: Some(-5),
        label: Some("nightly (copy from #7)".to_string()),
    };
    assert_eq!(next.request(), &expected);
    assert_eq!(next.accepted(), 0);
    assert_eq!(next.copies().len(), 1);
    assert_eq!(next.copies()[0].task.status, TaskStatus::Stashed { enqueue_at: None });
    assert_eq!(next.copies()[0].task.id, 7);
    assert_eq!(next.copies()[0].request, expected);
}

#[test]
fn copies_that_are_enqueued_are_queued_as_of_the_given_time() {
    let mut state = State::new();
    state.insert(task(0, "true"));

    let step = match copy_with(vec![0], false, Some(1_700_000_000_000), false) {
        CopyStep::GetState(next) => next.state(&state),
        other => panic!("the snapshot was not asked for: {:?}", other),
    };
    let next = match step {
        CopyStep::Send(next) => next,
        other => panic!("no request was handed out: {:?}", other),
    };
    assert_eq!(
        next.copies()[0].task.status,
        TaskStatus::Queued { enqueued_at: 1_700_000_000_000 }
    );
    assert!(!next.request().stashed);
    assert_eq!(next.request().enqueue_at, None);
}

#[test]
fn copies_that_are_enqueued_now_are_queued_as_of_the_clock() {
    let mut state = State::new();
    state.insert(task(0, "true"));

    let step = match copy(vec![0], false, true, false) {
        CopyStep::GetState(next) => next.state(&state),
        other => panic!("the snapshot was not asked for: {:?}", other),
    };
    let next = match step {
        CopyStep::Send(next) => next,
        other => panic!("no request was handed out: {:?}", other),
    };
    match next.copies()[0].task.status {
        // The clock of any machine that runs this is past the year 2020.
        TaskStatus::Queued { enqueued_at } => assert!(enqueued_at > 1_577_836_800_000),
        other => panic!("the copy is not queued: {:?}", other),
    }
}

fn task(id: usize, command: &str) -> Task {
    Task {
        id,
        original_command: command.to_string(),
        command: command.to_string(),
        path: "/tmp".to_string(),
        envs: vec![],
        group: "default".to_string(),
        dependencies: vec![],
        priority: 0,
        label: None,
        status: TaskStatus::Queued { enqueued_at: 0 },
    }
}

#[test]
fn copy_without_ids_fails_and_asks_nothing_of_the_daemon() {
    let mut daemon = daemon();
    add_task(&mut daemon, "echo");

    let result = run_copy(&mut daemon, &[], false);

    assert_eq!(result, Err(CopyError::NoTaskIds));
    assert_eq!(daemon.fetches, 0);
    assert_eq!(daemon.submissions, 0);
    assert_eq!(daemon.state.len(), 1);
    assert_eq!(
        CopyError::NoTaskIds.message(),
        "Please provide the ids of the tasks you want to copy."
    );

    let with_flags = run(&mut daemon, copy(vec![], true, true, true), unedited);
    assert_eq!(with_flags, Err(CopyError::NoTaskIds));
    assert_eq!(daemon.fetches, 0);
    assert_eq!(daemon.submissions, 0);
}

#[test]
fn copy_stops_at_the_first_refusal() {
    let mut daemon = daemon();
    add_task(&mut daemon, "echo 'task1'");
    add_task(&mut daemon, "echo 'task2'");
    add_task(&mut daemon, "echo 'task3'");
    daemon.refuse = Some(2);

    let result = run_copy(&mut daemon, &[0, 1, 2], false);

    assert_eq!(result, Err(CopyError::Rejected("submission 2 was refused".to_string())));
    assert_eq!(result.unwrap_err().message(), "submission 2 was refused");
    // The first copy was made and stays, the second was refused, the third was never sent.
    assert_eq!(daemon.submissions, 2);
    assert_eq!(daemon.fetches, 1);
    assert_eq!(daemon.state.len(), 4);
    assert_eq!(daemon.state.get(3).unwrap().label, Some("(copy from #0)".to_string()));
    assert!(daemon.state.get(4).is_none());
}

#[test]
fn copy_counts_what_was_found_and_what_was_not() {
    let mut daemon = daemon();
    add_task(&mut daemon, "a");
    add_task(&mut daemon, "b");
    add_task(&mut daemon, "c");

    let filtered = run_copy(&mut daemon, &[9, 0, 7, 2, 9], false).unwrap();

    assert_eq!(filtered.matching_ids, vec![0, 2]);
    assert_eq!(filtered.non_matching_ids, vec![9, 7, 9]);
    assert_eq!(daemon.submissions, 2);
    assert_eq!(daemon.state.len(), 5);
    assert_eq!(daemon.state.get(3).unwrap().label, Some("(copy from #0)".to_string()));
    assert_eq!(daemon.state.get(4).unwrap().label, Some("(copy from #2)".to_string()));
}

#[test]
fn copy_of_unknown_ids_alone_makes_no_copy() {
    let mut daemon = daemon();
    add_task(&mut daemon, "a");

    let filtered = run_copy(&mut daemon, &[4, 5], false).unwrap();

    assert_eq!(filtered.matching_ids, Vec::<usize>::new());
    assert_eq!(filtered.non_matching_ids, vec![4, 5]);
    assert_eq!(daemon.fetches, 1);
    assert_eq!(daemon.submissions, 0);
    assert_eq!(daemon.state.len(), 1);
}

#[test]
fn copies_are_made_in_ascending_order_and_once_for_each_task() {
    let mut daemon = daemon();
    add_task(&mut daemon, "a");
    add_task(&mut daemon, "b");
    add_task(&mut daemon, "c");

    let filtered = run_copy(&mut daemon, &[2, 0, 2], false).unwrap();

    // The report keeps the order and the repetitions of the request.
    assert_eq!(filtered.matching_ids, vec![2, 0, 2]);
    assert_eq!(filtered.non_matching_ids, Vec::<usize>::new());
    assert_eq!(daemon.submissions, 2);
    assert_eq!(daemon.state.len(), 5);
    assert_eq!(daemon.state.get(3).unwrap().label, Some("(copy from #0)".to_string()));
    assert_eq!(daemon.state.get(4).unwrap().label, Some("(copy from #2)".to_string()));
}

fn rename(edits: Vec<EditableTask>) -> Vec<EditableTask> {
    edits
        .into_iter()
        .map(|mut edit| {
            edit.command = format!("{} --verbose", edit.command);
            edit.label = Some(format!("edited {}", edit.id));
            edit.path = "/var".to_string();
            edit.priority = 3;
            edit.envs = vec![("EDITED".to_string(), "yes".to_string())];
            edit
        })
        .collect()
}

#[test]
fn edits_go_into_the_copies_and_not_into_the_sources() {
    let mut daemon = daemon();
    add_task(&mut daemon, "a");
    add_task(&mut daemon, "b");

    let filtered = run(&mut daemon, copy(vec![1, 0], false, false, true), rename).unwrap();

    assert_eq!(filtered.matching_ids, vec![1, 0]);
    assert_eq!(daemon.state.len(), 4);
    assert_eq!(daemon.state.get(0).unwrap().original_command, "a");
    assert_eq!(daemon.state.get(0).unwrap().label, None);
    assert_eq!(daemon.state.get(1).unwrap().original_command, "b");
    let first = daemon.state.get(2).unwrap();
    assert_eq!(first.original_command, "a --verbose");
    assert_eq!(first.label, Some("edited 0 (copy from #0)".to_string()));
    assert_eq!(first.path, "/var");
    assert_eq!(first.priority, 3);
    assert_eq!(first.envs, vec![("EDITED".to_string(), "yes".to_string())]);
    assert_eq!(first.group, "default");
    let second = daemon.state.get(3).unwrap();
    assert_eq!(second.original_command, "b --verbose");
    assert_eq!(second.label, Some("edited 1 (copy from #1)".to_string()));
}

#[test]
fn the_editable_tasks_come_in_ascending_order() {
    let mut state = State::new();
    state.insert(task(5, "five"));
    state.insert(task(1, "one"));
    state.insert(task(3, "three"));

    let step = match copy_with(vec![5, 3, 8, 1], false, None, true) {
        CopyStep::GetState(next) => next.state(&state),
        other => panic!("the snapshot was not asked for: {:?}", other),
    };
    let next = match step {
        CopyStep::Edit(next) => next,
        other => panic!("nothing is to be edited: {:?}", other),
    };
    let edits = next.editable_tasks();
    let ids: Vec<usize> = edits.iter().map(|edit| edit.id).collect();
    assert_eq!(ids, vec![1, 3, 5]);
    assert_eq!(edits[0], EditableTask::from_task(state.get(1).unwrap()));
    assert_eq!(edits[1].command, "three");
}

fn with_a_stranger(mut edits: Vec<EditableTask>) -> Vec<EditableTask> {
    let mut stranger = edits[0].clone();
    stranger.id = 41;
    let mut second = edits[0].clone();
    second.id = 42;
    edits.push(stranger);
    edits.push(second);
    edits
}

#[test]
fn an_edit_for_an_unknown_task_ends_the_command() {
    let mut daemon = daemon();
    add_task(&mut daemon, "a");

    let result = run(&mut daemon, copy(vec![0], false, false, true), with_a_stranger);

    assert_eq!(result, Err(CopyError::UnexpectedTaskId(41)));
    assert_eq!(
        CopyError::UnexpectedTaskId(41).message(),
        "Found unexpected task id during editing: 41"
    );
    assert_eq!(daemon.submissions, 0);
    assert_eq!(daemon.state.len(), 1);
}

fn twice(mut edits: Vec<EditableTask>) -> Vec<EditableTask> {
    let mut first = edits[0].clone();
    first.command = "first".to_string();
    first.label = Some("first".to_string());
    let mut second = edits[0].clone();
    second.command = "second".to_string();
    edits.clear();
    edits.push(first);
    edits.push(second);
    edits
}

#[test]
fn of_two_edits_for_one_task_the_later_one_decides() {
    let mut daemon = daemon();
    add_task(&mut daemon, "a");

    run(&mut daemon, copy(vec![0], false, false, true), twice).unwrap();

    let copied = daemon.state.get(1).unwrap();
    assert_eq!(copied.original_command, "second");
    assert_eq!(copied.label, Some("(copy from #0)".to_string()));
}

fn dropped(_edits: Vec<EditableTask>) -> Vec<EditableTask> {
    vec![]
}

#[test]
fn copies_that_no_edit_names_are_submitted_as_they_are() {
    let mut daemon = daemon();
    add_task(&mut daemon, "a");

    run(&mut daemon, copy(vec![0], false, false, true), dropped).unwrap();

    assert_eq!(daemon.state.get(1).unwrap().original_command, "a");
}

#[test]
fn the_report_names_what_was_copied_and_what_was_not_found() {
    let both = FilteredTasks { matching_ids: vec![0, 2], non_matching_ids: vec![7] };
    assert_eq!(
        report_lines(&both),
        vec![
            OutputLine::Stdout("Copied tasks: [0, 2]".to_string()),
            OutputLine::Stderr("Couldn't find tasks: [7]".to_string()),
        ]
    );
    let found = FilteredTasks { matching_ids: vec![11], non_matching_ids: vec![] };
    assert_eq!(report_lines(&found), vec![OutputLine::Stdout("Copied tasks: [11]".to_string())]);
    let missing = FilteredTasks { matching_ids: vec![], non_matching_ids: vec![3, 1] };
    assert_eq!(
        report_lines(&missing),
        vec![OutputLine::Stderr("Couldn't find tasks: [3, 1]".to_string())]
    );
    let neither = FilteredTasks { matching_ids: vec![], non_matching_ids: vec![] };
    assert_eq!(report_lines(&neither), Vec::<OutputLine>::new());
}
