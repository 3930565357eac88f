use ghost_commands::error::GhostError;
use ghost_commands::list::{list, list_with_conn};
use ghost_commands::protocol::{Reply, Request, Step};
use ghost_commands::status::{status, status_with_conn};
use ghost_commands::task::{Task, TaskStatus};

const ID: &str = "abcd";

fn text(s: &str) -> String {
    s.to_string()
}

fn task() -> Task {
    Task {
        id: text("abcd-full"),
        pid: 42,
        pgid: Some(43),
        command: text("[\"sleep\",\"10\"]"),
        env: Some(text("{\"A\":\"1\"}")),
        cwd: Some(text("/work")),
        status: TaskStatus::Running,
        exit_code: None,
        started_at: 1,
        finished_at: None,
        log_path: text("/logs/abcd.log"),
    }
}

fn other(message: &str) -> GhostError {
    GhostError::Other { message: text(message) }
}

fn ask<S, T>(step: Step<Request, S, T>) -> (Request, S) {
    match step {
        Step::Ask { request, state } => (request, state),
        Step::Done { .. } => panic!("the command has ended"),
    }
}

fn end<S, T>(step: Step<Request, S, T>) -> T {
    match step {
        Step::Done { result } => result,
        Step::Ask { request, .. } => panic!("the command asks for {:?}", request),
    }
}

#[test]
fn listing_shows_the_tasks() {
    let (request, state) = ask(list(Some(text("bogus")), true));
    assert_eq!(request, Request::OpenDatabase);
    let (request, state) = ask(state.resume(Reply::Finished(Ok(()))));
    assert_eq!(request, Request::ListTasks { status_filter: Some(text("bogus")), show_all: true });
    let (request, state) = ask(state.resume(Reply::Listed(Ok(vec![task(), task()]))));
    assert_eq!(request, Request::ShowTaskList { tasks: vec![task(), task()] });
    assert_eq!(end(state.resume(Reply::Shown)), Ok(()));
}

#[test]
fn listing_with_an_open_store_returns_the_tasks() {
    let (_, state) = ask(list_with_conn(None, true, true));
    let (request, state) = ask(state.resume(Reply::Listed(Ok(vec![task(), task()]))));
    assert_eq!(request, Request::ShowTaskList { tasks: vec![task(), task()] });
    assert_eq!(end(state.resume(Reply::Shown)), Ok(vec![task(), task()]));
}

#[test]
fn listing_quietly() {
    let (request, state) = ask(list_with_conn(None, false, false));
    assert_eq!(request, Request::ListTasks { status_filter: None, show_all: false });
    assert_eq!(end(state.resume(Reply::Listed(Ok(vec![])))), Ok(vec![]));
}

#[test]
fn failures_end_a_listing() {
    let (_, state) = ask(list(None, false));
    assert_eq!(end(state.resume(Reply::Finished(Err(other("a"))))), Err(other("a")));
    let (_, state) = ask(list_with_conn(None, false, true));
    assert_eq!(end(state.resume(Reply::Listed(Err(other("b"))))), Err(other("b")));
}

#[test]
fn the_status_is_checked_by_the_id_of_the_task() {
    let checked = Task { status: TaskStatus::Exited, exit_code: Some(0), ..task() };
    let (request, state) = ask(status(ID));
    assert_eq!(request, Request::OpenDatabase);
    let (request, state) = ask(state.resume(Reply::Finished(Ok(()))));
    assert_eq!(request, Request::GetTaskByShortId { id: text(ID) });
    let (request, state) = ask(state.resume(Reply::Found(Ok(task()))));
    assert_eq!(request, Request::RefreshTask { id: text("abcd-full") });
    let (request, state) = ask(state.resume(Reply::Found(Ok(checked.clone()))));
    assert_eq!(request, Request::ShowTaskDetails { task: checked.clone() });
    assert_eq!(end(state.resume(Reply::Shown)), Ok(()));
}

#[test]
fn the_status_with_an_open_store_returns_the_task() {
    let checked = Task { status: TaskStatus::Exited, exit_code: Some(0), ..task() };
    let (_, state) = ask(status_with_conn(ID, true));
    let (_, state) = ask(state.resume(Reply::Found(Ok(task()))));
    let (_, state) = ask(state.resume(Reply::Found(Ok(checked.clone()))));
    assert_eq!(end(state.resume(Reply::Shown)), Ok(checked));
}

#[test]
fn the_status_of_a_full_id_that_is_the_beginning_of_one() {
    let full = "12345678-1234-1234-1234-123456789abc";
    let missing = GhostError::TaskNotFound { task_id: text(full) };
    let (request, state) = ask(status_with_conn(full, false));
    assert_eq!(request, Request::GetTask { id: text(full) });
    let (request, state) = ask(state.resume(Reply::Found(Err(missing))));
    assert_eq!(request, Request::GetTaskByShortId { id: text(full) });
    let (request, state) = ask(state.resume(Reply::Found(Ok(task()))));
    assert_eq!(request, Request::RefreshTask { id: text("abcd-full") });
    assert_eq!(end(state.resume(Reply::Found(Ok(task())))), Ok(task()));
}

#[test]
fn the_status_without_output() {
    let (_, state) = ask(status_with_conn(ID, false));
    let (_, state) = ask(state.resume(Reply::Found(Ok(task()))));
    assert_eq!(end(state.resume(Reply::Found(Ok(task())))), Ok(task()));
}

#[test]
fn failures_end_a_status_check() {
    let (_, state) = ask(status(ID));
    assert_eq!(end(state.resume(Reply::Finished(Err(other("a"))))), Err(other("a")));
    let (_, state) = ask(status_with_conn(ID, true));
    assert_eq!(end(state.resume(Reply::Found(Err(other("b"))))), Err(other("b")));
    let (_, state) = ask(status_with_conn(ID, true));
    let (_, state) = ask(state.resume(Reply::Found(Ok(task()))));
    assert_eq!(end(state.resume(Reply::Found(Err(other("c"))))), Err(other("c")));
}
