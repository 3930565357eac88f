use ghost_commands::error::GhostError;
use ghost_commands::protocol::{Reply, Request, Step};
use ghost_commands::stop::{stop, stop_with_conn};
use ghost_commands::task::{Task, TaskStatus};

const ID: &str = "abcd";

fn text(s: &str) -> String {
    s.to_string()
}

fn task() -> Task {
    Task {
        id: text("abcd-full"),
        pid: 42,
        pgid: Some(43),
        command: text("[\"sleep\",\"10\"]"),
        env: Some(text("{\"A\":\"1\"}")),
        cwd: Some(text("/work")),
        status: TaskStatus::Running,
        exit_code: None,
        started_at: 1,
        finished_at: None,
        log_path: text("/logs/abcd.log"),
    }
}

fn other(message: &str) -> GhostError {
    GhostError::Other { message: text(message) }
}

fn ask<S, T>(step: Step<Request, S, T>) -> (Request, S) {
    match step {
        Step::Ask { request, state } => (request, state),
        Step::Done { .. } => panic!("the command has ended"),
    }
}

fn end<S, T>(step: Step<Request, S, T>) -> T {
    match step {
        Step::Done { result } => result,
        Step::Ask { request, .. } => panic!("the command asks for {:?}", request),
    }
}

#[test]
fn stopping_a_task_from_the_beginning_to_the_end() {
    let (request, state) = ask(stop(ID, false, true));
    assert_eq!(request, Request::OpenDatabase);
    let (request, state) = ask(state.resume(Reply::Finished(Ok(()))));
    assert_eq!(request, Request::GetTaskByShortId { id: text(ID) });
    let (request, state) = ask(state.resume(Reply::Found(Ok(task()))));
    assert_eq!(request, Request::CheckRunning { task: task() });
    let (request, state) = ask(state.resume(Reply::Finished(Ok(()))));
    assert_eq!(request, Request::KillGroup { pgid: 43, force: false });
    let (request, state) = ask(state.resume(Reply::Finished(Ok(()))));
    assert_eq!(
        request,
        Request::UpdateStatus { id: text("abcd-full"), status: TaskStatus::Exited, exit_code: None }
    );
    let (request, state) = ask(state.resume(Reply::Finished(Ok(()))));
    assert_eq!(request, Request::Print { text: text("Process abcd (42) has been exited\n") });
    assert_eq!(end(state.resume(Reply::Shown)), Ok(()));
}

#[test]
fn forcing_a_task_without_a_group_to_stop_quietly() {
    let (request, state) = ask(stop_with_conn(ID, true, false));
    assert_eq!(request, Request::GetTaskByShortId { id: text(ID) });
    let single = Task { pgid: None, ..task() };
    let (_, state) = ask(state.resume(Reply::Found(Ok(single))));
    let (request, state) = ask(state.resume(Reply::Finished(Ok(()))));
    assert_eq!(request, Request::Kill { pid: 42, force: true });
    let (request, state) = ask(state.resume(Reply::Finished(Ok(()))));
    assert_eq!(
        request,
        Request::UpdateStatus { id: text("abcd-full"), status: TaskStatus::Killed, exit_code: None }
    );
    assert_eq!(end(state.resume(Reply::Finished(Ok(())))), Ok(()));
}

#[test]
fn what_is_said_of_a_forced_stop() {
    let (_, state) = ask(stop_with_conn(ID, true, true));
    let (_, state) = ask(state.resume(Reply::Found(Ok(task()))));
    let (_, state) = ask(state.resume(Reply::Finished(Ok(()))));
    let (_, state) = ask(state.resume(Reply::Finished(Ok(()))));
    let (request, _) = ask(state.resume(Reply::Finished(Ok(()))));
    assert_eq!(request, Request::Print { text: text("Process abcd (42) has been killed\n") });
}

#[test]
fn a_task_that_is_not_running_is_not_killed() {
    let (_, state) = ask(stop_with_conn(ID, true, true));
    let (_, state) = ask(state.resume(Reply::Found(Ok(task()))));
    assert_eq!(
        end(state.resume(Reply::Finished(Err(other("not running"))))),
        Err(other("not running"))
    );
}

#[test]
fn failures_end_a_stop() {
    let (_, state) = ask(stop(ID, false, true));
    assert_eq!(end(state.resume(Reply::Finished(Err(other("closed"))))), Err(other("closed")));

    let (_, state) = ask(stop_with_conn(ID, false, true));
    assert_eq!(end(state.resume(Reply::Found(Err(other("lost"))))), Err(other("lost")));

    let (_, state) = ask(stop_with_conn(ID, false, true));
    let (_, state) = ask(state.resume(Reply::Found(Ok(task()))));
    let (_, state) = ask(state.resume(Reply::Finished(Ok(()))));
    assert_eq!(end(state.resume(Reply::Finished(Err(other("denied"))))), Err(other("denied")));

    let (_, state) = ask(stop_with_conn(ID, false, true));
    let (_, state) = ask(state.resume(Reply::Found(Ok(task()))));
    let (_, state) = ask(state.resume(Reply::Finished(Ok(()))));
    let (_, state) = ask(state.resume(Reply::Finished(Ok(()))));
    assert_eq!(end(state.resume(Reply::Finished(Err(other("full"))))), Err(other("full")));
}

#[test]
fn a_full_id_falls_back_to_a_short_one_once() {
    let full = "12345678-1234-1234-1234-123456789abc";
    let missing = GhostError::TaskNotFound { task_id: text(full) };
    let (request, state) = ask(stop_with_conn(full, false, false));
    assert_eq!(request, Request::GetTask { id: text(full) });
    let (request, state) = ask(state.resume(Reply::Found(Err(missing.clone()))));
    assert_eq!(request, Request::GetTaskByShortId { id: text(full) });
    assert_eq!(end(state.resume(Reply::Found(Err(missing.clone())))), Err(missing));
}

#[test]
fn a_task_found_by_the_second_search_is_stopped() {
    let full = "12345678-1234-1234-1234-123456789abc";
    let missing = GhostError::TaskNotFound { task_id: text(full) };
    let (_, state) = ask(stop_with_conn(full, false, false));
    let (_, state) = ask(state.resume(Reply::Found(Err(missing))));
    let (request, state) = ask(state.resume(Reply::Found(Ok(task()))));
    assert!(matches!(request, Request::CheckRunning { .. }));
    let (_, state) = ask(state.resume(Reply::Finished(Ok(()))));
    let (_, state) = ask(state.resume(Reply::Finished(Ok(()))));
    assert_eq!(end(state.resume(Reply::Finished(Ok(())))), Ok(()));
}
