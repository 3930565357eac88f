use ghost_commands::cleanup::{cleanup, cleanup_with_conn};
use ghost_commands::error::GhostError;
use ghost_commands::protocol::{Reply, Request, Step};
use ghost_commands::task::{Task, TaskStatus};

fn text(s: &str) -> String {
    s.to_string()
}

fn task() -> Task {
    Task {
        id: text("abcd-full"),
        pid: 42,
        pgid: Some(43),
        command: text("[\"sleep\",\"10\"]"),
        env: Some(text("{\"A\":\"1\"}")),
        cwd: Some(text("/work")),
        status: TaskStatus::Running,
        exit_code: None,
        started_at: 1,
        finished_at: None,
        log_path: text("/logs/abcd.log"),
    }
}

fn other(message: &str) -> GhostError {
    GhostError::Other { message: text(message) }
}

fn ask<S, T>(step: Step<Request, S, T>) -> (Request, S) {
    match step {
        Step::Ask { request, state } => (request, state),
        Step::Done { .. } => panic!("the command has ended"),
    }
}

fn end<S, T>(step: Step<Request, S, T>) -> T {
    match step {
        Step::Done { result } => result,
        Step::Ask { request, .. } => panic!("the command asks for {:?}", request),
    }
}

fn print(s: &str) -> Request {
    Request::Print { text: text(s) }
}

#[test]
fn a_dry_run_shows_what_would_be_deleted() {
    let (request, state) = ask(cleanup(30, None, true, false));
    assert_eq!(request, Request::OpenDatabase);
    let (request, state) = ask(state.resume(Reply::Finished(Ok(()))));
    assert_eq!(
        request,
        Request::FindCleanupCandidates {
            days: Some(30),
            statuses: vec![TaskStatus::Exited, TaskStatus::Killed]
        }
    );
    let (request, state) = ask(state.resume(Reply::Listed(Ok(vec![task(), task()]))));
    assert_eq!(request, print("The following 2 task(s) would be deleted:\n"));
    let (request, state) = ask(state.resume(Reply::Shown));
    assert_eq!(request, Request::ShowTaskList { tasks: vec![task(), task()] });
    let (request, state) = ask(state.resume(Reply::Shown));
    assert_eq!(request, print("\nNote: Only tasks older than 30 days would be deleted.\n"));
    assert_eq!(end(state.resume(Reply::Shown)), Ok(()));
}

#[test]
fn a_dry_run_whatever_the_age() {
    let (request, state) = ask(cleanup_with_conn(30, Some(text("all")), true, true));
    assert_eq!(
        request,
        Request::FindCleanupCandidates {
            days: None,
            statuses: vec![TaskStatus::Exited, TaskStatus::Killed, TaskStatus::Unknown]
        }
    );
    let (_, state) = ask(state.resume(Reply::Listed(Ok(vec![task()]))));
    let (_, state) = ask(state.resume(Reply::Shown));
    let (request, _) = ask(state.resume(Reply::Shown));
    assert_eq!(
        request,
        print(
            "\nNote: --all flag specified, all finished tasks would be deleted regardless of age.\n"
        )
    );
}

#[test]
fn a_dry_run_without_candidates() {
    let (_, state) = ask(cleanup_with_conn(1, None, true, false));
    let (request, state) = ask(state.resume(Reply::Listed(Ok(vec![]))));
    assert_eq!(request, print("No tasks found matching cleanup criteria.\n"));
    assert_eq!(end(state.resume(Reply::Shown)), Ok(()));
}

#[test]
fn a_cleanup_says_what_it_deleted() {
    let (request, state) = ask(cleanup_with_conn(7, Some(text("killed,unknown")), false, false));
    assert_eq!(
        request,
        Request::DeleteTasks {
            days: Some(7),
            statuses: vec![TaskStatus::Killed, TaskStatus::Unknown]
        }
    );
    let (request, state) = ask(state.resume(Reply::Deleted(Ok(12))));
    assert_eq!(request, print("Successfully deleted 12 task(s).\n"));
    let (request, state) = ask(state.resume(Reply::Shown));
    assert_eq!(request, print("Deleted tasks older than 7 days with status: killed, unknown.\n"));
    assert_eq!(end(state.resume(Reply::Shown)), Ok(()));
}

#[test]
fn a_cleanup_whatever_the_age() {
    let (request, state) = ask(cleanup_with_conn(7, None, false, true));
    assert_eq!(
        request,
        Request::DeleteTasks { days: None, statuses: vec![TaskStatus::Exited, TaskStatus::Killed] }
    );
    let (_, state) = ask(state.resume(Reply::Deleted(Ok(1))));
    let (request, _) = ask(state.resume(Reply::Shown));
    assert_eq!(request, print("Deleted all finished tasks regardless of age.\n"));
}

#[test]
fn a_cleanup_that_finds_nothing() {
    let (_, state) = ask(cleanup_with_conn(7, None, false, false));
    let (request, state) = ask(state.resume(Reply::Deleted(Ok(0))));
    assert_eq!(request, print("No tasks found matching cleanup criteria.\n"));
    assert_eq!(end(state.resume(Reply::Shown)), Ok(()));
}

#[test]
fn a_wrong_filter_is_refused_before_anything_is_asked() {
    let refused =
        Err(GhostError::InvalidArgument { message: text("Cannot cleanup running tasks") });
    assert_eq!(end(cleanup_with_conn(7, Some(text("running")), false, true)), refused);
    let (_, state) = ask(cleanup(7, Some(text("running")), false, true));
    assert_eq!(end(state.resume(Reply::Finished(Ok(())))), refused);
}

#[test]
fn failures_end_a_cleanup() {
    let (_, state) = ask(cleanup(7, None, false, true));
    assert_eq!(end(state.resume(Reply::Finished(Err(other("a"))))), Err(other("a")));
    let (_, state) = ask(cleanup_with_conn(7, None, false, true));
    assert_eq!(end(state.resume(Reply::Deleted(Err(other("b"))))), Err(other("b")));
    let (_, state) = ask(cleanup_with_conn(7, None, true, true));
    assert_eq!(end(state.resume(Reply::Listed(Err(other("c"))))), Err(other("c")));
}
