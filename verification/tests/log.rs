use ghost_commands::error::GhostError;
use ghost_commands::log::{log, log_with_conn};
use ghost_commands::protocol::{Reply, Request, Step};
use ghost_commands::task::{Task, TaskStatus};

const ID: &str = "abcd";

fn text(s: &str) -> String {
    s.to_string()
}

fn task() -> Task {
    Task {
        id: text("abcd-full"),
        pid: 42,
        pgid: Some(43),
        command: text("[\"sleep\",\"10\"]"),
        env: Some(text("{\"A\":\"1\"}")),
        cwd: Some(text("/work")),
        status: TaskStatus::Running,
        exit_code: None,
        started_at: 1,
        finished_at: None,
        log_path: text("/logs/abcd.log"),
    }
}

fn other(message: &str) -> GhostError {
    GhostError::Other { message: text(message) }
}

fn ask<S, T>(step: Step<Request, S, T>) -> (Request, S) {
    match step {
        Step::Ask { request, state } => (request, state),
        Step::Done { .. } => panic!("the command has ended"),
    }
}

fn end<S, T>(step: Step<Request, S, T>) -> T {
    match step {
        Step::Done { result } => result,
        Step::Ask { request, .. } => panic!("the command asks for {:?}", request),
    }
}

#[test]
fn a_long_log_is_printed_in_part() {
    let (request, state) = ask(log(ID, false, false, 1, 1));
    assert_eq!(request, Request::OpenDatabase);
    let (request, state) = ask(state.resume(Reply::Finished(Ok(()))));
    assert_eq!(request, Request::GetTaskByShortId { id: text(ID) });
    let (request, state) = ask(state.resume(Reply::Found(Ok(task()))));
    assert_eq!(request, Request::ReadLog { path: text("/logs/abcd.log") });
    let (request, state) = ask(state.resume(Reply::LogText(Ok(text("1\n2\n3\n4\n")))));
    let shown = text("1\n\n... 2 lines omitted ...\n\n4\n");
    assert_eq!(request, Request::Print { text: shown });
    assert_eq!(end(state.resume(Reply::Shown)), Ok(()));
}

#[test]
fn the_whole_log_without_output() {
    let (_, state) = ask(log_with_conn(ID, false, true, 0, 0, false));
    let (_, state) = ask(state.resume(Reply::Found(Ok(task()))));
    assert_eq!(end(state.resume(Reply::LogText(Ok(text("1\n2"))))), Ok(text("1\n2")));
}

#[test]
fn a_log_that_is_printed_with_an_open_store_is_returned() {
    let (_, state) = ask(log_with_conn(ID, false, false, 1, 1, true));
    let (_, state) = ask(state.resume(Reply::Found(Ok(task()))));
    let (_, state) = ask(state.resume(Reply::LogText(Ok(text("1\n2\n3\n4\n")))));
    let shown = text("1\n\n... 2 lines omitted ...\n\n4\n");
    assert_eq!(end(state.resume(Reply::Shown)), Ok(shown));
}

#[test]
fn the_log_of_a_full_id_that_is_the_beginning_of_one() {
    let full = "12345678-1234-1234-1234-123456789abc";
    let missing = GhostError::TaskNotFound { task_id: text(full) };
    let (_, state) = ask(log_with_conn(full, false, true, 0, 0, false));
    let (request, state) = ask(state.resume(Reply::Found(Err(missing))));
    assert_eq!(request, Request::GetTaskByShortId { id: text(full) });
    let (request, state) = ask(state.resume(Reply::Found(Ok(task()))));
    assert_eq!(request, Request::ReadLog { path: text("/logs/abcd.log") });
    assert_eq!(end(state.resume(Reply::LogText(Ok(text("1"))))), Ok(text("1")));
}

#[test]
fn following_a_log() {
    let (_, state) = ask(log_with_conn(ID, true, false, 1, 1, true));
    let (_, state) = ask(state.resume(Reply::Found(Ok(task()))));
    let (request, state) = ask(state.resume(Reply::LogText(Ok(text("1\n2\n3\n4\n")))));
    assert_eq!(
        request,
        Request::ShowFollowHeader { task_id: text(ID), log_path: text("/logs/abcd.log") }
    );
    let (request, state) = ask(state.resume(Reply::Shown));
    assert_eq!(request, Request::FollowLog { path: text("/logs/abcd.log") });
    assert_eq!(end(state.resume(Reply::Finished(Ok(())))), Ok(text("1\n2\n3\n4\n")));
}

#[test]
fn following_without_output_only_reads() {
    let (_, state) = ask(log_with_conn(ID, true, false, usize::MAX, 1, false));
    let (_, state) = ask(state.resume(Reply::Found(Ok(task()))));
    assert_eq!(end(state.resume(Reply::LogText(Ok(text("1\n2\n"))))), Ok(text("1\n2\n")));
}

#[test]
fn a_log_that_cannot_be_read() {
    let (_, state) = ask(log_with_conn(ID, false, false, 1, 1, true));
    let (_, state) = ask(state.resume(Reply::Found(Ok(task()))));
    assert_eq!(
        end(state.resume(Reply::LogText(Err(text("No such file"))))),
        Err(GhostError::InvalidArgument { message: text("Failed to read log file: No such file") })
    );
}

#[test]
fn failures_end_a_log() {
    let (_, state) = ask(log(ID, false, false, 1, 1));
    assert_eq!(end(state.resume(Reply::Finished(Err(other("a"))))), Err(other("a")));
    let (_, state) = ask(log_with_conn(ID, true, false, 1, 1, true));
    let (_, state) = ask(state.resume(Reply::Found(Ok(task()))));
    let (_, state) = ask(state.resume(Reply::LogText(Ok(text("1")))));
    let (_, state) = ask(state.resume(Reply::Shown));
    assert_eq!(end(state.resume(Reply::Finished(Err(other("b"))))), Err(other("b")));
}

#[test]
fn output_does_not_change_a_log() {
    for all in [false, true] {
        let content = text("1\n2\n3\n4\n");
        let (_, state) = ask(log_with_conn(ID, false, all, 1, 1, true));
        let (_, state) = ask(state.resume(Reply::Found(Ok(task()))));
        let (request, state) = ask(state.resume(Reply::LogText(Ok(content.clone()))));
        let loud = end(state.resume(Reply::Shown));
        let (_, state) = ask(log_with_conn(ID, false, all, 1, 1, false));
        let (_, state) = ask(state.resume(Reply::Found(Ok(task()))));
        let quiet = end(state.resume(Reply::LogText(Ok(content))));
        assert_eq!(loud, quiet);
        assert_eq!(request, Request::Print { text: quiet.unwrap() });
    }
}
