use ghost_commands::error::GhostError;
use ghost_commands::protocol::{Reply, Request, Step};
use ghost_commands::restart::{
    plan_restart, prepare_restart, restart, RestartStage, RestartState,
};
use ghost_commands::task::{ProcessInfo, Task, TaskStatus};

const ID: &str = "abcd";

fn text(s: &str) -> String {
    s.to_string()
}

fn task() -> Task {
    Task {
        id: text("abcd-full"),
        pid: 42,
        pgid: Some(43),
        command: text("[\"sleep\",\"10\"]"),
        env: Some(text("{\"A\":\"1\"}")),
        cwd: Some(text("/work")),
        status: TaskStatus::Running,
        exit_code: None,
        started_at: 1,
        finished_at: None,
        log_path: text("/logs/abcd.log"),
    }
}

fn other(message: &str) -> GhostError {
    GhostError::Other { message: text(message) }
}

fn ask<S, T>(step: Step<Request, S, T>) -> (Request, S) {
    match step {
        Step::Ask { request, state } => (request, state),
        Step::Done { .. } => panic!("the command has ended"),
    }
}

fn end<S, T>(step: Step<Request, S, T>) -> T {
    match step {
        Step::Done { result } => result,
        Step::Ask { request, .. } => panic!("the command asks for {:?}", request),
    }
}

fn info() -> ProcessInfo {
    ProcessInfo {
        id: text("new-id"),
        pid: 7,
        pgid: 8,
        env: vec![(text("A"), text("1"))],
        log_path: b"/logs/new.log".to_vec(),
    }
}

fn sleep() -> Vec<String> {
    vec![text("sleep"), text("10")]
}

fn print(s: &str) -> Request {
    Request::Print { text: text(s) }
}

fn probing(force: bool) -> RestartState {
    let (request, state) =
        ask(prepare_restart(text(ID), force, task(), vec![text("A=1")]));
    assert_eq!(request, Request::ProcessExists { pid: 42 });
    state
}

fn marked() -> Request {
    Request::UpdateStatus { id: text("abcd-full"), status: TaskStatus::Killed, exit_code: None }
}

#[test]
fn restarting_a_running_task() {
    let (request, state) = ask(restart(ID, false));
    assert_eq!(request, Request::OpenDatabase);
    let (request, state) = ask(state.resume(Reply::Finished(Ok(()))));
    assert_eq!(request, Request::GetTaskByShortId { id: text(ID) });
    let (request, state) = ask(state.resume(Reply::Found(Ok(task()))));
    assert_eq!(request, Request::ProcessExists { pid: 42 });
    let (request, state) = ask(state.resume(Reply::Exists(true)));
    assert_eq!(request, print("Stopping task abcd...\n"));
    let (request, state) = ask(state.resume(Reply::Shown));
    assert_eq!(
        request,
        Request::KillAndWait { pid: 42, pgid: Some(43), force: false, seconds: 5 }
    );
    let (request, state) = ask(state.resume(Reply::Waited(Ok(true))));
    assert_eq!(request, marked());
    let (request, state) = ask(state.resume(Reply::Finished(Ok(()))));
    assert_eq!(request, print("Starting task abcd...\n"));
    let (request, state) = ask(state.resume(Reply::Shown));
    assert_eq!(request, Request::ReadShellVariable);
    let (request, state) = ask(state.resume(Reply::Shell(None)));
    assert_eq!(request, Request::ParseEnvVars { env: vec![text("A=1")] });
    let (request, state) = ask(state.resume(Reply::EnvVars(Ok(vec![(text("A"), text("1"))]))));
    assert_eq!(
        request,
        Request::SpawnProcess {
            command: vec![text("/bin/bash"), text("-lc"), text("sleep 10")],
            cwd: Some(b"/work".to_vec()),
            log_dir: None,
            env_vars: vec![(text("A"), text("1"))],
        }
    );
    let (request, state) = ask(state.resume(Reply::Spawned(Ok(info()))));
    assert_eq!(
        request,
        Request::InsertTask {
            id: text("new-id"),
            pid: 7,
            pgid: Some(8),
            command: sleep(),
            env: Some(vec![(text("A"), text("1"))]),
            cwd: Some(b"/work".to_vec()),
            log_path: b"/logs/new.log".to_vec(),
        }
    );
    let (request, state) = ask(state.resume(Reply::Finished(Ok(()))));
    assert_eq!(request, Request::WaitForStart { pid: 7, seconds: 2 });
    let (request, state) = ask(state.resume(Reply::Waited(Ok(true))));
    assert!(matches!(request, Request::ShowProcessStarted { .. }));
    let (request, state) = ask(state.resume(Reply::Shown));
    assert_eq!(request, Request::ReapChild);
    let (request, state) = ask(state.resume(Reply::Shown));
    assert_eq!(request, print("Task abcd has been restarted successfully\n"));
    assert_eq!(end(state.resume(Reply::Shown)), Ok(()));
}

#[test]
fn a_task_that_is_not_running_is_only_started() {
    let (request, state) = ask(probing(true).resume(Reply::Exists(false)));
    assert_eq!(request, print("Starting task abcd...\n"));
    let (request, state) = ask(state.resume(Reply::Shown));
    assert_eq!(request, Request::ReadShellVariable);
    let (_, state) = ask(state.resume(Reply::Shell(None)));
    let (_, state) = ask(state.resume(Reply::EnvVars(Ok(vec![]))));
    let (_, state) = ask(state.resume(Reply::Spawned(Ok(info()))));
    let (_, state) = ask(state.resume(Reply::Finished(Ok(()))));
    let (_, state) = ask(state.resume(Reply::Waited(Ok(true))));
    let (_, state) = ask(state.resume(Reply::Shown));
    let (request, _) = ask(state.resume(Reply::Shown));
    assert_eq!(request, print("Task abcd has been rerun successfully\n"));
}

#[test]
fn a_process_that_does_not_end_is_forced_to() {
    for forced in [Ok(true), Ok(false), Err(other("denied"))] {
        let (_, state) = ask(probing(false).resume(Reply::Exists(true)));
        let (_, state) = ask(state.resume(Reply::Shown));
        let (request, state) = ask(state.resume(Reply::Waited(Ok(false))));
        assert_eq!(request, print("Process did not terminate gracefully, forcing kill...\n"));
        let (request, state) = ask(state.resume(Reply::Shown));
        assert_eq!(
            request,
            Request::KillAndWait { pid: 42, pgid: Some(43), force: true, seconds: 2 }
        );
        let (request, _) = ask(state.resume(Reply::Waited(forced)));
        assert_eq!(request, marked());
    }
}

#[test]
fn a_forced_restart_does_not_force_twice() {
    let (_, state) = ask(probing(true).resume(Reply::Exists(true)));
    let (request, state) = ask(state.resume(Reply::Shown));
    assert_eq!(
        request,
        Request::KillAndWait { pid: 42, pgid: Some(43), force: true, seconds: 5 }
    );
    let (request, _) = ask(state.resume(Reply::Waited(Ok(false))));
    assert_eq!(request, marked());
}

#[test]
fn failures_before_the_start_end_a_restart() {
    let (_, state) = ask(restart(ID, false));
    assert_eq!(end(state.resume(Reply::Finished(Err(other("a"))))), Err(other("a")));
    let (_, state) = ask(probing(false).resume(Reply::Exists(true)));
    let (_, state) = ask(state.resume(Reply::Shown));
    assert_eq!(end(state.resume(Reply::Waited(Err(other("b"))))), Err(other("b")));
}

#[test]
fn a_failure_to_start_is_quoted() {
    let (_, state) = ask(probing(false).resume(Reply::Exists(false)));
    let (_, state) = ask(state.resume(Reply::Shown));
    let (_, state) = ask(state.resume(Reply::Shell(None)));
    let (request, state) = ask(state.resume(Reply::EnvVars(Err(other("bad")))));
    assert_eq!(request, Request::DescribeError { error: other("bad") });
    assert_eq!(
        end(state.resume(Reply::Described(text("it is bad")))),
        Err(GhostError::InvalidArgument { message: text("Failed to restart task: it is bad") })
    );
}

#[test]
fn an_empty_stored_command_fails_at_the_start() {
    let empty = Task { command: text("[]"), ..task() };
    let (_, state) = ask(prepare_restart(text(ID), false, empty, vec![]));
    let (_, state) = ask(state.resume(Reply::Exists(false)));
    let (request, _) = ask(state.resume(Reply::Shown));
    assert_eq!(
        request,
        Request::DescribeError {
            error: GhostError::InvalidArgument { message: text("No command specified") }
        }
    );
}

#[test]
fn a_stored_command_that_cannot_be_read_is_refused() {
    let broken = Task { command: text("sleep 10"), ..task() };
    let (_, state) = ask(restart(ID, false));
    let (_, state) = ask(state.resume(Reply::Finished(Ok(()))));
    assert_eq!(
        end(state.resume(Reply::Found(Ok(broken)))),
        Err(GhostError::InvalidArgument {
            message: text("Failed to parse command: expected value at line 1 column 1")
        })
    );
}

#[test]
fn a_stored_environment_that_cannot_be_read_is_dropped() {
    let broken = Task { env: Some(text("nonsense")), cwd: None, ..task() };
    let (_, state) = ask(restart(ID, false));
    let (_, state) = ask(state.resume(Reply::Finished(Ok(()))));
    let (_, state) = ask(state.resume(Reply::Found(Ok(broken))));
    let (_, state) = ask(state.resume(Reply::Exists(false)));
    let (_, state) = ask(state.resume(Reply::Shown));
    let (request, state) = ask(state.resume(Reply::Shell(None)));
    assert_eq!(request, Request::ParseEnvVars { env: vec![] });
    let (request, _) = ask(state.resume(Reply::EnvVars(Ok(vec![]))));
    assert_eq!(request, Request::ReadCurrentDir);
}

/// Runs from the announcement of a start without a stored directory to the end.
fn started_elsewhere(state: RestartState) -> (Request, RestartState) {
    let (request, state) = ask(state.resume(Reply::Shown));
    assert_eq!(request, Request::ReadShellVariable);
    let (_, state) = ask(state.resume(Reply::Shell(None)));
    let (request, state) = ask(state.resume(Reply::EnvVars(Ok(vec![]))));
    assert_eq!(request, Request::ReadCurrentDir);
    let (request, state) = ask(state.resume(Reply::CurrentDir(Some(b"/here".to_vec()))));
    assert_eq!(
        request,
        Request::SpawnProcess {
            command: vec![text("/bin/bash"), text("-lc"), text("sleep 10")],
            cwd: Some(b"/here".to_vec()),
            log_dir: None,
            env_vars: vec![],
        }
    );
    let (_, state) = ask(state.resume(Reply::Spawned(Ok(info()))));
    let (_, state) = ask(state.resume(Reply::Finished(Ok(()))));
    let (_, state) = ask(state.resume(Reply::Waited(Ok(true))));
    let (_, state) = ask(state.resume(Reply::Shown));
    ask(state.resume(Reply::Shown))
}

#[test]
fn a_forced_end_without_a_stored_directory() {
    let roaming = Task { cwd: None, ..task() };
    let (_, state) = ask(prepare_restart(text(ID), false, roaming, vec![]));
    let (_, state) = ask(state.resume(Reply::Exists(true)));
    let (_, state) = ask(state.resume(Reply::Shown));
    let (_, state) = ask(state.resume(Reply::Waited(Ok(false))));
    let (_, state) = ask(state.resume(Reply::Shown));
    let (_, state) = ask(state.resume(Reply::Waited(Err(other("denied")))));
    let (request, state) = ask(state.resume(Reply::Finished(Ok(()))));
    assert_eq!(request, print("Starting task abcd...\n"));
    let (request, state) = started_elsewhere(state);
    assert_eq!(request, print("Task abcd has been restarted successfully\n"));
    assert_eq!(end(state.resume(Reply::Shown)), Ok(()));
}

#[test]
fn a_rerun_without_a_stored_directory() {
    let roaming = Task { cwd: None, ..task() };
    let (_, state) = ask(prepare_restart(text(ID), false, roaming, vec![]));
    let (_, state) = ask(state.resume(Reply::Exists(false)));
    let (request, state) = started_elsewhere(state);
    assert_eq!(request, print("Task abcd has been rerun successfully\n"));
    assert_eq!(end(state.resume(Reply::Shown)), Ok(()));
}

#[test]
fn a_task_found_by_the_second_search_is_restarted() {
    let full = "12345678-1234-1234-1234-123456789abc";
    let missing = GhostError::TaskNotFound { task_id: text(full) };
    let (_, state) = ask(restart(full, false));
    let (request, state) = ask(state.resume(Reply::Finished(Ok(()))));
    assert_eq!(request, Request::GetTask { id: text(full) });
    let (request, state) = ask(state.resume(Reply::Found(Err(missing))));
    assert_eq!(request, Request::GetTaskByShortId { id: text(full) });
    let (request, _) = ask(state.resume(Reply::Found(Ok(task()))));
    assert_eq!(request, Request::ProcessExists { pid: 42 });
}

#[test]
fn what_is_planned_for_a_task() {
    let env = vec![text("A=1")];
    let (request, state) = ask(plan_restart(text(ID), true, task(), Ok(sleep()), env.clone()));
    assert_eq!(request, Request::ProcessExists { pid: 42 });
    match state.stage {
        RestartStage::Probing { plan } => {
            assert_eq!(plan.id, "abcd-full");
            assert_eq!((plan.pid, plan.pgid), (42, Some(43)));
            assert_eq!(plan.command, sleep());
            assert_eq!(plan.cwd, Some(b"/work".to_vec()));
            assert_eq!(plan.env, env);
        }
        _ => panic!("the process is not looked for"),
    }
    let refused = plan_restart(text(ID), true, task(), Err(other("bad")), env);
    assert_eq!(end(refused), Err(other("bad")));
}
