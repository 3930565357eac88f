use ghost_commands::error::GhostError;
use ghost_commands::protocol::{Reply, Request, Step};
use ghost_commands::spawn::{
    ensure_process_started, spawn, spawn_and_register_process, spawn_with_conn,
    spawn_with_shell_wrapper, SpawnJob,
};
use ghost_commands::task::{ProcessInfo, TaskStatus};

fn text(s: &str) -> String {
    s.to_string()
}

fn other(message: &str) -> GhostError {
    GhostError::Other { message: text(message) }
}

fn ask<S, T>(step: Step<Request, S, T>) -> (Request, S) {
    match step {
        Step::Ask { request, state } => (request, state),
        Step::Done { .. } => panic!("the command has ended"),
    }
}

fn end<S, T>(step: Step<Request, S, T>) -> T {
    match step {
        Step::Done { result } => result,
        Step::Ask { request, .. } => panic!("the command asks for {:?}", request),
    }
}

fn info() -> ProcessInfo {
    ProcessInfo {
        id: text("new-id"),
        pid: 7,
        pgid: 8,
        env: vec![(text("A"), text("1"))],
        log_path: b"/logs/new.log".to_vec(),
    }
}

fn sleep() -> Vec<String> {
    vec![text("sleep"), text("10")]
}

fn insert(cwd: Option<Vec<u8>>) -> Request {
    Request::InsertTask {
        id: text("new-id"),
        pid: 7,
        pgid: Some(8),
        command: sleep(),
        env: Some(vec![(text("A"), text("1"))]),
        cwd,
        log_path: b"/logs/new.log".to_vec(),
    }
}

#[test]
fn spawning_from_the_beginning_to_the_end() {
    let (request, state) = ask(spawn(sleep(), None, vec![text("A=1")]));
    assert_eq!(request, Request::OpenDatabase);
    let (request, state) = ask(state.resume(Reply::Finished(Ok(()))));
    assert_eq!(request, Request::ReadShellVariable);
    let (request, state) = ask(state.resume(Reply::Shell(Some(text("/bin/zsh")))));
    assert_eq!(request, Request::ParseEnvVars { env: vec![text("A=1")] });
    let (request, state) = ask(state.resume(Reply::EnvVars(Ok(vec![(text("A"), text("1"))]))));
    assert_eq!(request, Request::ReadCurrentDir);
    let (request, state) = ask(state.resume(Reply::CurrentDir(Some(b"/here\xff".to_vec()))));
    assert_eq!(
        request,
        Request::SpawnProcess {
            command: vec![text("/bin/zsh"), text("-lc"), text("sleep 10")],
            cwd: Some(b"/here\xff".to_vec()),
            log_dir: None,
            env_vars: vec![(text("A"), text("1"))],
        }
    );
    let (request, state) = ask(state.resume(Reply::Spawned(Ok(info()))));
    assert_eq!(request, insert(Some(b"/here\xff".to_vec())));
    let (request, state) = ask(state.resume(Reply::Finished(Ok(()))));
    assert_eq!(
        request,
        Request::ShowProcessStarted {
            id: text("new-id"),
            pid: 7,
            log_path: b"/logs/new.log".to_vec()
        }
    );
    let (request, state) = ask(state.resume(Reply::Shown));
    assert_eq!(request, Request::ReapChild);
    assert_eq!(end(state.resume(Reply::Shown)), Ok(()));
}

#[test]
fn an_empty_command_is_refused() {
    let refused = GhostError::InvalidArgument { message: text("No command specified") };
    assert_eq!(end(spawn_with_conn(vec![], None, vec![], true, true)), Err(refused.clone()));
    let (_, state) = ask(spawn(vec![], None, vec![]));
    assert_eq!(end(state.resume(Reply::Finished(Ok(())))), Err(refused));
}

#[test]
fn a_given_directory_is_used_and_an_empty_environment_is_none() {
    let (_, state) =
        ask(spawn_with_conn(sleep(), Some(b"/given".to_vec()), vec![], false, false));
    let (_, state) = ask(state.resume(Reply::Shell(None)));
    let (request, state) = ask(state.resume(Reply::EnvVars(Ok(vec![]))));
    assert_eq!(
        request,
        Request::SpawnProcess {
            command: vec![text("/bin/bash"), text("-lc"), text("sleep 10")],
            cwd: Some(b"/given".to_vec()),
            log_dir: None,
            env_vars: vec![],
        }
    );
    let bare = ProcessInfo { env: vec![], ..info() };
    let (request, state) = ask(state.resume(Reply::Spawned(Ok(bare.clone()))));
    assert_eq!(
        request,
        Request::InsertTask {
            id: text("new-id"),
            pid: 7,
            pgid: Some(8),
            command: sleep(),
            env: None,
            cwd: Some(b"/given".to_vec()),
            log_path: b"/logs/new.log".to_vec(),
        }
    );
    let (request, state) = ask(state.resume(Reply::Finished(Ok(()))));
    assert_eq!(request, Request::ReapChild);
    assert_eq!(end(state.resume(Reply::Shown)), Ok(bare));
}

#[test]
fn a_process_can_be_started_without_a_directory() {
    let (request, state) = ask(spawn_and_register_process(sleep(), sleep(), None, vec![]));
    assert_eq!(request, Request::ReadCurrentDir);
    let (request, state) = ask(state.resume(Reply::CurrentDir(None)));
    assert_eq!(
        request,
        Request::SpawnProcess { command: sleep(), cwd: None, log_dir: None, env_vars: vec![] }
    );
    let (request, state) = ask(state.resume(Reply::Spawned(Ok(info()))));
    assert_eq!(request, insert(None));
    assert_eq!(end(state.resume(Reply::Finished(Ok(())))), Ok(info()));
}

#[test]
fn the_shell_wrapper_runs_by_the_shell_and_stores_the_command() {
    let (request, state) = ask(spawn_with_shell_wrapper(
        sleep(),
        Some(b"/given".to_vec()),
        vec![(text("A"), text("1"))],
        true,
    ));
    assert_eq!(request, Request::ReadShellVariable);
    let (request, state) = ask(state.resume(Reply::Shell(Some(text("fish")))));
    assert_eq!(
        request,
        Request::SpawnProcess {
            command: vec![text("fish"), text("-lc"), text("sleep 10")],
            cwd: Some(b"/given".to_vec()),
            log_dir: None,
            env_vars: vec![(text("A"), text("1"))],
        }
    );
    let (request, state) = ask(state.resume(Reply::Spawned(Ok(info()))));
    assert_eq!(request, insert(Some(b"/given".to_vec())));
    let (request, state) = ask(state.resume(Reply::Finished(Ok(()))));
    assert_eq!(request, Request::WaitForStart { pid: 7, seconds: 2 });
    assert_eq!(end(state.resume(Reply::Waited(Ok(true)))), Ok(info()));
}

#[test]
fn the_shell_wrapper_takes_an_empty_command() {
    let (_, state) = ask(spawn_with_shell_wrapper(vec![], Some(vec![]), vec![], false));
    let (request, _) = ask(state.resume(Reply::Shell(None)));
    assert_eq!(
        request,
        Request::SpawnProcess {
            command: vec![text("/bin/bash"), text("-lc"), text("")],
            cwd: Some(vec![]),
            log_dir: None,
            env_vars: vec![],
        }
    );
}

#[test]
fn a_process_that_ends_at_once_is_marked_and_reported() {
    let job = SpawnJob {
        command: sleep(),
        cwd: None,
        verify_start: true,
        show_output: true,
        detach: true,
    };
    let (request, state) = ask(ensure_process_started(job, info(), Ok(false)));
    assert_eq!(
        request,
        Request::UpdateStatus {
            id: text("new-id"),
            status: TaskStatus::Exited,
            exit_code: Some(1)
        }
    );
    assert_eq!(
        end(state.resume(Reply::Finished(Ok(())))),
        Err(GhostError::ProcessSpawn { message: text("Process exited immediately after starting") })
    );
}

#[test]
fn failures_end_a_spawn() {
    let (_, state) = ask(spawn(sleep(), None, vec![]));
    assert_eq!(end(state.resume(Reply::Finished(Err(other("a"))))), Err(other("a")));

    let (_, state) = ask(spawn_with_conn(sleep(), Some(vec![]), vec![], true, true));
    let (_, state) = ask(state.resume(Reply::Shell(None)));
    assert_eq!(end(state.resume(Reply::EnvVars(Err(other("b"))))), Err(other("b")));

    let (_, state) = ask(spawn_and_register_process(sleep(), sleep(), Some(vec![]), vec![]));
    assert_eq!(end(state.resume(Reply::Spawned(Err(other("c"))))), Err(other("c")));

    let (_, state) = ask(spawn_and_register_process(sleep(), sleep(), Some(vec![]), vec![]));
    let (_, state) = ask(state.resume(Reply::Spawned(Ok(info()))));
    assert_eq!(end(state.resume(Reply::Finished(Err(other("d"))))), Err(other("d")));

    let job = SpawnJob {
        command: sleep(),
        cwd: None,
        verify_start: true,
        show_output: false,
        detach: true,
    };
    assert_eq!(end(ensure_process_started(job, info(), Err(other("e")))), Err(other("e")));
}
