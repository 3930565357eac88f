use ghost_commands::error::GhostError;
use ghost_commands::lookup::{
    get_task_by_id_or_short_id, is_full_id, resume_search, search_for, Lookup, Search,
};
use ghost_commands::protocol::Request;
use ghost_commands::shell::{get_user_shell, wrap_with_user_shell};
use ghost_commands::task::{Task, TaskStatus};

const FULL: &str = "12345678-1234-1234-1234-123456789abc";

fn task() -> Task {
    Task {
        id: FULL.to_string(),
        pid: 42,
        pgid: Some(43),
        command: "[]".to_string(),
        env: None,
        cwd: None,
        status: TaskStatus::Running,
        exit_code: None,
        started_at: 1,
        finished_at: None,
        log_path: "/tmp/x.log".to_string(),
    }
}

fn not_found() -> GhostError {
    GhostError::TaskNotFound { task_id: FULL.to_string() }
}

#[test]
fn the_shell_variable_decides() {
    assert_eq!(get_user_shell(Some("/bin/zsh".to_string())), "/bin/zsh");
    assert_eq!(get_user_shell(Some(String::new())), "");
    assert_eq!(get_user_shell(None), "/bin/bash");
}

#[test]
fn commands_are_wrapped() {
    let command = vec!["echo".to_string(), "a b".to_string()];
    assert_eq!(wrap_with_user_shell(None, &command), vec!["/bin/bash", "-lc", "echo a b"]);
    assert_eq!(
        wrap_with_user_shell(Some("fish".to_string()), &vec![]),
        vec!["fish", "-lc", ""]
    );
}

#[test]
fn full_ids() {
    assert!(is_full_id(FULL));
    assert!(!is_full_id(&FULL[1..]));
    assert!(!is_full_id(&FULL.replace('-', "0")));
    assert!(!is_full_id("-"));
    assert!(!is_full_id(""));
}

#[test]
fn the_length_of_an_id_is_counted_in_bytes() {
    let id = format!("{}-", "\u{e9}".repeat(17));
    assert_eq!(id.len(), 35);
    assert!(!is_full_id(&id));
    assert!(is_full_id(&format!("{}x", id)));
}

#[test]
fn a_full_id_is_searched_for_first() {
    let (request, search) = get_task_by_id_or_short_id(FULL);
    assert_eq!(request, Request::GetTask { id: FULL.to_string() });
    assert_eq!(search, Search::Full);
    let (request, search) = get_task_by_id_or_short_id("1234");
    assert_eq!(request, Request::GetTaskByShortId { id: "1234".to_string() });
    assert_eq!(search, Search::Short);
}

#[test]
fn only_a_missing_full_id_is_searched_for_again() {
    assert!(matches!(resume_search(Search::Full, Err(not_found())), Lookup::Retry));
    assert_eq!(
        search_for(Search::Short, FULL),
        Request::GetTaskByShortId { id: FULL.to_string() }
    );
    match resume_search(Search::Short, Err(not_found())) {
        Lookup::Resolved { result } => assert_eq!(result, Err(not_found())),
        Lookup::Retry => panic!("searched again"),
    }
    let broken = GhostError::Other { message: "locked".to_string() };
    match resume_search(Search::Full, Err(broken.clone())) {
        Lookup::Resolved { result } => assert_eq!(result, Err(broken)),
        Lookup::Retry => panic!("searched again"),
    }
    match resume_search(Search::Full, Ok(task())) {
        Lookup::Resolved { result } => assert_eq!(result, Ok(task())),
        Lookup::Retry => panic!("searched again"),
    }
}
