use ghost_commands::error::GhostError;
use ghost_commands::status_filter::{format_status_list, parse_status, parse_status_filter};
use ghost_commands::task::TaskStatus;

fn invalid(message: &str) -> GhostError {
    GhostError::InvalidArgument { message: message.to_string() }
}

#[test]
fn no_filter_is_exited_and_killed() {
    assert_eq!(parse_status_filter(None), Ok(vec![TaskStatus::Exited, TaskStatus::Killed]));
}

#[test]
fn all_is_everything_but_running() {
    assert_eq!(
        parse_status_filter(Some("all")),
        Ok(vec![TaskStatus::Exited, TaskStatus::Killed, TaskStatus::Unknown])
    );
}

#[test]
fn names_between_commas() {
    assert_eq!(
        parse_status_filter(Some("unknown, exited\t,killed,exited")),
        Ok(vec![
            TaskStatus::Unknown,
            TaskStatus::Exited,
            TaskStatus::Killed,
            TaskStatus::Exited
        ])
    );
}

#[test]
fn running_is_refused() {
    assert_eq!(
        parse_status_filter(Some("exited,running,bogus")),
        Err(invalid("Cannot cleanup running tasks"))
    );
}

#[test]
fn the_first_wrong_name_decides() {
    assert_eq!(
        parse_status_filter(Some("killed, bogus ,running")),
        Err(invalid("Invalid status: bogus. Valid options: exited, killed, unknown, all"))
    );
}

#[test]
fn an_empty_filter_is_wrong() {
    assert_eq!(
        parse_status_filter(Some("")),
        Err(invalid("Invalid status: . Valid options: exited, killed, unknown, all"))
    );
}

#[test]
fn all_counts_only_by_itself() {
    assert_eq!(
        parse_status_filter(Some(" all")),
        Err(invalid("Invalid status: all. Valid options: exited, killed, unknown, all"))
    );
    assert_eq!(
        parse_status_filter(Some("exited,all")),
        Err(invalid("Invalid status: all. Valid options: exited, killed, unknown, all"))
    );
}

#[test]
fn names_are_case_sensitive() {
    assert_eq!(
        parse_status("Exited"),
        Err(invalid("Invalid status: Exited. Valid options: exited, killed, unknown, all"))
    );
}

#[test]
fn status_lists_are_shown() {
    assert_eq!(format_status_list(&vec![]), "");
    assert_eq!(format_status_list(&vec![TaskStatus::Killed]), "killed");
    assert_eq!(
        format_status_list(&vec![TaskStatus::Running, TaskStatus::Exited, TaskStatus::Unknown]),
        "running, exited, unknown"
    );
}

#[test]
fn what_is_shown_can_be_read_back() {
    let statuses = vec![TaskStatus::Unknown, TaskStatus::Killed, TaskStatus::Exited];
    let text = format_status_list(&statuses);
    assert_eq!(parse_status_filter(Some(text.as_str())), Ok(statuses));
}
