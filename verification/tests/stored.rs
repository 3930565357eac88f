use ghost_commands::error::GhostError;
use ghost_commands::stored::{read_command, read_env, stored_command, stored_env};

#[test]
fn a_command_is_read_back() {
    assert_eq!(
        stored_command("[\"echo\", \"a b\\n\"]"),
        Ok(vec!["echo".to_string(), "a b\n".to_string()])
    );
    assert_eq!(stored_command("[]"), Ok(vec![]));
}

#[test]
fn a_command_that_is_no_list_is_refused() {
    assert_eq!(
        stored_command("[1]"),
        Err(GhostError::InvalidArgument {
            message: "Failed to parse command: invalid type: integer `1`, expected a string at line 1 column 2"
                .to_string()
        })
    );
    assert_eq!(
        stored_command(""),
        Err(GhostError::InvalidArgument {
            message: "Failed to parse command: EOF while parsing a value at line 1 column 0"
                .to_string()
        })
    );
}

#[test]
fn what_follows_the_reading_of_a_command() {
    assert_eq!(read_command(Ok(vec!["a".to_string()])), Ok(vec!["a".to_string()]));
    assert_eq!(
        read_command(Err("bad".to_string())),
        Err(GhostError::InvalidArgument { message: "Failed to parse command: bad".to_string() })
    );
}

#[test]
fn an_environment_is_read_back() {
    let mut env = stored_env(&Some("{\"B\": \"2=3\", \"A\": \"1\", \"B\": \"\"}".to_string()));
    env.sort();
    assert_eq!(env, vec!["A=1".to_string(), "B=".to_string()]);
}

#[test]
fn an_environment_that_cannot_be_read_is_none() {
    assert!(stored_env(&None).is_empty());
    assert!(stored_env(&Some("[[\"A\",\"1\"]]".to_string())).is_empty());
    assert!(stored_env(&Some("{\"A\": 1}".to_string())).is_empty());
    assert!(stored_env(&Some("{}".to_string())).is_empty());
}

#[test]
fn what_follows_the_reading_of_an_environment() {
    let pairs = vec![("Z".to_string(), "1".to_string()), ("A".to_string(), "=".to_string())];
    assert_eq!(read_env(Some(pairs)), vec!["Z=1".to_string(), "A==".to_string()]);
    assert!(read_env(None).is_empty());
}
