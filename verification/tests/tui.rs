use ghost_commands::error::GhostError;
use ghost_commands::protocol::Step;
use ghost_commands::tui::{tui, TuiEvent, TuiReply, TuiRequest, TuiState, TuiStep};

fn ok() -> TuiReply {
    TuiReply::Finished(Ok(()))
}

fn failed(message: &str) -> TuiReply {
    TuiReply::Finished(Err(error(message)))
}

fn error(message: &str) -> GhostError {
    GhostError::Other { message: message.to_string() }
}

fn ask(step: TuiStep) -> (TuiRequest, TuiState) {
    match step {
        Step::Ask { request, state } => (request, state),
        Step::Done { .. } => panic!("it has ended"),
    }
}

fn end(step: TuiStep) -> Result<(), GhostError> {
    match step {
        Step::Done { result } => result,
        Step::Ask { request, .. } => panic!("it asks for {:?}", request),
    }
}

/// Runs through the set-up and the first drawing.
fn waiting() -> TuiState {
    let (request, state) = ask(tui(Some(3)));
    assert_eq!(request, TuiRequest::EnableRawMode);
    let (request, state) = ask(state.resume(ok()));
    assert_eq!(request, TuiRequest::EnterScreen);
    let (request, state) = ask(state.resume(ok()));
    assert_eq!(request, TuiRequest::OpenTerminal);
    let (request, state) = ask(state.resume(ok()));
    assert_eq!(request, TuiRequest::CreateApp { day_window: Some(3) });
    let (request, state) = ask(state.resume(ok()));
    assert_eq!(request, TuiRequest::RefreshTasks);
    let (request, state) = ask(state.resume(ok()));
    assert_eq!(request, TuiRequest::StartEvents { seconds: 1 });
    let (request, state) = ask(state.resume(TuiReply::Started));
    assert_eq!(request, TuiRequest::Draw);
    let (request, state) = ask(state.resume(ok()));
    assert_eq!(request, TuiRequest::NextEvent);
    state
}

/// Restores the terminal and gives the result.
fn restored(step: TuiStep) -> Result<(), GhostError> {
    let (request, state) = ask(step);
    assert_eq!(request, TuiRequest::DisableRawMode);
    let (request, state) = ask(state.resume(ok()));
    assert_eq!(request, TuiRequest::LeaveScreen);
    let (request, state) = ask(state.resume(ok()));
    assert_eq!(request, TuiRequest::ShowCursor);
    end(state.resume(ok()))
}

#[test]
fn a_key_that_quits() {
    let (request, state) = ask(waiting().resume(TuiReply::Event(TuiEvent::Key)));
    assert_eq!(request, TuiRequest::HandleKey);
    let (request, state) = ask(state.resume(ok()));
    assert_eq!(request, TuiRequest::ShouldQuit);
    assert_eq!(restored(state.resume(TuiReply::Quit(true))), Ok(()));
}

#[test]
fn the_loop_goes_on() {
    let (_, state) = ask(waiting().resume(TuiReply::Event(TuiEvent::Key)));
    let (_, state) = ask(state.resume(ok()));
    let (request, state) = ask(state.resume(TuiReply::Quit(false)));
    assert_eq!(request, TuiRequest::Draw);
    let (request, state) = ask(state.resume(ok()));
    assert_eq!(request, TuiRequest::NextEvent);
    let (request, state) = ask(state.resume(TuiReply::Event(TuiEvent::Other)));
    assert_eq!(request, TuiRequest::Draw);
    let (_, state) = ask(state.resume(ok()));
    let (request, state) = ask(state.resume(TuiReply::Event(TuiEvent::Tick)));
    assert_eq!(request, TuiRequest::RefreshTasks);
    let (request, _) = ask(state.resume(ok()));
    assert_eq!(request, TuiRequest::Draw);
}

#[test]
fn failures_in_the_loop_restore_the_terminal_first() {
    let (_, state) = ask(waiting().resume(TuiReply::Event(TuiEvent::Key)));
    assert_eq!(restored(state.resume(failed("key"))), Err(error("key")));
    let (_, state) = ask(waiting().resume(TuiReply::Event(TuiEvent::Tick)));
    assert_eq!(restored(state.resume(failed("refresh"))), Err(error("refresh")));
    let event = TuiEvent::Failed { source: "gone".to_string() };
    assert_eq!(
        restored(waiting().resume(TuiReply::Event(event))),
        Err(GhostError::Io { source: "gone".to_string() })
    );
}

#[test]
fn failures_outside_the_loop_end_it_at_once() {
    let (_, state) = ask(tui(None));
    assert_eq!(end(state.resume(failed("raw"))), Err(error("raw")));
    let (_, state) = ask(waiting().resume(TuiReply::Event(TuiEvent::Other)));
    assert_eq!(end(state.resume(failed("draw"))), Err(error("draw")));
    let (_, state) = ask(waiting().resume(TuiReply::Event(TuiEvent::Key)));
    let (_, state) = ask(state.resume(failed("key")));
    assert_eq!(end(state.resume(failed("mode"))), Err(error("mode")));
}
