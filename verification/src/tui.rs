//! The interactive mode: when to draw, when to refresh, when to stop, and how the terminal is
//! brought back to what it was.

use vstd::pervasive::unreached;
use vstd::prelude::*;

use crate::error::{GhostError, GhostErrorView, result_view};
use crate::protocol::{Step, after, lemma_every_link, requests};

verus! {

/// How often the tasks are refreshed.
pub const REFRESH_SECONDS: u64 = 1;

/// What the interactive mode can ask for.
#[derive(Debug, PartialEq, Eq)]
pub enum TuiRequest {
    /// Switch the terminal to raw mode.
    EnableRawMode,
    /// Switch to the alternate screen and capture the mouse.
    EnterScreen,
    /// Take hold of the terminal for drawing.
    OpenTerminal,
    /// Create the interactive application, for tasks of so many days.
    CreateApp { day_window: Option<u64> },
    /// Let the application fetch the tasks again.
    RefreshTasks,
    /// Start a clock that ticks every so many seconds, and read the events of the terminal.
    StartEvents { seconds: u64 },
    /// Draw the application.
    Draw,
    /// Wait for an event of the terminal or for the next tick of the clock.
    NextEvent,
    /// Let the application handle the key that was pressed.
    HandleKey,
    /// Ask the application whether it is to end.
    ShouldQuit,
    /// Switch raw mode off.
    DisableRawMode,
    /// Leave the alternate screen and let go of the mouse.
    LeaveScreen,
    /// Show the cursor.
    ShowCursor,
}

impl View for TuiRequest {
    type V = TuiRequest;

    open spec fn view(&self) -> TuiRequest {
        *self
    }
}

/// What can happen while the interactive mode waits.
#[derive(Debug, PartialEq, Eq)]
pub enum TuiEvent {
    /// A key was pressed.
    Key,
    /// The mouse was moved, the window was resized, or the like.
    Other,
    /// Events cannot be read; the text is what the system said.
    Failed { source: String },
    /// It is time to refresh.
    Tick,
}

/// The model of `TuiEvent`.
pub enum TuiEventView {
    Key,
    Other,
    Failed { source: Seq<char> },
    Tick,
}

impl View for TuiEvent {
    type V = TuiEventView;

    open spec fn view(&self) -> TuiEventView {
        match self {
            TuiEvent::Key => TuiEventView::Key,
            TuiEvent::Other => TuiEventView::Other,
            TuiEvent::Failed { source } => TuiEventView::Failed { source: source@ },
            TuiEvent::Tick => TuiEventView::Tick,
        }
    }
}

/// What the interactive mode is told.
#[derive(Debug, PartialEq, Eq)]
pub enum TuiReply {
    /// Whether something was done.
    Finished(Result<(), GhostError>),
    /// The clock was started, which cannot fail.
    Started,
    /// What happened.
    Event(TuiEvent),
    /// Whether the application is to end.
    Quit(bool),
}

/// The model of `TuiReply`.
pub enum TuiReplyView {
    Finished(Result<(), GhostErrorView>),
    Started,
    Event(TuiEventView),
    Quit(bool),
}

impl View for TuiReply {
    type V = TuiReplyView;

    open spec fn view(&self) -> TuiReplyView {
        match self {
            TuiReply::Finished(r) => TuiReplyView::Finished(result_view(*r)),
            TuiReply::Started => TuiReplyView::Started,
            TuiReply::Event(event) => TuiReplyView::Event(event@),
            TuiReply::Quit(quit) => TuiReplyView::Quit(*quit),
        }
    }
}

/// The interactive mode under way.
pub struct TuiState {
    pub day_window: Option<u64>,
    pub stage: TuiStage,
}

/// What the interactive mode is waiting for.
pub enum TuiStage {
    EnablingRawMode,
    EnteringScreen,
    OpeningTerminal,
    CreatingApp,
    FetchingTasks,
    StartingEvents,
    Drawing,
    Waiting,
    HandlingKey,
    AskingToQuit,
    Refreshing,
    DisablingRawMode { result: Result<(), GhostError> },
    LeavingScreen { result: Result<(), GhostError> },
    ShowingCursor { result: Result<(), GhostError> },
}

/// The model of `TuiState`.
pub struct TuiView {
    pub day_window: Option<u64>,
    pub stage: TuiStageView,
}

/// The model of `TuiStage`.
pub enum TuiStageView {
    EnablingRawMode,
    EnteringScreen,
    OpeningTerminal,
    CreatingApp,
    FetchingTasks,
    StartingEvents,
    Drawing,
    Waiting,
    HandlingKey,
    AskingToQuit,
    Refreshing,
    DisablingRawMode { result: Result<(), GhostErrorView> },
    LeavingScreen { result: Result<(), GhostErrorView> },
    ShowingCursor { result: Result<(), GhostErrorView> },
}

impl View for TuiStage {
    type V = TuiStageView;

    open spec fn view(&self) -> TuiStageView {
        match self {
            TuiStage::EnablingRawMode => TuiStageView::EnablingRawMode,
            TuiStage::EnteringScreen => TuiStageView::EnteringScreen,
            TuiStage::OpeningTerminal => TuiStageView::OpeningTerminal,
            TuiStage::CreatingApp => TuiStageView::CreatingApp,
            TuiStage::FetchingTasks => TuiStageView::FetchingTasks,
            TuiStage::StartingEvents => TuiStageView::StartingEvents,
            TuiStage::Drawing => TuiStageView::Drawing,
            TuiStage::Waiting => TuiStageView::Waiting,
            TuiStage::HandlingKey => TuiStageView::HandlingKey,
            TuiStage::AskingToQuit => TuiStageView::AskingToQuit,
            TuiStage::Refreshing => TuiStageView::Refreshing,
            TuiStage::DisablingRawMode { result } => TuiStageView::DisablingRawMode {
                result: result_view(*result),
            },
            TuiStage::LeavingScreen { result } => TuiStageView::LeavingScreen {
                result: result_view(*result),
            },
            TuiStage::ShowingCursor { result } => TuiStageView::ShowingCursor {
                result: result_view(*result),
            },
        }
    }
}

impl View for TuiState {
    type V = TuiView;

    open spec fn view(&self) -> TuiView {
        TuiView { day_window: self.day_window, stage: self.stage@ }
    }
}

/// A step of the interactive mode.
pub type TuiStep = Step<TuiRequest, TuiState, Result<(), GhostError>>;

/// The model of `TuiStep`.
pub type TuiStepView = Step<TuiRequest, TuiView, Result<(), GhostErrorView>>;

/// Whether a reply is of the kind that a request calls for.
pub open spec fn tui_answers(request: TuiRequest, reply: TuiReplyView) -> bool {
    match request {
        TuiRequest::StartEvents { .. } => reply is Started,
        TuiRequest::NextEvent => reply is Event,
        TuiRequest::ShouldQuit => reply is Quit,
        _ => reply is Finished,
    }
}

impl TuiView {
    /// Asks for something.
    pub open spec fn ask(self, request: TuiRequest, stage: TuiStageView) -> TuiStepView {
        Step::Ask { request, state: TuiView { stage, ..self } }
    }

    /// Goes round the loop: draws, and waits.
    pub open spec fn draw(self) -> TuiStepView {
        self.ask(TuiRequest::Draw, TuiStageView::Drawing)
    }

    /// Leaves the loop with a result.
    pub open spec fn restore(self, result: Result<(), GhostErrorView>) -> TuiStepView {
        self.ask(TuiRequest::DisableRawMode, TuiStageView::DisablingRawMode { result })
    }

    /// Whether the interactive mode is waiting for a reply of this kind.
    pub open spec fn awaits(self, reply: TuiReplyView) -> bool {
        match self.stage {
            TuiStageView::StartingEvents => reply is Started,
            TuiStageView::Waiting => reply is Event,
            TuiStageView::AskingToQuit => reply is Quit,
            _ => reply is Finished,
        }
    }

    /// What follows from a reply. Before the loop, when drawing and after the loop an error
    /// ends it all; within the loop an error is kept, and the terminal restored first.
    pub open spec fn next(self, reply: TuiReplyView) -> TuiStepView {
        match self.stage {
            TuiStageView::StartingEvents => self.draw(),
            TuiStageView::Waiting => match reply->Event_0 {
                TuiEventView::Key => self.ask(TuiRequest::HandleKey, TuiStageView::HandlingKey),
                TuiEventView::Other => self.draw(),
                TuiEventView::Failed { source } => self.restore(
                    Err(GhostErrorView::Io { source }),
                ),
                TuiEventView::Tick => self.ask(TuiRequest::RefreshTasks, TuiStageView::Refreshing),
            },
            TuiStageView::AskingToQuit => if reply->Quit_0 {
                self.restore(Ok(()))
            } else {
                self.draw()
            },
            TuiStageView::HandlingKey => match reply->Finished_0 {
                Err(e) => self.restore(Err(e)),
                Ok(_) => self.ask(TuiRequest::ShouldQuit, TuiStageView::AskingToQuit),
            },
            TuiStageView::Refreshing => match reply->Finished_0 {
                Err(e) => self.restore(Err(e)),
                Ok(_) => self.draw(),
            },
            stage => match reply->Finished_0 {
                Err(e) => Step::Done { result: Err(e) },
                Ok(_) => match stage {
                    TuiStageView::EnablingRawMode => self.ask(
                        TuiRequest::EnterScreen,
                        TuiStageView::EnteringScreen,
                    ),
                    TuiStageView::EnteringScreen => self.ask(
                        TuiRequest::OpenTerminal,
                        TuiStageView::OpeningTerminal,
                    ),
                    TuiStageView::OpeningTerminal => self.ask(
                        TuiRequest::CreateApp { day_window: self.day_window },
                        TuiStageView::CreatingApp,
                    ),
                    TuiStageView::CreatingApp => self.ask(
                        TuiRequest::RefreshTasks,
                        TuiStageView::FetchingTasks,
                    ),
                    TuiStageView::FetchingTasks => self.ask(
                        TuiRequest::StartEvents { seconds: REFRESH_SECONDS },
                        TuiStageView::StartingEvents,
                    ),
                    TuiStageView::DisablingRawMode { result } => self.ask(
                        TuiRequest::LeaveScreen,
                        TuiStageView::LeavingScreen { result },
                    ),
                    TuiStageView::LeavingScreen { result } => self.ask(
                        TuiRequest::ShowCursor,
                        TuiStageView::ShowingCursor { result },
                    ),
                    TuiStageView::ShowingCursor { result } => Step::Done { result },
                    _ => self.ask(TuiRequest::NextEvent, TuiStageView::Waiting),
                },
            },
        }
    }
}

/// Whether a step can be gone on from with any reply that answers its request.
pub open spec fn tui_ready(step: TuiStepView) -> bool {
    step matches Step::Ask { request, state } ==> forall|r: TuiReplyView| #[trigger]
        tui_answers(request, r) ==> state.awaits(r)
}

/// The first step of the interactive mode.
pub open spec fn tui_opening(day_window: Option<u64>) -> TuiStepView {
    Step::Ask {
        request: TuiRequest::EnableRawMode,
        state: TuiView { day_window, stage: TuiStageView::EnablingRawMode },
    }
}

/// Starts the interactive mode.
pub fn tui(day_window: Option<u64>) -> (r: TuiStep)
    ensures
        r@ == tui_opening(day_window),
        tui_ready(r@),
{
    let stage = TuiStage::EnablingRawMode;
    Step::Ask { request: TuiRequest::EnableRawMode, state: TuiState { day_window, stage } }
}

impl TuiState {
    /// Goes on with a reply.
    pub fn resume(self, reply: TuiReply) -> (r: TuiStep)
        requires
            self@.awaits(reply@),
        ensures
            r@ == self@.next(reply@),
            tui_ready(r@),
    {
        let TuiState { day_window, stage } = self;
        let (request, stage) = match (stage, reply) {
            (TuiStage::EnablingRawMode, TuiReply::Finished(Ok(_))) => {
                (TuiRequest::EnterScreen, TuiStage::EnteringScreen)
            },
            (TuiStage::EnteringScreen, TuiReply::Finished(Ok(_))) => {
                (TuiRequest::OpenTerminal, TuiStage::OpeningTerminal)
            },
            (TuiStage::OpeningTerminal, TuiReply::Finished(Ok(_))) => {
                (TuiRequest::CreateApp { day_window }, TuiStage::CreatingApp)
            },
            (TuiStage::CreatingApp, TuiReply::Finished(Ok(_))) => {
                (TuiRequest::RefreshTasks, TuiStage::FetchingTasks)
            },
            (TuiStage::FetchingTasks, TuiReply::Finished(Ok(_))) => {
                (TuiRequest::StartEvents { seconds: REFRESH_SECONDS }, TuiStage::StartingEvents)
            },
            (TuiStage::StartingEvents, _) => (TuiRequest::Draw, TuiStage::Drawing),
            (TuiStage::Drawing, TuiReply::Finished(Ok(_))) => {
                (TuiRequest::NextEvent, TuiStage::Waiting)
            },
            (TuiStage::Waiting, TuiReply::Event(event)) => match event {
                TuiEvent::Key => (TuiRequest::HandleKey, TuiStage::HandlingKey),
                TuiEvent::Other => (TuiRequest::Draw, TuiStage::Drawing),
                TuiEvent::Failed { source } => {
                    let result: Result<(), GhostError> = Err(GhostError::Io { source });
                    (TuiRequest::DisableRawMode, TuiStage::DisablingRawMode { result })
                },
                TuiEvent::Tick => (TuiRequest::RefreshTasks, TuiStage::Refreshing),
            },
            (TuiStage::HandlingKey, TuiReply::Finished(Ok(_))) => {
                (TuiRequest::ShouldQuit, TuiStage::AskingToQuit)
            },
            (TuiStage::HandlingKey, TuiReply::Finished(Err(e))) => {
                (TuiRequest::DisableRawMode, TuiStage::DisablingRawMode { result: Err(e) })
            },
            (TuiStage::AskingToQuit, TuiReply::Quit(quit)) => {
                if quit {
                    (TuiRequest::DisableRawMode, TuiStage::DisablingRawMode { result: Ok(()) })
                } else {
                    (TuiRequest::Draw, TuiStage::Drawing)
                }
            },
            (TuiStage::Refreshing, TuiReply::Finished(Ok(_))) => {
                (TuiRequest::Draw, TuiStage::Drawing)
            },
            (TuiStage::Refreshing, TuiReply::Finished(Err(e))) => {
                (TuiRequest::DisableRawMode, TuiStage::DisablingRawMode { result: Err(e) })
            },
            (TuiStage::DisablingRawMode { result }, TuiReply::Finished(Ok(_))) => {
                (TuiRequest::LeaveScreen, TuiStage::LeavingScreen { result })
            },
            (TuiStage::LeavingScreen { result }, TuiReply::Finished(Ok(_))) => {
                (TuiRequest::ShowCursor, TuiStage::ShowingCursor { result })
            },
            (TuiStage::ShowingCursor { result }, TuiReply::Finished(Ok(_))) => {
                return Step::Done { result };
            },
            (_, TuiReply::Finished(Err(e))) => {
                return Step::Done { result: Err(e) };
            },
            _ => unreached(),
        };
        Step::Ask { request, state: TuiState { day_window, stage } }
    }
}

/// The steps of the interactive mode as a function.
pub open spec fn tui_next() -> spec_fn(TuiView, TuiReplyView) -> TuiStepView {
    |s: TuiView, r: TuiReplyView| s.next(r)
}

/// Whether a reply says that something was done.
pub open spec fn tui_done(reply: TuiReplyView) -> bool {
    reply is Finished && reply->Finished_0 is Ok
}

/// Whether a reply says that something failed.
pub open spec fn tui_failed(reply: TuiReplyView) -> bool {
    reply is Finished && reply->Finished_0 is Err
}

/// The loop is left only if the application is to end, and then with success, or if a key or
/// a refresh fails or events cannot be read, and then with that failure. Other events, and
/// keys that do not end it, lead to the next drawing.
pub proof fn law_tui_leaves_loop(state: TuiView, reply: TuiReplyView)
    requires
        state.awaits(reply),
        state.stage is Waiting || state.stage is HandlingKey || state.stage is AskingToQuit
            || state.stage is Refreshing,
    ensures
        state.next(reply) is Ask,
        state.next(reply)->request is DisableRawMode <==> {
            ||| reply == TuiReplyView::Quit(true)
            ||| tui_failed(reply)
            ||| reply is Event && reply->Event_0 is Failed
        },
        state.next(reply)->request is DisableRawMode ==> state.next(reply) == state.restore(
            match reply {
                TuiReplyView::Finished(r) => r,
                TuiReplyView::Event(event) => Err(GhostErrorView::Io { source: event->source }),
                _ => Ok(()),
            },
        ),
{
}

/// Once the loop is left, the terminal is restored, and what the loop was left with is the
/// result.
pub proof fn law_tui_restores(state: TuiView, result: Result<(), GhostErrorView>)
    ensures
        ({
            let ok = TuiReplyView::Finished(Ok(()));
            let replies = seq![ok, ok, ok];
            &&& requests(tui_next(), state.restore(result), replies) == seq![
                TuiRequest::DisableRawMode,
                TuiRequest::LeaveScreen,
                TuiRequest::ShowCursor,
            ]
            &&& after(tui_next(), state.restore(result), replies) == (TuiStepView::Done { result })
        }),
{
    reveal_with_fuel(after, 5);
    reveal_with_fuel(requests, 5);
}

/// Ties a state to the request that it waits for.
spec fn tui_paired(q: TuiRequest, s: TuiView) -> bool {
    match s.stage {
        TuiStageView::EnablingRawMode => q is EnableRawMode,
        TuiStageView::EnteringScreen => q is EnterScreen,
        TuiStageView::OpeningTerminal => q is OpenTerminal,
        TuiStageView::CreatingApp => q is CreateApp,
        TuiStageView::FetchingTasks => q is RefreshTasks,
        TuiStageView::StartingEvents => q is StartEvents,
        TuiStageView::Drawing => q is Draw,
        TuiStageView::Waiting => q is NextEvent,
        TuiStageView::HandlingKey => q is HandleKey,
        TuiStageView::AskingToQuit => q is ShouldQuit,
        TuiStageView::Refreshing => q is RefreshTasks,
        TuiStageView::DisablingRawMode { .. } => q is DisableRawMode,
        TuiStageView::LeavingScreen { .. } => q is LeaveScreen,
        TuiStageView::ShowingCursor { .. } => q is ShowCursor,
    }
}

/// How neighbouring requests of the interactive mode hang together.
pub open spec fn tui_link(q: TuiRequest, r: TuiReplyView, then: TuiRequest) -> bool {
    match then {
        TuiRequest::EnableRawMode => false,
        TuiRequest::EnterScreen => q is EnableRawMode && tui_done(r),
        TuiRequest::OpenTerminal => q is EnterScreen && tui_done(r),
        TuiRequest::CreateApp { .. } => q is OpenTerminal && tui_done(r),
        TuiRequest::RefreshTasks => {
            ||| q is CreateApp && tui_done(r)
            ||| q is NextEvent && r == TuiReplyView::Event(TuiEventView::Tick)
        },
        TuiRequest::StartEvents { seconds } => q is RefreshTasks && tui_done(r) && seconds
            == REFRESH_SECONDS,
        TuiRequest::Draw => {
            ||| q is StartEvents
            ||| q is RefreshTasks && tui_done(r)
            ||| q is NextEvent && r == TuiReplyView::Event(TuiEventView::Other)
            ||| q is ShouldQuit && r == TuiReplyView::Quit(false)
        },
        TuiRequest::NextEvent => q is Draw && tui_done(r),
        TuiRequest::HandleKey => q is NextEvent && r == TuiReplyView::Event(TuiEventView::Key),
        TuiRequest::ShouldQuit => q is HandleKey && tui_done(r),
        TuiRequest::DisableRawMode => {
            ||| q is ShouldQuit && r == TuiReplyView::Quit(true)
            ||| q is HandleKey && tui_failed(r)
            ||| q is RefreshTasks && tui_failed(r)
            ||| q is NextEvent && r is Event && r->Event_0 is Failed
        },
        TuiRequest::LeaveScreen => q is DisableRawMode && tui_done(r),
        TuiRequest::ShowCursor => q is LeaveScreen && tui_done(r),
    }
}

/// Everything happens in its order: there is a drawing before every wait for an event, every
/// key is handled and every tick refreshes the tasks, and the terminal is restored in three
/// steps.
pub proof fn law_tui_order(day_window: Option<u64>, replies: Seq<TuiReplyView>)
    ensures
        ({
            let made = requests(tui_next(), tui_opening(day_window), replies);
            &&& made[0] == TuiRequest::EnableRawMode
            &&& made.len() <= replies.len() + 1
            &&& forall|i: int|
                0 <= i < made.len() - 1 && tui_answers(made[i], #[trigger] replies[i]) ==> tui_link(
                    made[i],
                    replies[i],
                    made[i + 1],
                )
        }),
{
    lemma_every_link(
        tui_next(),
        |q: TuiRequest, s: TuiView| tui_paired(q, s),
        |q: TuiRequest, r: TuiReplyView, then: TuiRequest|
            tui_answers(q, r) ==> tui_link(q, r, then),
        tui_opening(day_window),
        replies,
    );
}

/// Whether a request, its reply and a result are a way to leave the loop: the application is
/// to end, and that is a success; or a key or a refresh failed, or events cannot be read, and
/// that is the failure.
pub open spec fn left_with(
    request: TuiRequest,
    reply: TuiReplyView,
    result: Result<(), GhostErrorView>,
) -> bool {
    ||| request is ShouldQuit && reply == TuiReplyView::Quit(true) && result == Ok::<
        (),
        GhostErrorView,
    >(())
    ||| (request is HandleKey || request is RefreshTasks) && tui_failed(reply) && result
        == reply->Finished_0
    ||| request is NextEvent && reply is Event && reply->Event_0 is Failed && result == Err::<
        (),
        GhostErrorView,
    >(GhostErrorView::Io { source: reply->Event_0->source })
}

/// How a run ends of which the first `setup` requests set the terminal and the application
/// up. Either the loop was left, the terminal was restored in three steps, and the result is
/// what the loop was left with; or the last request failed, which set something up, drew, or
/// restored the terminal, and the result is that failure.
pub open spec fn tui_ended(
    made: Seq<TuiRequest>,
    replies: Seq<TuiReplyView>,
    result: Result<(), GhostErrorView>,
    setup: int,
) -> bool {
    let n = made.len() as int;
    &&& 0 < n <= replies.len()
    &&& replies[n - 1] is Finished
    &&& if tui_done(replies[n - 1]) {
        &&& n > 3
        &&& made[n - 1] is ShowCursor
        &&& made[n - 2] is LeaveScreen && tui_done(replies[n - 2])
        &&& made[n - 3] is DisableRawMode && tui_done(replies[n - 3])
        &&& left_with(made[n - 4], replies[n - 4], result)
    } else {
        &&& result == replies[n - 1]->Finished_0
        &&& n <= setup || made[n - 1] is Draw || made[n - 1] is DisableRawMode
            || made[n - 1] is LeaveScreen || made[n - 1] is ShowCursor
    }
}

/// How many requests are left of the set-up, the open one among them.
spec fn setup_left(stage: TuiStageView) -> int {
    match stage {
        TuiStageView::EnablingRawMode => 6,
        TuiStageView::EnteringScreen => 5,
        TuiStageView::OpeningTerminal => 4,
        TuiStageView::CreatingApp => 3,
        TuiStageView::FetchingTasks => 2,
        TuiStageView::StartingEvents => 1,
        _ => 0,
    }
}

/// Whether every request got a reply of its kind.
pub open spec fn tui_answered(made: Seq<TuiRequest>, replies: Seq<TuiReplyView>) -> bool {
    forall|i: int|
        0 <= i < made.len() && i < replies.len() ==> tui_answers(made[i], #[trigger] replies[i])
}

/// Requests are answered one by one.
proof fn lemma_answered_rest(
    first: TuiRequest,
    rest: Seq<TuiRequest>,
    replies: Seq<TuiReplyView>,
)
    requires
        replies.len() > 0,
        tui_answered(seq![first] + rest, replies),
    ensures
        tui_answers(first, replies[0]),
        tui_answered(rest, replies.drop_first()),
{
    let made = seq![first] + rest;
    let later = replies.drop_first();
    assert(tui_answers(made[0], replies[0]));
    assert forall|i: int| 0 <= i < rest.len() && i < later.len() implies tui_answers(
        rest[i],
        #[trigger] later[i],
    ) by {
        assert(tui_answers(made[i + 1], replies[i + 1]));
    }
}

/// Once the loop is left, the run ends with what it was left with, or with a failure to
/// restore the terminal.
proof fn lemma_tui_restoring(
    state: TuiView,
    result: Result<(), GhostErrorView>,
    replies: Seq<TuiReplyView>,
)
    requires
        after(tui_next(), state.restore(result), replies) is Done,
        tui_answered(requests(tui_next(), state.restore(result), replies), replies),
    ensures
        ({
            let made = requests(tui_next(), state.restore(result), replies);
            let end = after(tui_next(), state.restore(result), replies)->result;
            let n = made.len() as int;
            &&& 0 < n <= replies.len()
            &&& replies[n - 1] is Finished
            &&& if tui_done(replies[n - 1]) {
                &&& n == 3 && end == result
                &&& made[0] is DisableRawMode && tui_done(replies[0])
                &&& made[1] is LeaveScreen && tui_done(replies[1])
                &&& made[2] is ShowCursor
            } else {
                &&& end == replies[n - 1]->Finished_0
                &&& made[n - 1] is DisableRawMode || made[n - 1] is LeaveScreen
                    || made[n - 1] is ShowCursor
            }
        }),
{
    reveal_with_fuel(after, 5);
    reveal_with_fuel(requests, 5);
    let made = requests(tui_next(), state.restore(result), replies);
    assert(tui_answers(made[0], replies[0]));
    if tui_done(replies[0]) {
        let later = replies.drop_first();
        assert(later[0] == replies[1]);
        assert(made[1] is LeaveScreen);
        assert(tui_answers(made[1], replies[1]));
        if tui_done(replies[1]) {
            assert(later.drop_first()[0] == replies[2]);
            assert(made[2] is ShowCursor);
            assert(tui_answers(made[2], replies[2]));
        }
    }
}

/// The same from any point of the set-up or of the loop.
proof fn lemma_tui_ended(step: TuiStepView, replies: Seq<TuiReplyView>)
    requires
        step is Ask,
        tui_paired(step->request, step->state),
        !(step->request is DisableRawMode),
        !(step->request is LeaveScreen),
        !(step->request is ShowCursor),
        after(tui_next(), step, replies) is Done,
        tui_answered(requests(tui_next(), step, replies), replies),
    ensures
        tui_ended(
            requests(tui_next(), step, replies),
            replies,
            after(tui_next(), step, replies)->result,
            setup_left(step->state.stage),
        ),
    decreases replies.len(),
{
    let q = step->request;
    let s = step->state;
    let then = s.next(replies[0]);
    let later = replies.drop_first();
    let made = requests(tui_next(), step, replies);
    let rest = requests(tui_next(), then, later);
    let result = after(tui_next(), step, replies)->result;
    assert(made == seq![q] + rest);
    lemma_answered_rest(q, rest, replies);
    assert(after(tui_next(), then, later) == after(tui_next(), step, replies));
    if then is Done {
        assert(rest.len() == 0);
    } else if then->request is DisableRawMode {
        let left = then->state.stage->DisablingRawMode_result;
        assert(then == s.restore(left));
        assert(left_with(q, replies[0], left));
        lemma_tui_restoring(s, left, later);
        let n = made.len() as int;
        assert(made[n - 1] == rest[n - 2]);
        assert(replies[n - 1] == later[n - 2]);
        if tui_done(replies[n - 1]) {
            assert(n == 4);
            assert(made[2] == rest[1] && made[1] == rest[0] && made[0] == q);
            assert(replies[2] == later[1] && replies[1] == later[0]);
        }
    } else {
        lemma_tui_ended(then, later);
        let n = made.len() as int;
        assert(made[n - 1] == rest[n - 2]);
        assert(replies[n - 1] == later[n - 2]);
        if tui_done(replies[n - 1]) {
            assert(made[n - 2] == rest[n - 3] && replies[n - 2] == later[n - 3]);
            assert(made[n - 3] == rest[n - 4] && replies[n - 3] == later[n - 4]);
            assert(made[n - 4] == rest[n - 5] && replies[n - 4] == later[n - 5]);
        }
    }
}

/// However long it runs, the interactive mode ends in one of two ways. Either the loop is
/// left, because the application is to end or because a key, a refresh or the reading of
/// events failed; then the terminal is restored, raw mode off, the screen left and the cursor
/// shown, and the result is success in the first case and else that failure. Or a request of
/// the set-up, a drawing, or one of the three steps that restore the terminal fails, and that
/// failure is the result.
pub proof fn law_tui_ends(day_window: Option<u64>, replies: Seq<TuiReplyView>)
    requires
        after(tui_next(), tui_opening(day_window), replies) is Done,
        tui_answered(requests(tui_next(), tui_opening(day_window), replies), replies),
    ensures
        tui_ended(
            requests(tui_next(), tui_opening(day_window), replies),
            replies,
            after(tui_next(), tui_opening(day_window), replies)->result,
            6,
        ),
{
    lemma_tui_ended(tui_opening(day_window), replies);
}

/// How the interactive mode begins when all goes well: raw mode, the screen, the terminal, the
/// application for the very number of days that was given, its tasks, a clock that ticks every
/// second, and the first drawing.
pub proof fn law_tui_begins(day_window: Option<u64>)
    ensures
        ({
            let ok = TuiReplyView::Finished(Ok(()));
            let replies = seq![ok, ok, ok, ok, ok, TuiReplyView::Started, ok];
            let step = tui_opening(day_window);
            requests(tui_next(), step, replies) == seq![
                TuiRequest::EnableRawMode,
                TuiRequest::EnterScreen,
                TuiRequest::OpenTerminal,
                TuiRequest::CreateApp { day_window },
                TuiRequest::RefreshTasks,
                TuiRequest::StartEvents { seconds: 1 },
                TuiRequest::Draw,
                TuiRequest::NextEvent,
            ]
        }),
{
    reveal_with_fuel(after, 9);
    reveal_with_fuel(requests, 9);
}

/// The loop, told by what happens: a key is handed to the application, which is then asked
/// whether it is to end; a tick refreshes the tasks; anything else is passed over; and after
/// each of these the application is drawn again.
pub proof fn law_tui_loop(state: TuiView)
    requires
        state.stage is Waiting,
    ensures
        ({
            let ok = TuiReplyView::Finished(Ok(()));
            let wait = TuiStepView::Ask { request: TuiRequest::NextEvent, state };
            let key = seq![TuiReplyView::Event(TuiEventView::Key), ok, TuiReplyView::Quit(false), ok];
            let tick = seq![TuiReplyView::Event(TuiEventView::Tick), ok, ok];
            let other = seq![TuiReplyView::Event(TuiEventView::Other), ok];
            &&& requests(tui_next(), wait, key) == seq![
                TuiRequest::NextEvent,
                TuiRequest::HandleKey,
                TuiRequest::ShouldQuit,
                TuiRequest::Draw,
                TuiRequest::NextEvent,
            ]
            &&& requests(tui_next(), wait, tick) == seq![
                TuiRequest::NextEvent,
                TuiRequest::RefreshTasks,
                TuiRequest::Draw,
                TuiRequest::NextEvent,
            ]
            &&& requests(tui_next(), wait, other) == seq![
                TuiRequest::NextEvent,
                TuiRequest::Draw,
                TuiRequest::NextEvent,
            ]
            &&& after(tui_next(), wait, key) == wait
            &&& after(tui_next(), wait, tick) == wait
            &&& after(tui_next(), wait, other) == wait
        }),
{
    reveal_with_fuel(after, 6);
    reveal_with_fuel(requests, 6);
}

/// The model of what happens, and of what the interactive mode is told, is the same, with the
/// same things in it.
pub proof fn law_tui_model(
    request: TuiRequest,
    finished: Result<(), GhostError>,
    event: TuiEvent,
    source: String,
    quit: bool,
)
    ensures
        request@ == request,
        TuiEvent::Key@ == TuiEventView::Key,
        TuiEvent::Other@ == TuiEventView::Other,
        (TuiEvent::Failed { source })@ == (TuiEventView::Failed { source: source@ }),
        TuiEvent::Tick@ == TuiEventView::Tick,
        TuiReply::Finished(finished)@ == TuiReplyView::Finished(result_view(finished)),
        TuiReply::Started@ == TuiReplyView::Started,
        TuiReply::Event(event)@ == TuiReplyView::Event(event@),
        TuiReply::Quit(quit)@ == TuiReplyView::Quit(quit),
{
}

} // verus!
