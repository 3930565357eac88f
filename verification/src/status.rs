//! Checking the status of a background process.

use vstd::pervasive::unreached;
use vstd::prelude::*;

use crate::error::{GhostError, GhostErrorView};
use crate::lookup::{
    Lookup, LookupView, Search, first_search, get_task_by_id_or_short_id, resume_search,
    search_for, search_reply, search_request,
};
use crate::protocol::{
    Reply, ReplyView, Request, RequestView, Step, Valueless, after, answers, done, drop_value,
    failure, is_output, lemma_every_request, lemma_opened_run, lemma_second_try, requests,
    valueless, without_value,
};
use crate::task::{Task, TaskView, copy_task};

verus! {

/// A `status_with_conn` command under way, or the one that a `status` command consists of.
pub struct StatusState {
    pub task_id: String,
    pub show_output: bool,
    pub stage: StatusStage,
}

/// What such a command is waiting for.
pub enum StatusStage {
    Opening,
    Finding { search: Search },
    Refreshing,
    Showing { task: Task },
}

/// The model of `StatusState`.
pub struct StatusView {
    pub task_id: Seq<char>,
    pub show_output: bool,
    pub stage: StatusStageView,
}

/// The model of `StatusStage`.
pub enum StatusStageView {
    Opening,
    Finding { search: Search },
    Refreshing,
    Showing { task: TaskView },
}

impl View for StatusStage {
    type V = StatusStageView;

    open spec fn view(&self) -> StatusStageView {
        match self {
            StatusStage::Opening => StatusStageView::Opening,
            StatusStage::Finding { search } => StatusStageView::Finding { search: *search },
            StatusStage::Refreshing => StatusStageView::Refreshing,
            StatusStage::Showing { task } => StatusStageView::Showing { task: task@ },
        }
    }
}

impl View for StatusState {
    type V = StatusView;

    open spec fn view(&self) -> StatusView {
        StatusView {
            task_id: self.task_id@,
            show_output: self.show_output,
            stage: self.stage@,
        }
    }
}

/// A step of a `status_with_conn` command.
pub type StatusStep = Step<Request, StatusState, Result<Task, GhostError>>;

/// The model of `StatusStep`.
pub type StatusStepView = Step<RequestView, StatusView, Result<TaskView, GhostErrorView>>;

/// A `status` command under way.
pub type StatusCommand = Valueless<StatusState>;

/// A step of a `status` command.
pub type StatusCommandStep = Step<Request, StatusCommand, Result<(), GhostError>>;

/// The model of `StatusCommandStep`.
pub type StatusCommandStepView = Step<
    RequestView,
    Valueless<StatusView>,
    Result<(), GhostErrorView>,
>;

impl StatusView {
    /// The same command, waiting for something else.
    pub open spec fn at(self, stage: StatusStageView) -> StatusView {
        StatusView { stage, ..self }
    }

    /// Goes on to search for the task.
    pub open spec fn find(self, search: Search) -> StatusStepView {
        Step::Ask {
            request: search_request(search, self.task_id),
            state: self.at(StatusStageView::Finding { search }),
        }
    }

    /// Whether the command is waiting for a reply of this kind.
    pub open spec fn awaits(self, reply: ReplyView) -> bool {
        match self.stage {
            StatusStageView::Opening => reply is Finished,
            StatusStageView::Finding { .. } => reply is Found,
            StatusStageView::Refreshing => reply is Found,
            StatusStageView::Showing { .. } => reply is Shown,
        }
    }

    /// What follows from a reply. An error ends the command.
    pub open spec fn next(self, reply: ReplyView) -> StatusStepView {
        match self.stage {
            StatusStageView::Opening => match reply->Finished_0 {
                Err(e) => Step::Done { result: Err(e) },
                Ok(_) => self.find(first_search(self.task_id)),
            },
            StatusStageView::Finding { search } => match search_reply(search, reply->Found_0) {
                LookupView::Retry => self.find(Search::Short),
                LookupView::Resolved { result: Err(e) } => Step::Done { result: Err(e) },
                LookupView::Resolved { result: Ok(task) } => Step::Ask {
                    request: RequestView::RefreshTask { id: task.id },
                    state: self.at(StatusStageView::Refreshing),
                },
            },
            StatusStageView::Refreshing => match reply->Found_0 {
                Err(e) => Step::Done { result: Err(e) },
                Ok(task) => if self.show_output {
                    Step::Ask {
                        request: RequestView::ShowTaskDetails { task },
                        state: self.at(StatusStageView::Showing { task }),
                    }
                } else {
                    Step::Done { result: Ok(task) }
                },
            },
            StatusStageView::Showing { task } => Step::Done { result: Ok(task) },
        }
    }
}

/// Whether a step can be gone on from with any reply that answers its request.
pub open spec fn status_ready(step: StatusStepView) -> bool {
    step matches Step::Ask { request, state } ==> forall|r: ReplyView| #[trigger]
        answers(request, r) ==> state.awaits(r)
}

/// The same of a `status` command.
pub open spec fn status_command_ready(step: StatusCommandStepView) -> bool {
    step matches Step::Ask { request, state } ==> forall|r: ReplyView| #[trigger]
        answers(request, r) ==> state.command.awaits(r)
}

/// The first step of `status`.
pub open spec fn status_opening(task_id: Seq<char>) -> StatusCommandStepView {
    Step::Ask {
        request: RequestView::OpenDatabase,
        state: Valueless {
            command: StatusView { task_id, show_output: true, stage: StatusStageView::Opening },
        },
    }
}

/// The first step of `status_with_conn`.
pub open spec fn status_start(task_id: Seq<char>, show_output: bool) -> StatusStepView {
    StatusView { task_id, show_output, stage: StatusStageView::Opening }.find(
        first_search(task_id),
    )
}

/// Checks the status of a background process, with a task store that is opened first. The
/// task is shown, and not handed back.
pub fn status(task_id: &str) -> (r: StatusCommandStep)
    ensures
        r@ == status_opening(task_id@),
        status_command_ready(r@),
{
    let stage = StatusStage::Opening;
    Step::Ask {
        request: Request::OpenDatabase,
        state: Valueless {
            command: StatusState { task_id: task_id.to_owned(), show_output: true, stage },
        },
    }
}

/// Checks the status of a background process, with a task store that is open.
pub fn status_with_conn(task_id: &str, show_output: bool) -> (r: StatusStep)
    ensures
        r@ == status_start(task_id@, show_output),
        status_ready(r@),
{
    let (request, search) = get_task_by_id_or_short_id(task_id);
    let stage = StatusStage::Finding { search };
    Step::Ask { request, state: StatusState { task_id: task_id.to_owned(), show_output, stage } }
}

impl StatusState {
    /// Goes on with a reply.
    pub fn resume(self, reply: Reply) -> (r: StatusStep)
        requires
            self@.awaits(reply@),
        ensures
            r@ == self@.next(reply@),
            status_ready(r@),
    {
        let StatusState { task_id, show_output, stage } = self;
        match (stage, reply) {
            (StatusStage::Opening, Reply::Finished(Ok(_))) => {
                status_with_conn(task_id.as_str(), show_output)
            },
            (StatusStage::Finding { search }, Reply::Found(result)) => match resume_search(
                search,
                result,
            ) {
                Lookup::Retry => {
                    let request = search_for(Search::Short, task_id.as_str());
                    let stage = StatusStage::Finding { search: Search::Short };
                    Step::Ask { request, state: StatusState { task_id, show_output, stage } }
                },
                Lookup::Resolved { result: Err(e) } => Step::Done { result: Err(e) },
                Lookup::Resolved { result: Ok(task) } => {
                    let request = Request::RefreshTask { id: task.id };
                    let stage = StatusStage::Refreshing;
                    Step::Ask { request, state: StatusState { task_id, show_output, stage } }
                },
            },
            (StatusStage::Refreshing, Reply::Found(Ok(task))) => {
                if show_output {
                    let request = Request::ShowTaskDetails { task: copy_task(&task) };
                    let stage = StatusStage::Showing { task };
                    Step::Ask { request, state: StatusState { task_id, show_output, stage } }
                } else {
                    Step::Done { result: Ok(task) }
                }
            },
            (StatusStage::Showing { task }, _) => Step::Done { result: Ok(task) },
            (_, Reply::Finished(Err(e))) => Step::Done { result: Err(e) },
            (_, Reply::Found(Err(e))) => Step::Done { result: Err(e) },
            _ => unreached(),
        }
    }
}

impl Valueless<StatusState> {
    /// Goes on with a reply.
    pub fn resume(self, reply: Reply) -> (r: StatusCommandStep)
        requires
            self@.command.awaits(reply@),
        ensures
            r@ == without_value(self@.command.next(reply@)),
            status_command_ready(r@),
    {
        drop_value(self.command.resume(reply))
    }
}

/// The steps of a `status_with_conn` command as a function.
pub open spec fn status_next() -> spec_fn(StatusView, ReplyView) -> StatusStepView {
    |s: StatusView, r: ReplyView| s.next(r)
}

/// `status` opens the task store and is then `status_with_conn` with output, but for the task,
/// which is not its result.
pub proof fn law_status_opens(task_id: Seq<char>, replies: Seq<ReplyView>)
    ensures
        ({
            let step = status_opening(task_id);
            let start = status_start(task_id, true);
            let all = seq![done()] + replies;
            &&& after(valueless(status_next()), step, all) == without_value(
                after(status_next(), start, replies),
            )
            &&& requests(valueless(status_next()), step, all) == seq![RequestView::OpenDatabase]
                + requests(status_next(), start, replies)
        }),
{
    lemma_opened_run(
        status_next(),
        status_opening(task_id)->state.command,
        status_start(task_id, true),
        replies,
    );
}

/// The task that was found is checked by its own id, whatever part of it the user gave, and
/// the result is the task as it is after the check. It is shown if and only if output was
/// asked for.
pub proof fn law_status_succeeds(
    task_id: Seq<char>,
    show_output: bool,
    found: TaskView,
    checked: TaskView,
)
    ensures
        ({
            let step = status_start(task_id, show_output);
            let replies = seq![
                ReplyView::Found(Ok(found)),
                ReplyView::Found(Ok(checked)),
                ReplyView::Shown,
            ];
            let quiet = seq![
                search_request(first_search(task_id), task_id),
                RequestView::RefreshTask { id: found.id },
            ];
            &&& after(status_next(), step, replies) == (StatusStepView::Done {
                result: Ok(checked),
            })
            &&& requests(status_next(), step, replies) == if show_output {
                quiet.push(RequestView::ShowTaskDetails { task: checked })
            } else {
                quiet
            }
        }),
{
    reveal_with_fuel(after, 5);
    reveal_with_fuel(requests, 5);
}

/// A full id that was not found is searched for again, as the beginning of one. If that finds
/// the task, all goes on as if it had been found at first; only one request more is made.
pub proof fn law_status_retries(
    state: StatusView,
    missed: GhostErrorView,
    task: TaskView,
    replies: Seq<ReplyView>,
)
    requires
        missed is TaskNotFound,
    ensures
        ({
            let step = state.find(Search::Full);
            let again = step->state.next(ReplyView::Found(Err(missed)));
            let found = ReplyView::Found(Ok(task));
            let once = seq![found] + replies;
            let twice = seq![ReplyView::Found(Err(missed)), found] + replies;
            &&& again == state.find(Search::Short)
            &&& again->state.next(found) == step->state.next(found)
            &&& after(status_next(), step, twice) == after(status_next(), step, once)
            &&& requests(status_next(), step, twice) == seq![
                RequestView::GetTask { id: state.task_id },
                RequestView::GetTaskByShortId { id: state.task_id },
            ] + requests(status_next(), step, once).drop_first()
        }),
{
    let step = state.find(Search::Full);
    let missing = ReplyView::Found(Err(missed));
    let found = ReplyView::Found(Ok(task));
    lemma_second_try(status_next(), step, missing, found, replies);
    let once = requests(status_next(), step, seq![found] + replies);
    let rest = requests(status_next(), step->state.next(found), replies);
    assert(once.drop_first() =~= rest);
}

/// Without output, nothing is shown.
pub proof fn law_status_quiet(task_id: Seq<char>, replies: Seq<ReplyView>)
    ensures
        ({
            let made = requests(status_next(), status_start(task_id, false), replies);
            forall|i: int| 0 <= i < made.len() ==> !is_output(#[trigger] made[i])
        }),
{
    lemma_every_request(
        status_next(),
        |s: StatusView| !s.show_output,
        |q: RequestView| !is_output(q),
        status_start(task_id, false),
        replies,
    );
}

/// Any failure ends the command, and is its result, except that a full id that was not
/// found is searched for again.
pub proof fn law_status_fails(state: StatusView, reply: ReplyView)
    requires
        state.awaits(reply),
        failure(reply) is Some,
        !(state.stage == (StatusStageView::Finding { search: Search::Full })
            && failure(reply)->0 is TaskNotFound),
    ensures
        state.next(reply) == (StatusStepView::Done { result: Err(failure(reply)->0) }),
{
}

} // verus!
