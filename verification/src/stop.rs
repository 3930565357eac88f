//! Stopping a background process.

use vstd::pervasive::unreached;
use vstd::prelude::*;

use crate::error::{GhostError, GhostErrorView};
use crate::lookup::{
    Lookup, LookupView, Search, first_search, get_task_by_id_or_short_id, resume_search,
    search_for, search_reply, search_request,
};
use crate::protocol::{
    Reply, ReplyView, Request, RequestView, Step, after, answers, done, failure, is_done, is_output,
    lemma_every_link, lemma_every_request, lemma_second_try, requests,
};
use crate::task::{Task, TaskStatus, TaskView, copy_task};
use crate::text::{decimal, decimal_text};

verus! {

/// A `stop` command under way.
pub struct StopState {
    pub task_id: String,
    pub force: bool,
    pub show_output: bool,
    pub stage: StopStage,
}

/// What a `stop` command is waiting for.
pub enum StopStage {
    Opening,
    Finding { search: Search },
    Checking { task: Task },
    Killing { task: Task },
    Marking { task: Task },
    Reporting,
}

/// The model of `StopState`.
pub struct StopView {
    pub task_id: Seq<char>,
    pub force: bool,
    pub show_output: bool,
    pub stage: StopStageView,
}

/// The model of `StopStage`.
pub enum StopStageView {
    Opening,
    Finding { search: Search },
    Checking { task: TaskView },
    Killing { task: TaskView },
    Marking { task: TaskView },
    Reporting,
}

impl View for StopStage {
    type V = StopStageView;

    open spec fn view(&self) -> StopStageView {
        match self {
            StopStage::Opening => StopStageView::Opening,
            StopStage::Finding { search } => StopStageView::Finding { search: *search },
            StopStage::Checking { task } => StopStageView::Checking { task: task@ },
            StopStage::Killing { task } => StopStageView::Killing { task: task@ },
            StopStage::Marking { task } => StopStageView::Marking { task: task@ },
            StopStage::Reporting => StopStageView::Reporting,
        }
    }
}

impl View for StopState {
    type V = StopView;

    open spec fn view(&self) -> StopView {
        StopView {
            task_id: self.task_id@,
            force: self.force,
            show_output: self.show_output,
            stage: self.stage@,
        }
    }
}

/// A step of a `stop` command.
pub type StopStep = Step<Request, StopState, Result<(), GhostError>>;

/// The model of `StopStep`.
pub type StopStepView = Step<RequestView, StopView, Result<(), GhostErrorView>>;

/// The status of a task that was stopped.
pub open spec fn stopped_status(force: bool) -> TaskStatus {
    if force {
        TaskStatus::Killed
    } else {
        TaskStatus::Exited
    }
}

/// How a task is killed: as a group where it has one, else as a single process.
pub open spec fn kill_request(task: TaskView, force: bool) -> RequestView {
    match task.pgid {
        Some(pgid) => RequestView::KillGroup { pgid, force },
        None => RequestView::Kill { pid: task.pid, force },
    }
}

/// What the user is told once a task was stopped.
pub open spec fn stopped_message(task_id: Seq<char>, pid: u32, force: bool) -> Seq<char> {
    "Process "@ + task_id + " ("@ + decimal(pid as nat) + ") has been "@ + stopped_status(
        force,
    ).name() + "\n"@
}

impl StopView {
    /// The same command, waiting for something else.
    pub open spec fn at(self, stage: StopStageView) -> StopView {
        StopView { stage, ..self }
    }

    /// Goes on to search for the task.
    pub open spec fn find(self, search: Search) -> StopStepView {
        Step::Ask {
            request: search_request(search, self.task_id),
            state: self.at(StopStageView::Finding { search }),
        }
    }

    /// Whether the command is waiting for a reply of this kind.
    pub open spec fn awaits(self, reply: ReplyView) -> bool {
        match self.stage {
            StopStageView::Opening => reply is Finished,
            StopStageView::Finding { .. } => reply is Found,
            StopStageView::Checking { .. } => reply is Finished,
            StopStageView::Killing { .. } => reply is Finished,
            StopStageView::Marking { .. } => reply is Finished,
            StopStageView::Reporting => reply is Shown,
        }
    }

    /// What follows from a reply. An error ends the command.
    pub open spec fn next(self, reply: ReplyView) -> StopStepView {
        match self.stage {
            StopStageView::Opening => match reply->Finished_0 {
                Err(e) => Step::Done { result: Err(e) },
                Ok(_) => self.find(first_search(self.task_id)),
            },
            StopStageView::Finding { search } => match search_reply(search, reply->Found_0) {
                LookupView::Retry => self.find(Search::Short),
                LookupView::Resolved { result: Err(e) } => Step::Done { result: Err(e) },
                LookupView::Resolved { result: Ok(task) } => Step::Ask {
                    request: RequestView::CheckRunning { task },
                    state: self.at(StopStageView::Checking { task }),
                },
            },
            StopStageView::Checking { task } => match reply->Finished_0 {
                Err(e) => Step::Done { result: Err(e) },
                Ok(_) => Step::Ask {
                    request: kill_request(task, self.force),
                    state: self.at(StopStageView::Killing { task }),
                },
            },
            StopStageView::Killing { task } => match reply->Finished_0 {
                Err(e) => Step::Done { result: Err(e) },
                Ok(_) => Step::Ask {
                    request: RequestView::UpdateStatus {
                        id: task.id,
                        status: stopped_status(self.force),
                        exit_code: None,
                    },
                    state: self.at(StopStageView::Marking { task }),
                },
            },
            StopStageView::Marking { task } => match reply->Finished_0 {
                Err(e) => Step::Done { result: Err(e) },
                Ok(_) => if self.show_output {
                    Step::Ask {
                        request: RequestView::Print {
                            text: stopped_message(self.task_id, task.pid, self.force),
                        },
                        state: self.at(StopStageView::Reporting),
                    }
                } else {
                    Step::Done { result: Ok(()) }
                },
            },
            StopStageView::Reporting => Step::Done { result: Ok(()) },
        }
    }
}

/// Whether a step can be gone on from with any reply that answers its request.
pub open spec fn stop_ready(step: StopStepView) -> bool {
    step matches Step::Ask { request, state } ==> forall|r: ReplyView| #[trigger]
        answers(request, r) ==> state.awaits(r)
}

/// The first step of `stop`.
pub open spec fn stop_opening(task_id: Seq<char>, force: bool, show_output: bool) -> StopStepView {
    Step::Ask {
        request: RequestView::OpenDatabase,
        state: StopView { task_id, force, show_output, stage: StopStageView::Opening },
    }
}

/// The first step of `stop_with_conn`.
pub open spec fn stop_start(task_id: Seq<char>, force: bool, show_output: bool) -> StopStepView {
    StopView { task_id, force, show_output, stage: StopStageView::Opening }.find(
        first_search(task_id),
    )
}

/// Stops a background process, with a task store that is opened first.
pub fn stop(task_id: &str, force: bool, show_output: bool) -> (r: StopStep)
    ensures
        r@ == stop_opening(task_id@, force, show_output),
        stop_ready(r@),
{
    Step::Ask {
        request: Request::OpenDatabase,
        state: StopState {
            task_id: task_id.to_owned(),
            force,
            show_output,
            stage: StopStage::Opening,
        },
    }
}

/// Stops a background process, with a task store that is open.
pub fn stop_with_conn(task_id: &str, force: bool, show_output: bool) -> (r: StopStep)
    ensures
        r@ == stop_start(task_id@, force, show_output),
        stop_ready(r@),
{
    let (request, search) = get_task_by_id_or_short_id(task_id);
    Step::Ask {
        request,
        state: StopState {
            task_id: task_id.to_owned(),
            force,
            show_output,
            stage: StopStage::Finding { search },
        },
    }
}

impl StopState {
    /// Goes on with a reply.
    pub fn resume(self, reply: Reply) -> (r: StopStep)
        requires
            self@.awaits(reply@),
        ensures
            r@ == self@.next(reply@),
            stop_ready(r@),
    {
        let StopState { task_id, force, show_output, stage } = self;
        match (stage, reply) {
            (StopStage::Opening, Reply::Finished(Ok(_))) => {
                stop_with_conn(task_id.as_str(), force, show_output)
            },
            (StopStage::Finding { search }, Reply::Found(result)) => match resume_search(
                search,
                result,
            ) {
                Lookup::Retry => {
                    let request = search_for(Search::Short, task_id.as_str());
                    let stage = StopStage::Finding { search: Search::Short };
                    Step::Ask { request, state: StopState { task_id, force, show_output, stage } }
                },
                Lookup::Resolved { result: Err(e) } => Step::Done { result: Err(e) },
                Lookup::Resolved { result: Ok(task) } => {
                    let request = Request::CheckRunning { task: copy_task(&task) };
                    let stage = StopStage::Checking { task };
                    Step::Ask { request, state: StopState { task_id, force, show_output, stage } }
                },
            },
            (StopStage::Checking { task }, Reply::Finished(Ok(_))) => {
                let request = match task.pgid {
                    Some(pgid) => Request::KillGroup { pgid, force },
                    None => Request::Kill { pid: task.pid, force },
                };
                let stage = StopStage::Killing { task };
                Step::Ask { request, state: StopState { task_id, force, show_output, stage } }
            },
            (StopStage::Killing { task }, Reply::Finished(Ok(_))) => {
                let status = status_after(force);
                let request = Request::UpdateStatus {
                    id: task.id.clone(),
                    status,
                    exit_code: None,
                };
                let stage = StopStage::Marking { task };
                Step::Ask { request, state: StopState { task_id, force, show_output, stage } }
            },
            (StopStage::Marking { task }, Reply::Finished(Ok(_))) => {
                if show_output {
                    let text = report(task_id.as_str(), task.pid, force);
                    let stage = StopStage::Reporting;
                    Step::Ask {
                        request: Request::Print { text },
                        state: StopState { task_id, force, show_output, stage },
                    }
                } else {
                    Step::Done { result: Ok(()) }
                }
            },
            (_, Reply::Finished(Err(e))) => Step::Done { result: Err(e) },
            (StopStage::Reporting, _) => Step::Done { result: Ok(()) },
            _ => unreached(),
        }
    }
}

/// The status of a task that was stopped.
fn status_after(force: bool) -> (r: TaskStatus)
    ensures
        r == stopped_status(force),
{
    if force {
        TaskStatus::Killed
    } else {
        TaskStatus::Exited
    }
}

/// What the user is told once a task was stopped.
fn report(task_id: &str, pid: u32, force: bool) -> (r: String)
    ensures
        r@ == stopped_message(task_id@, pid, force),
{
    let mut text = "Process ".to_owned();
    text.append(task_id);
    text.append(" (");
    text.append(decimal_text(pid as u64).as_str());
    text.append(") has been ");
    text.append(status_after(force).as_str());
    text.append("\n");
    text
}

/// The steps of a `stop` command as a function.
pub open spec fn stop_next() -> spec_fn(StopView, ReplyView) -> StopStepView {
    |s: StopView, r: ReplyView| s.next(r)
}

/// Whether a request sends a signal.
pub open spec fn is_kill(request: RequestView) -> bool {
    request is Kill || request is KillGroup
}

/// Whatever comes back: a signal is sent only to a task that was just found to be running, to
/// its whole group where it has one and else to its process, forced if and only if that was
/// asked for. The task is marked only once the signal was sent, as killed if that was forced
/// and else as exited, without an exit code. The user is told only once the task was marked.
pub proof fn law_stop_order(
    task_id: Seq<char>,
    force: bool,
    show_output: bool,
    replies: Seq<ReplyView>,
)
    ensures
        ({
            let made = requests(stop_next(), stop_opening(task_id, force, show_output), replies);
            &&& made.len() <= replies.len() + 1
            &&& made[0] == RequestView::OpenDatabase
            &&& forall|i: int|
                0 <= i < made.len() - 1 && answers(made[i], #[trigger] replies[i]) ==> {
                    let then = made[i + 1];
                    &&& then is KillGroup ==> {
                        &&& made[i] is CheckRunning && is_done(replies[i])
                        &&& made[i]->CheckRunning_task.pgid == Some(then->KillGroup_pgid)
                        &&& then->KillGroup_force == force
                    }
                    &&& then is Kill ==> {
                        &&& made[i] is CheckRunning && is_done(replies[i])
                        &&& made[i]->CheckRunning_task.pgid is None
                        &&& made[i]->CheckRunning_task.pid == then->Kill_pid
                        &&& then->Kill_force == force
                    }
                    &&& then is UpdateStatus ==> {
                        &&& is_kill(made[i]) && is_done(replies[i])
                        &&& force ==> then->UpdateStatus_status == TaskStatus::Killed
                        &&& !force ==> then->UpdateStatus_status == TaskStatus::Exited
                        &&& then->UpdateStatus_exit_code is None
                    }
                    &&& then is Print ==> made[i] is UpdateStatus && is_done(replies[i])
                }
        }),
{
    let paired = |q: RequestView, s: StopView|
        s.force == force && match s.stage {
            StopStageView::Opening => q is OpenDatabase,
            StopStageView::Finding { .. } => q is GetTask || q is GetTaskByShortId,
            StopStageView::Checking { task } => q == RequestView::CheckRunning { task },
            StopStageView::Killing { .. } => is_kill(q),
            StopStageView::Marking { .. } => q is UpdateStatus,
            StopStageView::Reporting => q is Print,
        };
    let link = |q: RequestView, r: ReplyView, then: RequestView|
        answers(q, r) ==> {
            &&& then is KillGroup ==> {
                &&& q is CheckRunning && is_done(r)
                &&& q->CheckRunning_task.pgid == Some(then->KillGroup_pgid)
                &&& then->KillGroup_force == force
            }
            &&& then is Kill ==> {
                &&& q is CheckRunning && is_done(r)
                &&& q->CheckRunning_task.pgid is None
                &&& q->CheckRunning_task.pid == then->Kill_pid
                &&& then->Kill_force == force
            }
            &&& then is UpdateStatus ==> {
                &&& is_kill(q) && is_done(r)
                &&& force ==> then->UpdateStatus_status == TaskStatus::Killed
                &&& !force ==> then->UpdateStatus_status == TaskStatus::Exited
                &&& then->UpdateStatus_exit_code is None
            }
            &&& then is Print ==> q is UpdateStatus && is_done(r)
        };
    let step = stop_opening(task_id, force, show_output);
    lemma_every_link(stop_next(), paired, link, step, replies);
}

/// Without output, nothing is shown.
pub proof fn law_stop_quiet(task_id: Seq<char>, force: bool, replies: Seq<ReplyView>)
    ensures
        forall|i: int|
            0 <= i < requests(stop_next(), stop_opening(task_id, force, false), replies).len()
                ==> !is_output(
                #[trigger] requests(
                    stop_next(),
                    stop_opening(task_id, force, false),
                    replies,
                )[i],
            ),
{
    lemma_every_request(
        stop_next(),
        |s: StopView| !s.show_output,
        |q: RequestView| !is_output(q),
        stop_opening(task_id, force, false),
        replies,
    );
}

/// Any failure ends the command, and is its result, except that a full id that was not
/// found is searched for again.
pub proof fn law_stop_fails(state: StopView, reply: ReplyView)
    requires
        state.awaits(reply),
        failure(reply) is Some,
        !(state.stage == (StopStageView::Finding { search: Search::Full })
            && failure(reply)->0 is TaskNotFound),
    ensures
        state.next(reply) == (StopStepView::Done { result: Err(failure(reply)->0) }),
{
}

/// What a `stop` command does when all goes well: the task that was found is checked; its
/// group is sent the signal if it has one, and else its process; it is marked under its own
/// id; and the user is told, by the id that was given, if that was asked for.
pub proof fn law_stop_succeeds(
    task_id: Seq<char>,
    force: bool,
    show_output: bool,
    task: TaskView,
)
    ensures
        ({
            let replies = seq![
                done(),
                ReplyView::Found(Ok(task)),
                done(),
                done(),
                done(),
                ReplyView::Shown,
            ];
            let step = stop_opening(task_id, force, show_output);
            let quiet = seq![
                RequestView::OpenDatabase,
                search_request(first_search(task_id), task_id),
                RequestView::CheckRunning { task },
                if task.pgid is Some {
                    RequestView::KillGroup { pgid: task.pgid->0, force }
                } else {
                    RequestView::Kill { pid: task.pid, force }
                },
                RequestView::UpdateStatus {
                    id: task.id,
                    status: if force {
                        TaskStatus::Killed
                    } else {
                        TaskStatus::Exited
                    },
                    exit_code: None,
                },
            ];
            let said = RequestView::Print {
                text: "Process "@ + task_id + " ("@ + decimal(task.pid as nat) + ") has been "@
                    + (if force {
                    "killed"@
                } else {
                    "exited"@
                }) + "\n"@,
            };
            &&& after(stop_next(), step, replies) == (StopStepView::Done { result: Ok(()) })
            &&& requests(stop_next(), step, replies) == if show_output {
                quiet.push(said)
            } else {
                quiet
            }
        }),
{
    reveal_with_fuel(after, 8);
    reveal_with_fuel(requests, 8);
}

/// A full id that was not found is searched for again, as the beginning of one. If that finds
/// the task, all goes on as if it had been found at first; only one request more is made.
pub proof fn law_stop_retries(
    state: StopView,
    missed: GhostErrorView,
    task: TaskView,
    replies: Seq<ReplyView>,
)
    requires
        missed is TaskNotFound,
    ensures
        ({
            let step = state.find(Search::Full);
            let again = step->state.next(ReplyView::Found(Err(missed)));
            let found = ReplyView::Found(Ok(task));
            let once = seq![found] + replies;
            let twice = seq![ReplyView::Found(Err(missed)), found] + replies;
            &&& again == state.find(Search::Short)
            &&& again->state.next(found) == step->state.next(found)
            &&& after(stop_next(), step, twice) == after(stop_next(), step, once)
            &&& requests(stop_next(), step, twice) == seq![
                RequestView::GetTask { id: state.task_id },
                RequestView::GetTaskByShortId { id: state.task_id },
            ] + requests(stop_next(), step, once).drop_first()
        }),
{
    let step = state.find(Search::Full);
    let missing = ReplyView::Found(Err(missed));
    let found = ReplyView::Found(Ok(task));
    lemma_second_try(stop_next(), step, missing, found, replies);
    let once = requests(stop_next(), step, seq![found] + replies);
    let rest = requests(stop_next(), step->state.next(found), replies);
    assert(once.drop_first() =~= rest);
}

/// `stop` opens the task store and is then `stop_with_conn`.
pub proof fn law_stop_opens(task_id: Seq<char>, force: bool, show_output: bool)
    ensures
        stop_opening(task_id, force, show_output)->state.next(done()) == stop_start(
            task_id,
            force,
            show_output,
        ),
{
}

} // verus!
