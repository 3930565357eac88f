//! Listing background processes.

use vstd::pervasive::unreached;
use vstd::prelude::*;

use crate::error::{GhostError, GhostErrorView};
use crate::protocol::{
    Reply, ReplyView, Request, RequestView, Step, Valueless, after, answers, done, drop_value,
    failure, is_output, lemma_every_request, lemma_opened_run, requests, valueless, without_value,
};
use crate::task::{Task, TaskView, copy_tasks, copy_text};

verus! {

/// A `list_with_conn` command under way, or the one that a `list` command consists of.
pub struct ListState {
    pub status_filter: Option<String>,
    pub show_all: bool,
    pub show_output: bool,
    pub stage: ListStage,
}

/// What such a command is waiting for.
pub enum ListStage {
    Opening,
    Fetching,
    Showing { tasks: Vec<Task> },
}

/// The model of `ListState`.
pub struct ListView {
    pub status_filter: Option<Seq<char>>,
    pub show_all: bool,
    pub show_output: bool,
    pub stage: ListStageView,
}

/// The model of `ListStage`.
pub enum ListStageView {
    Opening,
    Fetching,
    Showing { tasks: Seq<TaskView> },
}

impl View for ListStage {
    type V = ListStageView;

    open spec fn view(&self) -> ListStageView {
        match self {
            ListStage::Opening => ListStageView::Opening,
            ListStage::Fetching => ListStageView::Fetching,
            ListStage::Showing { tasks } => ListStageView::Showing { tasks: tasks.deep_view() },
        }
    }
}

impl View for ListState {
    type V = ListView;

    open spec fn view(&self) -> ListView {
        ListView {
            status_filter: self.status_filter.deep_view(),
            show_all: self.show_all,
            show_output: self.show_output,
            stage: self.stage@,
        }
    }
}

/// A step of a `list_with_conn` command.
pub type ListStep = Step<Request, ListState, Result<Vec<Task>, GhostError>>;

/// The model of `ListStep`.
pub type ListStepView = Step<RequestView, ListView, Result<Seq<TaskView>, GhostErrorView>>;

/// A `list` command under way.
pub type ListCommand = Valueless<ListState>;

/// A step of a `list` command.
pub type ListCommandStep = Step<Request, ListCommand, Result<(), GhostError>>;

/// The model of `ListCommandStep`.
pub type ListCommandStepView = Step<RequestView, Valueless<ListView>, Result<(), GhostErrorView>>;

impl ListView {
    /// The same command, waiting for something else.
    pub open spec fn at(self, stage: ListStageView) -> ListView {
        ListView { stage, ..self }
    }

    /// Goes on to fetch the tasks.
    pub open spec fn fetch(self) -> ListStepView {
        Step::Ask {
            request: RequestView::ListTasks {
                status_filter: self.status_filter,
                show_all: self.show_all,
            },
            state: self.at(ListStageView::Fetching),
        }
    }

    /// Whether the command is waiting for a reply of this kind.
    pub open spec fn awaits(self, reply: ReplyView) -> bool {
        match self.stage {
            ListStageView::Opening => reply is Finished,
            ListStageView::Fetching => reply is Listed,
            ListStageView::Showing { .. } => reply is Shown,
        }
    }

    /// What follows from a reply. An error ends the command.
    pub open spec fn next(self, reply: ReplyView) -> ListStepView {
        match self.stage {
            ListStageView::Opening => match reply->Finished_0 {
                Err(e) => Step::Done { result: Err(e) },
                Ok(_) => self.fetch(),
            },
            ListStageView::Fetching => match reply->Listed_0 {
                Err(e) => Step::Done { result: Err(e) },
                Ok(tasks) => if self.show_output {
                    Step::Ask {
                        request: RequestView::ShowTaskList { tasks },
                        state: self.at(ListStageView::Showing { tasks }),
                    }
                } else {
                    Step::Done { result: Ok(tasks) }
                },
            },
            ListStageView::Showing { tasks } => Step::Done { result: Ok(tasks) },
        }
    }
}

/// Whether a step can be gone on from with any reply that answers its request.
pub open spec fn list_ready(step: ListStepView) -> bool {
    step matches Step::Ask { request, state } ==> forall|r: ReplyView| #[trigger]
        answers(request, r) ==> state.awaits(r)
}

/// The same of a `list` command.
pub open spec fn list_command_ready(step: ListCommandStepView) -> bool {
    step matches Step::Ask { request, state } ==> forall|r: ReplyView| #[trigger]
        answers(request, r) ==> state.command.awaits(r)
}

/// The first step of `list`.
pub open spec fn list_opening(
    status_filter: Option<Seq<char>>,
    show_all: bool,
) -> ListCommandStepView {
    Step::Ask {
        request: RequestView::OpenDatabase,
        state: Valueless {
            command: ListView {
                status_filter,
                show_all,
                show_output: true,
                stage: ListStageView::Opening,
            },
        },
    }
}

/// The first step of `list_with_conn`.
pub open spec fn list_start(
    status_filter: Option<Seq<char>>,
    show_all: bool,
    show_output: bool,
) -> ListStepView {
    ListView { status_filter, show_all, show_output, stage: ListStageView::Opening }.fetch()
}

/// Lists background processes, with a task store that is opened first. The tasks are shown,
/// and not handed back.
pub fn list(status_filter: Option<String>, show_all: bool) -> (r: ListCommandStep)
    ensures
        r@ == list_opening(status_filter.deep_view(), show_all),
        list_command_ready(r@),
{
    let stage = ListStage::Opening;
    Step::Ask {
        request: Request::OpenDatabase,
        state: Valueless {
            command: ListState { status_filter, show_all, show_output: true, stage },
        },
    }
}

/// Lists background processes, with a task store that is open.
pub fn list_with_conn(
    status_filter: Option<String>,
    show_all: bool,
    show_output: bool,
) -> (r: ListStep)
    ensures
        r@ == list_start(status_filter.deep_view(), show_all, show_output),
        list_ready(r@),
{
    let request = Request::ListTasks { status_filter: copy_text(&status_filter), show_all };
    let stage = ListStage::Fetching;
    Step::Ask { request, state: ListState { status_filter, show_all, show_output, stage } }
}

impl ListState {
    /// Goes on with a reply.
    pub fn resume(self, reply: Reply) -> (r: ListStep)
        requires
            self@.awaits(reply@),
        ensures
            r@ == self@.next(reply@),
            list_ready(r@),
    {
        let ListState { status_filter, show_all, show_output, stage } = self;
        match (stage, reply) {
            (ListStage::Opening, Reply::Finished(Ok(_))) => {
                list_with_conn(status_filter, show_all, show_output)
            },
            (ListStage::Fetching, Reply::Listed(Ok(tasks))) => {
                if show_output {
                    let request = Request::ShowTaskList { tasks: copy_tasks(&tasks) };
                    let stage = ListStage::Showing { tasks };
                    Step::Ask {
                        request,
                        state: ListState { status_filter, show_all, show_output, stage },
                    }
                } else {
                    Step::Done { result: Ok(tasks) }
                }
            },
            (ListStage::Showing { tasks }, _) => Step::Done { result: Ok(tasks) },
            (_, Reply::Finished(Err(e))) => Step::Done { result: Err(e) },
            (_, Reply::Listed(Err(e))) => Step::Done { result: Err(e) },
            _ => unreached(),
        }
    }
}

impl Valueless<ListState> {
    /// Goes on with a reply.
    pub fn resume(self, reply: Reply) -> (r: ListCommandStep)
        requires
            self@.command.awaits(reply@),
        ensures
            r@ == without_value(self@.command.next(reply@)),
            list_command_ready(r@),
    {
        drop_value(self.command.resume(reply))
    }
}

/// The steps of a `list_with_conn` command as a function.
pub open spec fn list_next() -> spec_fn(ListView, ReplyView) -> ListStepView {
    |s: ListView, r: ReplyView| s.next(r)
}

/// `list` opens the task store and is then `list_with_conn` with output, but for the tasks,
/// which are not its result.
pub proof fn law_list_opens(
    status_filter: Option<Seq<char>>,
    show_all: bool,
    replies: Seq<ReplyView>,
)
    ensures
        ({
            let step = list_opening(status_filter, show_all);
            let start = list_start(status_filter, show_all, true);
            let all = seq![done()] + replies;
            &&& after(valueless(list_next()), step, all) == without_value(
                after(list_next(), start, replies),
            )
            &&& requests(valueless(list_next()), step, all) == seq![RequestView::OpenDatabase]
                + requests(list_next(), start, replies)
        }),
{
    lemma_opened_run(
        list_next(),
        list_opening(status_filter, show_all)->state.command,
        list_start(status_filter, show_all, true),
        replies,
    );
}

/// The filter goes to the task store as it was given, and the tasks that come back are the
/// result as they are. They are shown if and only if output was asked for.
pub proof fn law_list_succeeds(
    status_filter: Option<Seq<char>>,
    show_all: bool,
    show_output: bool,
    tasks: Seq<TaskView>,
)
    ensures
        ({
            let step = list_start(status_filter, show_all, show_output);
            let replies = seq![ReplyView::Listed(Ok(tasks)), ReplyView::Shown];
            let fetch = RequestView::ListTasks { status_filter, show_all };
            &&& after(list_next(), step, replies) == (ListStepView::Done { result: Ok(tasks) })
            &&& requests(list_next(), step, replies) == if show_output {
                seq![fetch, RequestView::ShowTaskList { tasks }]
            } else {
                seq![fetch]
            }
        }),
{
    reveal_with_fuel(after, 4);
    reveal_with_fuel(requests, 4);
}

/// Without output, nothing is shown.
pub proof fn law_list_quiet(
    status_filter: Option<Seq<char>>,
    show_all: bool,
    replies: Seq<ReplyView>,
)
    ensures
        ({
            let made = requests(list_next(), list_start(status_filter, show_all, false), replies);
            forall|i: int| 0 <= i < made.len() ==> !is_output(#[trigger] made[i])
        }),
{
    lemma_every_request(
        list_next(),
        |s: ListView| !s.show_output,
        |q: RequestView| !is_output(q),
        list_start(status_filter, show_all, false),
        replies,
    );
}

/// Any failure ends the command, and is its result.
pub proof fn law_list_fails(state: ListView, reply: ReplyView)
    requires
        state.awaits(reply),
        failure(reply) is Some,
    ensures
        state.next(reply) == (ListStepView::Done { result: Err(failure(reply)->0) }),
{
}

} // verus!
