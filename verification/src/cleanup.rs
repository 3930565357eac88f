//! Deleting finished tasks.

use vstd::pervasive::unreached;
use vstd::prelude::*;

use crate::error::{GhostError, GhostErrorView};
use crate::protocol::{
    Reply, ReplyView, Request, RequestView, Step, after, answers, done, failure,
    lemma_every_request, requests,
};
use crate::status_filter::{
    filter_meaning, format_status_list, law_filter_spares_running, parse_status_filter,
    status_list,
};
use crate::task::{Task, TaskStatus, TaskView};
use crate::text::{decimal, decimal_text};

verus! {

/// A `cleanup` command under way.
pub struct CleanupState {
    /// Only tasks older than so many days are deleted, unless `all` is set.
    pub days: u64,
    /// Only show what would be deleted.
    pub dry_run: bool,
    /// Delete tasks whatever their age.
    pub all: bool,
    pub stage: CleanupStage,
}

/// What a `cleanup` command is waiting for.
pub enum CleanupStage {
    Opening { status: Option<String> },
    Searching,
    Deleting { statuses: Vec<TaskStatus> },
    Announcing { tasks: Vec<Task> },
    Showing,
    Counting { statuses: Vec<TaskStatus> },
    Closing,
}

/// The model of `CleanupState`.
pub struct CleanupView {
    pub days: u64,
    pub dry_run: bool,
    pub all: bool,
    pub stage: CleanupStageView,
}

/// The model of `CleanupStage`.
pub enum CleanupStageView {
    Opening { status: Option<Seq<char>> },
    Searching,
    Deleting { statuses: Seq<TaskStatus> },
    Announcing { tasks: Seq<TaskView> },
    Showing,
    Counting { statuses: Seq<TaskStatus> },
    Closing,
}

impl View for CleanupStage {
    type V = CleanupStageView;

    open spec fn view(&self) -> CleanupStageView {
        match self {
            CleanupStage::Opening { status } => CleanupStageView::Opening {
                status: status.deep_view(),
            },
            CleanupStage::Searching => CleanupStageView::Searching,
            CleanupStage::Deleting { statuses } => CleanupStageView::Deleting {
                statuses: statuses@,
            },
            CleanupStage::Announcing { tasks } => CleanupStageView::Announcing {
                tasks: tasks.deep_view(),
            },
            CleanupStage::Showing => CleanupStageView::Showing,
            CleanupStage::Counting { statuses } => CleanupStageView::Counting {
                statuses: statuses@,
            },
            CleanupStage::Closing => CleanupStageView::Closing,
        }
    }
}

impl View for CleanupState {
    type V = CleanupView;

    open spec fn view(&self) -> CleanupView {
        CleanupView {
            days: self.days,
            dry_run: self.dry_run,
            all: self.all,
            stage: self.stage@,
        }
    }
}

/// A step of a `cleanup` command.
pub type CleanupStep = Step<Request, CleanupState, Result<(), GhostError>>;

/// The model of `CleanupStep`.
pub type CleanupStepView = Step<RequestView, CleanupView, Result<(), GhostErrorView>>;

/// The age that tasks must have, if it matters.
pub open spec fn days_filter(days: u64, all: bool) -> Option<u64> {
    if all {
        None
    } else {
        Some(days)
    }
}

/// What is said if nothing matches.
pub open spec fn nothing_found() -> Seq<char> {
    "No tasks found matching cleanup criteria.\n"@
}

/// What is said before the tasks that would be deleted.
pub open spec fn would_delete(n: nat) -> Seq<char> {
    "The following "@ + decimal(n) + " task(s) would be deleted:\n"@
}

/// What is said after the tasks that would be deleted.
pub open spec fn would_delete_note(days: u64, all: bool) -> Seq<char> {
    if all {
        "\nNote: --all flag specified, all finished tasks would be deleted regardless of age.\n"@
    } else {
        "\nNote: Only tasks older than "@ + decimal(days as nat) + " days would be deleted.\n"@
    }
}

/// What is said of tasks that were deleted.
pub open spec fn have_deleted(n: nat) -> Seq<char> {
    "Successfully deleted "@ + decimal(n) + " task(s).\n"@
}

/// What is said of the tasks that were asked for.
pub open spec fn have_deleted_note(days: u64, all: bool, statuses: Seq<TaskStatus>) -> Seq<char> {
    if all {
        "Deleted all finished tasks regardless of age.\n"@
    } else {
        "Deleted tasks older than "@ + decimal(days as nat) + " days with status: "@ + status_list(
            statuses,
        ) + ".\n"@
    }
}

impl CleanupView {
    /// Asks for something.
    pub open spec fn ask(self, request: RequestView, stage: CleanupStageView) -> CleanupStepView {
        Step::Ask { request, state: CleanupView { stage, ..self } }
    }

    /// Prints a text.
    pub open spec fn say(self, text: Seq<char>, stage: CleanupStageView) -> CleanupStepView {
        self.ask(RequestView::Print { text }, stage)
    }

    /// Goes on once the task store is open: reads the filter, then looks for the tasks or
    /// deletes them.
    pub open spec fn begin(self, status: Option<Seq<char>>) -> CleanupStepView {
        let days = days_filter(self.days, self.all);
        match filter_meaning(status) {
            Err(e) => Step::Done { result: Err(e) },
            Ok(statuses) => if self.dry_run {
                self.ask(
                    RequestView::FindCleanupCandidates { days, statuses },
                    CleanupStageView::Searching,
                )
            } else {
                self.ask(
                    RequestView::DeleteTasks { days, statuses },
                    CleanupStageView::Deleting { statuses },
                )
            },
        }
    }

    /// Whether the command is waiting for a reply of this kind.
    pub open spec fn awaits(self, reply: ReplyView) -> bool {
        match self.stage {
            CleanupStageView::Opening { .. } => reply is Finished,
            CleanupStageView::Searching => reply is Listed,
            CleanupStageView::Deleting { .. } => reply is Deleted,
            CleanupStageView::Announcing { .. } => reply is Shown,
            CleanupStageView::Showing => reply is Shown,
            CleanupStageView::Counting { .. } => reply is Shown,
            CleanupStageView::Closing => reply is Shown,
        }
    }

    /// What follows from a reply. An error ends the command.
    pub open spec fn next(self, reply: ReplyView) -> CleanupStepView {
        match self.stage {
            CleanupStageView::Opening { status } => match reply->Finished_0 {
                Err(e) => Step::Done { result: Err(e) },
                Ok(_) => self.begin(status),
            },
            CleanupStageView::Searching => match reply->Listed_0 {
                Err(e) => Step::Done { result: Err(e) },
                Ok(tasks) => if tasks.len() == 0 {
                    self.say(nothing_found(), CleanupStageView::Closing)
                } else {
                    self.say(would_delete(tasks.len()), CleanupStageView::Announcing { tasks })
                },
            },
            CleanupStageView::Announcing { tasks } => self.ask(
                RequestView::ShowTaskList { tasks },
                CleanupStageView::Showing,
            ),
            CleanupStageView::Showing => self.say(
                would_delete_note(self.days, self.all),
                CleanupStageView::Closing,
            ),
            CleanupStageView::Deleting { statuses } => match reply->Deleted_0 {
                Err(e) => Step::Done { result: Err(e) },
                Ok(n) => if n == 0 {
                    self.say(nothing_found(), CleanupStageView::Closing)
                } else {
                    self.say(have_deleted(n as nat), CleanupStageView::Counting { statuses })
                },
            },
            CleanupStageView::Counting { statuses } => self.say(
                have_deleted_note(self.days, self.all, statuses),
                CleanupStageView::Closing,
            ),
            CleanupStageView::Closing => Step::Done { result: Ok(()) },
        }
    }
}

/// Whether a step can be gone on from with any reply that answers its request.
pub open spec fn cleanup_ready(step: CleanupStepView) -> bool {
    step matches Step::Ask { request, state } ==> forall|r: ReplyView| #[trigger]
        answers(request, r) ==> state.awaits(r)
}

/// The first step of `cleanup`.
pub open spec fn cleanup_opening(
    days: u64,
    status: Option<Seq<char>>,
    dry_run: bool,
    all: bool,
) -> CleanupStepView {
    let stage = CleanupStageView::Opening { status };
    Step::Ask {
        request: RequestView::OpenDatabase,
        state: CleanupView { days, dry_run, all, stage },
    }
}

/// The first step of `cleanup_with_conn`.
pub open spec fn cleanup_start(
    days: u64,
    status: Option<Seq<char>>,
    dry_run: bool,
    all: bool,
) -> CleanupStepView {
    CleanupView { days, dry_run, all, stage: CleanupStageView::Closing }.begin(status)
}

/// Cleans up old finished tasks, with a task store that is opened first.
pub fn cleanup(days: u64, status: Option<String>, dry_run: bool, all: bool) -> (r: CleanupStep)
    ensures
        r@ == cleanup_opening(days, status.deep_view(), dry_run, all),
        cleanup_ready(r@),
{
    let stage = CleanupStage::Opening { status };
    Step::Ask {
        request: Request::OpenDatabase,
        state: CleanupState { days, dry_run, all, stage },
    }
}

/// Cleans up old finished tasks, with a task store that is open.
pub fn cleanup_with_conn(days: u64, status: Option<String>, dry_run: bool, all: bool) -> (r:
    CleanupStep)
    ensures
        r@ == cleanup_start(days, status.deep_view(), dry_run, all),
        cleanup_ready(r@),
{
    let filter: Option<&str> = match &status {
        Some(text) => Some(text.as_str()),
        None => None,
    };
    match parse_status_filter(filter) {
        Err(e) => Step::Done { result: Err(e) },
        Ok(statuses) => {
            assert(statuses.deep_view() =~= statuses@);
            let age = if all {
                None
            } else {
                Some(days)
            };
            if dry_run {
                let request = Request::FindCleanupCandidates { days: age, statuses };
                let stage = CleanupStage::Searching;
                Step::Ask { request, state: CleanupState { days, dry_run, all, stage } }
            } else {
                let request = Request::DeleteTasks { days: age, statuses: copy_statuses(&statuses) };
                let stage = CleanupStage::Deleting { statuses };
                Step::Ask { request, state: CleanupState { days, dry_run, all, stage } }
            }
        },
    }
}

/// A second copy of a list of statuses.
fn copy_statuses(statuses: &Vec<TaskStatus>) -> (r: Vec<TaskStatus>)
    ensures
        r@ == statuses@,
{
    let mut r: Vec<TaskStatus> = Vec::new();
    let mut i: usize = 0;
    while i < statuses.len()
        invariant
            i <= statuses@.len(),
            r@ =~= statuses@.take(i as int),
        decreases statuses@.len() - i,
    {
        r.push(statuses[i]);
        i = i + 1;
    }
    assert(r@ =~= statuses@);
    r
}

/// A text with a number in it.
fn numbered(before: &str, n: u64, behind: &str) -> (r: String)
    ensures
        r@ == before@ + decimal(n as nat) + behind@,
{
    let mut r = before.to_owned();
    r.append(decimal_text(n).as_str());
    r.append(behind);
    r
}

impl CleanupState {
    /// Goes on with a reply.
    pub fn resume(self, reply: Reply) -> (r: CleanupStep)
        requires
            self@.awaits(reply@),
        ensures
            r@ == self@.next(reply@),
            cleanup_ready(r@),
    {
        let CleanupState { days, dry_run, all, stage } = self;
        let (request, stage) = match (stage, reply) {
            (CleanupStage::Opening { status }, Reply::Finished(Ok(_))) => {
                return cleanup_with_conn(days, status, dry_run, all);
            },
            (CleanupStage::Searching, Reply::Listed(Ok(tasks))) => {
                if tasks.len() == 0 {
                    let text = "No tasks found matching cleanup criteria.\n".to_owned();
                    (Request::Print { text }, CleanupStage::Closing)
                } else {
                    let text = numbered(
                        "The following ",
                        tasks.len() as u64,
                        " task(s) would be deleted:\n",
                    );
                    (Request::Print { text }, CleanupStage::Announcing { tasks })
                }
            },
            (CleanupStage::Announcing { tasks }, _) => {
                (Request::ShowTaskList { tasks }, CleanupStage::Showing)
            },
            (CleanupStage::Showing, _) => {
                let text = if all {
                    "\nNote: --all flag specified, all finished tasks would be deleted regardless of age.\n".to_owned()
                } else {
                    numbered("\nNote: Only tasks older than ", days, " days would be deleted.\n")
                };
                (Request::Print { text }, CleanupStage::Closing)
            },
            (CleanupStage::Deleting { statuses }, Reply::Deleted(Ok(n))) => {
                if n == 0 {
                    let text = "No tasks found matching cleanup criteria.\n".to_owned();
                    (Request::Print { text }, CleanupStage::Closing)
                } else {
                    let text = numbered("Successfully deleted ", n as u64, " task(s).\n");
                    (Request::Print { text }, CleanupStage::Counting { statuses })
                }
            },
            (CleanupStage::Counting { statuses }, _) => {
                let text = if all {
                    "Deleted all finished tasks regardless of age.\n".to_owned()
                } else {
                    let mut text = numbered(
                        "Deleted tasks older than ",
                        days,
                        " days with status: ",
                    );
                    text.append(format_status_list(&statuses).as_str());
                    text.append(".\n");
                    text
                };
                (Request::Print { text }, CleanupStage::Closing)
            },
            (CleanupStage::Closing, _) => {
                return Step::Done { result: Ok(()) };
            },
            (_, Reply::Finished(Err(e))) => {
                return Step::Done { result: Err(e) };
            },
            (_, Reply::Listed(Err(e))) => {
                return Step::Done { result: Err(e) };
            },
            (_, Reply::Deleted(Err(e))) => {
                return Step::Done { result: Err(e) };
            },
            _ => unreached(),
        };
        Step::Ask { request, state: CleanupState { days, dry_run, all, stage } }
    }
}

/// The steps of a `cleanup` command as a function.
pub open spec fn cleanup_next() -> spec_fn(CleanupView, ReplyView) -> CleanupStepView {
    |s: CleanupView, r: ReplyView| s.next(r)
}

/// `cleanup` opens the task store and is then `cleanup_with_conn`.
pub proof fn law_cleanup_opens(days: u64, status: Option<Seq<char>>, dry_run: bool, all: bool)
    ensures
        cleanup_opening(days, status, dry_run, all)->state.next(done()) == cleanup_start(
            days,
            status,
            dry_run,
            all,
        ),
{
}

/// A filter that makes no sense is refused before the task store is asked for anything.
pub proof fn law_cleanup_refuses_bad_filter(
    days: u64,
    status: Option<Seq<char>>,
    dry_run: bool,
    all: bool,
    replies: Seq<ReplyView>,
)
    requires
        filter_meaning(status) is Err,
    ensures
        ({
            let step = cleanup_start(days, status, dry_run, all);
            &&& after(cleanup_next(), step, replies) == (CleanupStepView::Done {
                result: Err(filter_meaning(status)->Err_0),
            })
            &&& requests(cleanup_next(), step, replies) == Seq::<RequestView>::empty()
        }),
{
}

/// What every request of a cleanup keeps to: a dry run deletes nothing; tasks are looked for
/// and deleted by the statuses of the filter, among which running is not; and by age, unless
/// that was not to matter.
pub open spec fn keeps_to_filter(
    request: RequestView,
    days: u64,
    status: Option<Seq<char>>,
    dry_run: bool,
    all: bool,
) -> bool {
    match request {
        RequestView::FindCleanupCandidates { days: d, statuses } => {
            &&& dry_run
            &&& all ==> d is None
            &&& !all ==> d == Some(days)
            &&& filter_meaning(status) == Ok::<Seq<TaskStatus>, GhostErrorView>(statuses)
            &&& !statuses.contains(TaskStatus::Running)
        },
        RequestView::DeleteTasks { days: d, statuses } => {
            &&& !dry_run
            &&& all ==> d is None
            &&& !all ==> d == Some(days)
            &&& filter_meaning(status) == Ok::<Seq<TaskStatus>, GhostErrorView>(statuses)
            &&& !statuses.contains(TaskStatus::Running)
        },
        _ => request is OpenDatabase || request is Print || request is ShowTaskList,
    }
}

/// A dry run never deletes, and no cleanup ever looks for or deletes running tasks, or tasks
/// of another status or age than was asked for: the age is the very number of days that was
/// given, or does not matter if all were asked for.
pub proof fn law_cleanup_keeps_to_filter(
    days: u64,
    status: Option<Seq<char>>,
    dry_run: bool,
    all: bool,
    replies: Seq<ReplyView>,
)
    ensures
        ({
            let made = requests(
                cleanup_next(),
                cleanup_opening(days, status, dry_run, all),
                replies,
            );
            forall|i: int|
                0 <= i < made.len() ==> keeps_to_filter(
                    #[trigger] made[i],
                    days,
                    status,
                    dry_run,
                    all,
                )
        }),
{
    law_filter_spares_running(status);
    let inv = |s: CleanupView|
        {
            &&& s.days == days
            &&& s.dry_run == dry_run
            &&& s.all == all
            &&& (s.stage matches CleanupStageView::Opening { status: given } ==> given == status)
        };
    lemma_every_request(
        cleanup_next(),
        inv,
        |q: RequestView| keeps_to_filter(q, days, status, dry_run, all),
        cleanup_opening(days, status, dry_run, all),
        replies,
    );
}

/// Any failure ends the command, and is its result.
pub proof fn law_cleanup_fails(state: CleanupView, reply: ReplyView)
    requires
        state.awaits(reply),
        failure(reply) is Some,
    ensures
        state.next(reply) == (CleanupStepView::Done { result: Err(failure(reply)->0) }),
{
}

/// What a dry run shows: how many tasks would be deleted, which, and by what age; or that
/// there are none.
pub proof fn law_cleanup_dry_run(
    days: u64,
    status: Option<Seq<char>>,
    all: bool,
    tasks: Seq<TaskView>,
)
    requires
        filter_meaning(status) is Ok,
    ensures
        ({
            let step = cleanup_start(days, status, true, all);
            let replies = seq![
                ReplyView::Listed(Ok(tasks)),
                ReplyView::Shown,
                ReplyView::Shown,
                ReplyView::Shown,
            ];
            let find = RequestView::FindCleanupCandidates {
                days: if all {
                    None
                } else {
                    Some(days)
                },
                statuses: filter_meaning(status)->Ok_0,
            };
            let none = "No tasks found matching cleanup criteria.\n"@;
            let count = "The following "@ + decimal(tasks.len()) + " task(s) would be deleted:\n"@;
            let note = if all {
                "\nNote: --all flag specified, all finished tasks would be deleted regardless of age.\n"@
            } else {
                "\nNote: Only tasks older than "@ + decimal(days as nat)
                    + " days would be deleted.\n"@
            };
            &&& after(cleanup_next(), step, replies) == (CleanupStepView::Done { result: Ok(()) })
            &&& requests(cleanup_next(), step, replies) == if tasks.len() == 0 {
                seq![find, RequestView::Print { text: none }]
            } else {
                seq![
                    find,
                    RequestView::Print { text: count },
                    RequestView::ShowTaskList { tasks },
                    RequestView::Print { text: note },
                ]
            }
        }),
{
    reveal_with_fuel(after, 6);
    reveal_with_fuel(requests, 6);
}

/// What a cleanup says: how many tasks were deleted, and by what age and status they were
/// chosen; or that there were none.
pub proof fn law_cleanup_deletes(days: u64, status: Option<Seq<char>>, all: bool, n: usize)
    requires
        filter_meaning(status) is Ok,
    ensures
        ({
            let step = cleanup_start(days, status, false, all);
            let statuses = filter_meaning(status)->Ok_0;
            let replies = seq![ReplyView::Deleted(Ok(n)), ReplyView::Shown, ReplyView::Shown];
            let delete = RequestView::DeleteTasks {
                days: if all {
                    None
                } else {
                    Some(days)
                },
                statuses,
            };
            let none = "No tasks found matching cleanup criteria.\n"@;
            let count = "Successfully deleted "@ + decimal(n as nat) + " task(s).\n"@;
            let note = if all {
                "Deleted all finished tasks regardless of age.\n"@
            } else {
                "Deleted tasks older than "@ + decimal(days as nat) + " days with status: "@
                    + status_list(statuses) + ".\n"@
            };
            &&& after(cleanup_next(), step, replies) == (CleanupStepView::Done { result: Ok(()) })
            &&& requests(cleanup_next(), step, replies) == if n == 0 {
                seq![delete, RequestView::Print { text: none }]
            } else {
                seq![
                    delete,
                    RequestView::Print { text: count },
                    RequestView::Print { text: note },
                ]
            }
        }),
{
    reveal_with_fuel(after, 5);
    reveal_with_fuel(requests, 5);
}

} // verus!
