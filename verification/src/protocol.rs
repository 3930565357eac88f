//! How a command talks to the world around it.
//!
//! A command never acts itself. It asks for one thing at a time, is handed the reply, and
//! goes on until it is done. Everything that touches files, processes, the task store or
//! the terminal happens between a request and its reply.

use vstd::prelude::*;

use crate::error::{GhostError, GhostErrorView, result_view};
use crate::task::{ProcessInfo, ProcessInfoView, Task, TaskStatus, TaskView};

verus! {

/// What a command does next: ask for something, or end with a result.
pub enum Step<Q, S, T> {
    /// The request is to be carried out, and its reply handed to the state.
    Ask { request: Q, state: S },
    /// The command has ended.
    Done { result: T },
}

impl<Q: View, S: View, T: DeepView> View for Step<Q, S, Result<T, GhostError>> {
    type V = Step<Q::V, S::V, Result<T::V, GhostErrorView>>;

    open spec fn view(&self) -> Self::V {
        match self {
            Step::Ask { request, state } => Step::Ask { request: request@, state: state@ },
            Step::Done { result } => Step::Done { result: result_view(*result) },
        }
    }
}

/// A command under way whose value is not wanted: only whether it ends well, and with which
/// error if not.
pub struct Valueless<S> {
    pub command: S,
}

impl<S: View> View for Valueless<S> {
    type V = Valueless<S::V>;

    open spec fn view(&self) -> Valueless<S::V> {
        Valueless { command: self.command@ }
    }
}

/// A step of a command whose value is not wanted.
pub open spec fn without_value<Q, S, T>(step: Step<Q, S, Result<T, GhostErrorView>>) -> Step<
    Q,
    Valueless<S>,
    Result<(), GhostErrorView>,
> {
    match step {
        Step::Ask { request, state } => Step::Ask { request, state: Valueless { command: state } },
        Step::Done { result: Ok(_) } => Step::Done { result: Ok(()) },
        Step::Done { result: Err(e) } => Step::Done { result: Err(e) },
    }
}

/// Drops the value that a command ends with.
pub fn drop_value<Q: View, S: View, T: DeepView>(step: Step<Q, S, Result<T, GhostError>>) -> (r:
    Step<Q, Valueless<S>, Result<(), GhostError>>)
    ensures
        r@ == without_value(step@),
{
    match step {
        Step::Ask { request, state } => Step::Ask { request, state: Valueless { command: state } },
        Step::Done { result: Ok(_) } => Step::Done { result: Ok(()) },
        Step::Done { result: Err(e) } => Step::Done { result: Err(e) },
    }
}

/// What a command can ask for.
#[allow(inconsistent_fields)]
#[derive(Debug, PartialEq, Eq)]
pub enum Request {
    /// Open the task store.
    OpenDatabase,
    /// Read the variable that names the user's shell.
    ReadShellVariable,
    /// Read assignments of environment variables.
    ParseEnvVars { env: Vec<String> },
    /// Find out the current directory.
    ReadCurrentDir,
    /// Start a process in the background, with its output going to a new log, in the usual
    /// place where no directory is given for it.
    SpawnProcess {
        command: Vec<String>,
        cwd: Option<Vec<u8>>,
        log_dir: Option<Vec<u8>>,
        env_vars: Vec<(String, String)>,
    },
    /// Store a new task.
    InsertTask {
        id: String,
        pid: u32,
        pgid: Option<i32>,
        command: Vec<String>,
        env: Option<Vec<(String, String)>>,
        cwd: Option<Vec<u8>>,
        log_path: Vec<u8>,
    },
    /// Wait until a process is seen running, for so many seconds at most.
    WaitForStart { pid: u32, seconds: u64 },
    /// Store the status of a task.
    UpdateStatus { id: String, status: TaskStatus, exit_code: Option<i32> },
    /// Fetch a task by its full id.
    GetTask { id: String },
    /// Fetch a task by the beginning of its id.
    GetTaskByShortId { id: String },
    /// Fetch tasks, with their status checked against the processes.
    ListTasks { status_filter: Option<String>, show_all: bool },
    /// Check the status of a task against its process, and fetch the task.
    RefreshTask { id: String },
    /// Make sure that a task is running.
    CheckRunning { task: Task },
    /// Send a signal to a process group.
    KillGroup { pgid: i32, force: bool },
    /// Send a signal to a process.
    Kill { pid: u32, force: bool },
    /// Send a signal, and wait for the process to end, for so many seconds at most.
    KillAndWait { pid: u32, pgid: Option<i32>, force: bool, seconds: u64 },
    /// Find out whether a process exists.
    ProcessExists { pid: u32 },
    /// Read a log.
    ReadLog { path: String },
    /// Show what is added to a log, until the user stops it.
    FollowLog { path: String },
    /// Fetch the tasks that a cleanup would delete.
    FindCleanupCandidates { days: Option<u64>, statuses: Vec<TaskStatus> },
    /// Delete tasks.
    DeleteTasks { days: Option<u64>, statuses: Vec<TaskStatus> },
    /// Put an error into words.
    DescribeError { error: GhostError },
    /// Print a text as it is.
    Print { text: String },
    /// Tell the user that a process was started.
    ShowProcessStarted { id: String, pid: u32, log_path: Vec<u8> },
    /// Show a table of tasks.
    ShowTaskList { tasks: Vec<Task> },
    /// Show all that is known of a task.
    ShowTaskDetails { task: Task },
    /// Tell the user which log is being followed.
    ShowFollowHeader { task_id: String, log_path: String },
    /// Wait for the started process in the background, so that it leaves no zombie.
    ReapChild,
}

/// The model of `Request`.
#[allow(inconsistent_fields)]
pub enum RequestView {
    OpenDatabase,
    ReadShellVariable,
    ParseEnvVars { env: Seq<Seq<char>> },
    ReadCurrentDir,
    SpawnProcess {
        command: Seq<Seq<char>>,
        cwd: Option<Seq<u8>>,
        log_dir: Option<Seq<u8>>,
        env_vars: Seq<(Seq<char>, Seq<char>)>,
    },
    InsertTask {
        id: Seq<char>,
        pid: u32,
        pgid: Option<i32>,
        command: Seq<Seq<char>>,
        env: Option<Seq<(Seq<char>, Seq<char>)>>,
        cwd: Option<Seq<u8>>,
        log_path: Seq<u8>,
    },
    WaitForStart { pid: u32, seconds: u64 },
    UpdateStatus { id: Seq<char>, status: TaskStatus, exit_code: Option<i32> },
    GetTask { id: Seq<char> },
    GetTaskByShortId { id: Seq<char> },
    ListTasks { status_filter: Option<Seq<char>>, show_all: bool },
    RefreshTask { id: Seq<char> },
    CheckRunning { task: TaskView },
    KillGroup { pgid: i32, force: bool },
    Kill { pid: u32, force: bool },
    KillAndWait { pid: u32, pgid: Option<i32>, force: bool, seconds: u64 },
    ProcessExists { pid: u32 },
    ReadLog { path: Seq<char> },
    FollowLog { path: Seq<char> },
    FindCleanupCandidates { days: Option<u64>, statuses: Seq<TaskStatus> },
    DeleteTasks { days: Option<u64>, statuses: Seq<TaskStatus> },
    DescribeError { error: GhostErrorView },
    Print { text: Seq<char> },
    ShowProcessStarted { id: Seq<char>, pid: u32, log_path: Seq<u8> },
    ShowTaskList { tasks: Seq<TaskView> },
    ShowTaskDetails { task: TaskView },
    ShowFollowHeader { task_id: Seq<char>, log_path: Seq<char> },
    ReapChild,
}

/// The model of a path that may be missing.
pub open spec fn path_view(path: Option<Vec<u8>>) -> Option<Seq<u8>> {
    match path {
        Some(bytes) => Some(bytes@),
        None => None,
    }
}

impl View for Request {
    type V = RequestView;

    open spec fn view(&self) -> RequestView {
        match self {
            Request::OpenDatabase => RequestView::OpenDatabase,
            Request::ReadShellVariable => RequestView::ReadShellVariable,
            Request::ParseEnvVars { env } => RequestView::ParseEnvVars { env: env.deep_view() },
            Request::ReadCurrentDir => RequestView::ReadCurrentDir,
            Request::SpawnProcess { command, cwd, log_dir, env_vars } => {
                RequestView::SpawnProcess {
                    command: command.deep_view(),
                    cwd: path_view(*cwd),
                    log_dir: path_view(*log_dir),
                    env_vars: env_vars.deep_view(),
                }
            },
            Request::InsertTask { id, pid, pgid, command, env, cwd, log_path } => {
                RequestView::InsertTask {
                    id: id@,
                    pid: *pid,
                    pgid: *pgid,
                    command: command.deep_view(),
                    env: env.deep_view(),
                    cwd: path_view(*cwd),
                    log_path: log_path@,
                }
            },
            Request::WaitForStart { pid, seconds } => RequestView::WaitForStart {
                pid: *pid,
                seconds: *seconds,
            },
            Request::UpdateStatus { id, status, exit_code } => RequestView::UpdateStatus {
                id: id@,
                status: *status,
                exit_code: *exit_code,
            },
            Request::GetTask { id } => RequestView::GetTask { id: id@ },
            Request::GetTaskByShortId { id } => RequestView::GetTaskByShortId { id: id@ },
            Request::ListTasks { status_filter, show_all } => RequestView::ListTasks {
                status_filter: status_filter.deep_view(),
                show_all: *show_all,
            },
            Request::RefreshTask { id } => RequestView::RefreshTask { id: id@ },
            Request::CheckRunning { task } => RequestView::CheckRunning { task: task@ },
            Request::KillGroup { pgid, force } => RequestView::KillGroup {
                pgid: *pgid,
                force: *force,
            },
            Request::Kill { pid, force } => RequestView::Kill { pid: *pid, force: *force },
            Request::KillAndWait { pid, pgid, force, seconds } => RequestView::KillAndWait {
                pid: *pid,
                pgid: *pgid,
                force: *force,
                seconds: *seconds,
            },
            Request::ProcessExists { pid } => RequestView::ProcessExists { pid: *pid },
            Request::ReadLog { path } => RequestView::ReadLog { path: path@ },
            Request::FollowLog { path } => RequestView::FollowLog { path: path@ },
            Request::FindCleanupCandidates { days, statuses } => {
                RequestView::FindCleanupCandidates { days: *days, statuses: statuses@ }
            },
            Request::DeleteTasks { days, statuses } => RequestView::DeleteTasks {
                days: *days,
                statuses: statuses@,
            },
            Request::DescribeError { error } => RequestView::DescribeError { error: error@ },
            Request::Print { text } => RequestView::Print { text: text@ },
            Request::ShowProcessStarted { id, pid, log_path } => {
                RequestView::ShowProcessStarted { id: id@, pid: *pid, log_path: log_path@ }
            },
            Request::ShowTaskList { tasks } => RequestView::ShowTaskList {
                tasks: tasks.deep_view(),
            },
            Request::ShowTaskDetails { task } => RequestView::ShowTaskDetails { task: task@ },
            Request::ShowFollowHeader { task_id, log_path } => RequestView::ShowFollowHeader {
                task_id: task_id@,
                log_path: log_path@,
            },
            Request::ReapChild => RequestView::ReapChild,
        }
    }
}

/// What a command is told.
#[derive(Debug, PartialEq, Eq)]
pub enum Reply {
    /// Whether something was done.
    Finished(Result<(), GhostError>),
    /// Something was shown to the user or set going, which cannot fail.
    Shown,
    /// The user's shell, if the variable is set and is text.
    Shell(Option<String>),
    /// Environment variables by name and value.
    EnvVars(Result<Vec<(String, String)>, GhostError>),
    /// The current directory, if it is known.
    CurrentDir(Option<Vec<u8>>),
    /// The process that was started.
    Spawned(Result<ProcessInfo, GhostError>),
    /// Whether what was waited for came to pass.
    Waited(Result<bool, GhostError>),
    /// Whether a process exists.
    Exists(bool),
    /// A stored task.
    Found(Result<Task, GhostError>),
    /// Stored tasks.
    Listed(Result<Vec<Task>, GhostError>),
    /// How many tasks were deleted.
    Deleted(Result<usize, GhostError>),
    /// The contents of a log, or what the system said when it could not be read.
    LogText(Result<String, String>),
    /// An error in words.
    Described(String),
}

/// The model of `Reply`.
pub enum ReplyView {
    Finished(Result<(), GhostErrorView>),
    Shown,
    Shell(Option<Seq<char>>),
    EnvVars(Result<Seq<(Seq<char>, Seq<char>)>, GhostErrorView>),
    CurrentDir(Option<Seq<u8>>),
    Spawned(Result<ProcessInfoView, GhostErrorView>),
    Waited(Result<bool, GhostErrorView>),
    Exists(bool),
    Found(Result<TaskView, GhostErrorView>),
    Listed(Result<Seq<TaskView>, GhostErrorView>),
    Deleted(Result<usize, GhostErrorView>),
    LogText(Result<Seq<char>, Seq<char>>),
    Described(Seq<char>),
}

impl View for Reply {
    type V = ReplyView;

    open spec fn view(&self) -> ReplyView {
        match self {
            Reply::Finished(r) => ReplyView::Finished(result_view(*r)),
            Reply::Shown => ReplyView::Shown,
            Reply::Shell(shell) => ReplyView::Shell(shell.deep_view()),
            Reply::EnvVars(r) => ReplyView::EnvVars(result_view(*r)),
            Reply::CurrentDir(path) => ReplyView::CurrentDir(path_view(*path)),
            Reply::Spawned(r) => ReplyView::Spawned(result_view(*r)),
            Reply::Waited(r) => ReplyView::Waited(result_view(*r)),
            Reply::Exists(b) => ReplyView::Exists(*b),
            Reply::Found(r) => ReplyView::Found(result_view(*r)),
            Reply::Listed(r) => ReplyView::Listed(result_view(*r)),
            Reply::Deleted(r) => ReplyView::Deleted(result_view(*r)),
            Reply::LogText(r) => ReplyView::LogText(
                match r {
                    Ok(text) => Ok(text@),
                    Err(said) => Err(said@),
                },
            ),
            Reply::Described(text) => ReplyView::Described(text@),
        }
    }
}

/// Whether a reply is of the kind that a request calls for.
pub open spec fn answers(request: RequestView, reply: ReplyView) -> bool {
    match request {
        RequestView::OpenDatabase => reply is Finished,
        RequestView::ReadShellVariable => reply is Shell,
        RequestView::ParseEnvVars { .. } => reply is EnvVars,
        RequestView::ReadCurrentDir => reply is CurrentDir,
        RequestView::SpawnProcess { .. } => reply is Spawned,
        RequestView::InsertTask { .. } => reply is Finished,
        RequestView::WaitForStart { .. } => reply is Waited,
        RequestView::UpdateStatus { .. } => reply is Finished,
        RequestView::GetTask { .. } => reply is Found,
        RequestView::GetTaskByShortId { .. } => reply is Found,
        RequestView::ListTasks { .. } => reply is Listed,
        RequestView::RefreshTask { .. } => reply is Found,
        RequestView::CheckRunning { .. } => reply is Finished,
        RequestView::KillGroup { .. } => reply is Finished,
        RequestView::Kill { .. } => reply is Finished,
        RequestView::KillAndWait { .. } => reply is Waited,
        RequestView::ProcessExists { .. } => reply is Exists,
        RequestView::ReadLog { .. } => reply is LogText,
        RequestView::FollowLog { .. } => reply is Finished,
        RequestView::FindCleanupCandidates { .. } => reply is Listed,
        RequestView::DeleteTasks { .. } => reply is Deleted,
        RequestView::DescribeError { .. } => reply is Described,
        RequestView::Print { .. } => reply is Shown,
        RequestView::ShowProcessStarted { .. } => reply is Shown,
        RequestView::ShowTaskList { .. } => reply is Shown,
        RequestView::ShowTaskDetails { .. } => reply is Shown,
        RequestView::ShowFollowHeader { .. } => reply is Shown,
        RequestView::ReapChild => reply is Shown,
    }
}

/// The error in a reply, if there is one.
pub open spec fn failure(reply: ReplyView) -> Option<GhostErrorView> {
    match reply {
        ReplyView::Finished(Err(e)) => Some(e),
        ReplyView::EnvVars(Err(e)) => Some(e),
        ReplyView::Spawned(Err(e)) => Some(e),
        ReplyView::Waited(Err(e)) => Some(e),
        ReplyView::Found(Err(e)) => Some(e),
        ReplyView::Listed(Err(e)) => Some(e),
        ReplyView::Deleted(Err(e)) => Some(e),
        _ => None,
    }
}

/// The reply that something was done.
pub open spec fn done() -> ReplyView {
    ReplyView::Finished(Ok(()))
}

/// Whether a reply says that something was done.
pub open spec fn is_done(reply: ReplyView) -> bool {
    reply is Finished && reply->Finished_0 is Ok
}

/// Whether a request only shows something to the user.
pub open spec fn is_output(request: RequestView) -> bool {
    ||| request is Print
    ||| request is ShowProcessStarted
    ||| request is ShowTaskList
    ||| request is ShowTaskDetails
    ||| request is ShowFollowHeader
    ||| request is FollowLog
}

/// The step that a command has reached once it was handed `replies`, one after the other.
/// Replies that come after its end are ignored.
pub open spec fn after<Q, S, R, T>(
    next: spec_fn(S, R) -> Step<Q, S, T>,
    step: Step<Q, S, T>,
    replies: Seq<R>,
) -> Step<Q, S, T>
    decreases replies.len(),
{
    match step {
        Step::Done { .. } => step,
        Step::Ask { state, .. } => if replies.len() == 0 {
            step
        } else {
            after(next, next(state, replies[0]), replies.drop_first())
        },
    }
}

/// The requests that a command makes while it is handed `replies`, the one that is still
/// open among them.
pub open spec fn requests<Q, S, R, T>(
    next: spec_fn(S, R) -> Step<Q, S, T>,
    step: Step<Q, S, T>,
    replies: Seq<R>,
) -> Seq<Q>
    decreases replies.len(),
{
    match step {
        Step::Done { .. } => seq![],
        Step::Ask { request, state } => if replies.len() == 0 {
            seq![request]
        } else {
            seq![request] + requests(next, next(state, replies[0]), replies.drop_first())
        },
    }
}

/// A property of single steps holds of a whole run: if `good` holds of the first request,
/// and `inv` of the state behind it, and every step from a state with `inv` keeps both,
/// then every request of every run is `good`.
pub proof fn lemma_every_request<Q, S, R, T>(
    next: spec_fn(S, R) -> Step<Q, S, T>,
    inv: spec_fn(S) -> bool,
    good: spec_fn(Q) -> bool,
    step: Step<Q, S, T>,
    replies: Seq<R>,
)
    requires
        step matches Step::Ask { request, state } ==> good(request) && inv(state),
        forall|s: S, r: R|
            inv(s) ==> (#[trigger] next(s, r) matches Step::Ask { request, state } ==> good(request)
                && inv(state)),
    ensures
        forall|i: int|
            0 <= i < requests(next, step, replies).len() ==> good(
                #[trigger] requests(next, step, replies)[i],
            ),
    decreases replies.len(),
{
    match step {
        Step::Done { .. } => {},
        Step::Ask { request, state } => {
            if replies.len() > 0 {
                let rest = requests(next, next(state, replies[0]), replies.drop_first());
                lemma_every_request(
                    next,
                    inv,
                    good,
                    next(state, replies[0]),
                    replies.drop_first(),
                );
                assert forall|i: int| 0 <= i < requests(next, step, replies).len() implies good(
                    #[trigger] requests(next, step, replies)[i],
                ) by {
                    if i > 0 {
                        assert(requests(next, step, replies)[i] == rest[i - 1]);
                    }
                }
            }
        },
    }
}

/// A property of neighbouring requests holds of a whole run: if `paired` ties every request
/// to the state behind it, and every step from such a pair leads to such a pair again, with
/// `link` between the request, its reply and the request that follows, then `link` holds all
/// through every run.
pub proof fn lemma_every_link<Q, S, R, T>(
    next: spec_fn(S, R) -> Step<Q, S, T>,
    paired: spec_fn(Q, S) -> bool,
    link: spec_fn(Q, R, Q) -> bool,
    step: Step<Q, S, T>,
    replies: Seq<R>,
)
    requires
        step matches Step::Ask { request, state } ==> paired(request, state),
        forall|q: Q, s: S, r: R|
            #![trigger paired(q, s), next(s, r)]
            paired(q, s) ==> (next(s, r) matches Step::Ask { request, state } ==> paired(
                request,
                state,
            ) && link(q, r, request)),
    ensures
        requests(next, step, replies).len() <= replies.len() + 1,
        ({
            let made = requests(next, step, replies);
            forall|i: int|
                0 <= i < made.len() - 1 ==> link(made[i], #[trigger] replies[i], made[i + 1])
        }),
    decreases replies.len(),
{
    match step {
        Step::Done { .. } => {},
        Step::Ask { request, state } => {
            if replies.len() > 0 {
                let then = next(state, replies[0]);
                let later = replies.drop_first();
                let rest = requests(next, then, later);
                lemma_every_link(next, paired, link, then, later);
                let made = requests(next, step, replies);
                assert(paired(request, state));
                assert forall|i: int| 0 <= i < made.len() - 1 implies link(
                    made[i],
                    #[trigger] replies[i],
                    made[i + 1],
                ) by {
                    assert(made[i + 1] == rest[i]);
                    if i > 0 {
                        assert(made[i] == rest[i - 1]);
                        assert(replies[i] == later[i - 1]);
                    }
                }
            }
        },
    }
}

/// A run over `a` and then `b` is the run over `a` and, from where that has come to, the run
/// over `b`.
pub proof fn lemma_run_on<Q, S, R, T>(
    next: spec_fn(S, R) -> Step<Q, S, T>,
    step: Step<Q, S, T>,
    a: Seq<R>,
    b: Seq<R>,
)
    requires
        after(next, step, a) is Ask,
    ensures
        after(next, step, a + b) == after(next, after(next, step, a), b),
        requests(next, step, a).len() > 0,
        requests(next, step, a + b) == requests(next, step, a).drop_last() + requests(
            next,
            after(next, step, a),
            b,
        ),
    decreases a.len(),
{
    if a.len() == 0 {
        assert(a + b =~= b);
        assert(requests(next, step, a).drop_last() =~= seq![]);
        assert(requests(next, step, a + b) =~= requests(next, step, a).drop_last() + requests(
            next,
            step,
            b,
        ));
    } else {
        let then = next(step->state, a[0]);
        let rest = a.drop_first();
        lemma_run_on(next, then, rest, b);
        assert((a + b).drop_first() =~= rest + b);
        assert((a + b)[0] == a[0]);
        assert(requests(next, step, a + b) =~= requests(next, step, a).drop_last() + requests(
            next,
            after(next, step, a),
            b,
        ));
    }
}

/// The steps of a command whose value is not wanted, as a function.
pub open spec fn valueless<Q, S, R, T>(
    next: spec_fn(S, R) -> Step<Q, S, Result<T, GhostErrorView>>,
) -> spec_fn(Valueless<S>, R) -> Step<Q, Valueless<S>, Result<(), GhostErrorView>> {
    |s: Valueless<S>, r: R| without_value(next(s.command, r))
}

/// A command whose value is not wanted makes the requests that it makes else, and ends as it
/// ends else, but for the value.
pub proof fn law_without_value<Q, S, R, T>(
    next: spec_fn(S, R) -> Step<Q, S, Result<T, GhostErrorView>>,
    step: Step<Q, S, Result<T, GhostErrorView>>,
    replies: Seq<R>,
)
    ensures
        after(valueless(next), without_value(step), replies) == without_value(
            after(next, step, replies),
        ),
        requests(valueless(next), without_value(step), replies) == requests(next, step, replies),
    decreases replies.len(),
{
    if step is Ask && replies.len() > 0 {
        law_without_value(next, next(step->state, replies[0]), replies.drop_first());
    }
}

/// A command that opens the task store first and whose value is not wanted: once the store is
/// open, it is the command that begins with `start`.
pub proof fn lemma_opened_run<S, T>(
    next: spec_fn(S, ReplyView) -> Step<RequestView, S, Result<T, GhostErrorView>>,
    opening: S,
    start: Step<RequestView, S, Result<T, GhostErrorView>>,
    replies: Seq<ReplyView>,
)
    requires
        next(opening, done()) == start,
    ensures
        ({
            let first = Step::Ask {
                request: RequestView::OpenDatabase,
                state: Valueless { command: opening },
            };
            let all = seq![done()] + replies;
            &&& after(valueless(next), first, all) == without_value(after(next, start, replies))
            &&& requests(valueless(next), first, all) == seq![RequestView::OpenDatabase] + requests(
                next,
                start,
                replies,
            )
        }),
{
    let all = seq![done()] + replies;
    assert(all.drop_first() =~= replies);
    law_without_value(next, start, replies);
}

/// A reply that leads to another try is as if it had not been, where the second try is
/// answered as the first one might have been: only one request more is made.
pub proof fn lemma_second_try<Q, S, R, T>(
    next: spec_fn(S, R) -> Step<Q, S, T>,
    step: Step<Q, S, T>,
    missed: R,
    found: R,
    replies: Seq<R>,
)
    requires
        step is Ask,
        next(step->state, missed) is Ask,
        next(next(step->state, missed)->state, found) == next(step->state, found),
    ensures
        ({
            let once = seq![found] + replies;
            let twice = seq![missed, found] + replies;
            &&& after(next, step, twice) == after(next, step, once)
            &&& requests(next, step, once) == seq![step->request] + requests(
                next,
                next(step->state, found),
                replies,
            )
            &&& requests(next, step, twice) == seq![
                step->request,
                next(step->state, missed)->request,
            ] + requests(next, next(step->state, found), replies)
        }),
{
    let once = seq![found] + replies;
    let twice = seq![missed, found] + replies;
    assert(once.drop_first() =~= replies);
    assert(twice.drop_first() =~= once);
    let again = next(step->state, missed);
    assert(after(next, again, once) == after(next, step, once));
    assert(requests(next, again, once) == seq![again->request] + requests(
        next,
        next(step->state, found),
        replies,
    ));
    assert(requests(next, step, twice) =~= seq![step->request, again->request] + requests(
        next,
        next(step->state, found),
        replies,
    ));
}

/// The model of a request is the same request, with the same things in it.
pub proof fn law_request_model(
    text: String,
    other: String,
    texts: Vec<String>,
    pairs: Vec<(String, String)>,
    maybe_pairs: Option<Vec<(String, String)>>,
    maybe_text: Option<String>,
    path: Vec<u8>,
    cwd: Option<Vec<u8>>,
    log_dir: Option<Vec<u8>>,
    pid: u32,
    pgid: i32,
    maybe_pgid: Option<i32>,
    seconds: u64,
    days: Option<u64>,
    flag: bool,
    status: TaskStatus,
    statuses: Vec<TaskStatus>,
    exit_code: Option<i32>,
    task: Task,
    tasks: Vec<Task>,
    error: GhostError,
)
    ensures
        cwd matches Some(bytes) ==> path_view(cwd) == Some(bytes@),
        cwd is None ==> path_view(cwd) is None,
        Request::OpenDatabase@ == RequestView::OpenDatabase,
        Request::ReadShellVariable@ == RequestView::ReadShellVariable,
        (Request::ParseEnvVars { env: texts })@ == (RequestView::ParseEnvVars {
            env: texts.deep_view(),
        }),
        Request::ReadCurrentDir@ == RequestView::ReadCurrentDir,
        (Request::SpawnProcess { command: texts, cwd, log_dir, env_vars: pairs })@ == (
        RequestView::SpawnProcess {
            command: texts.deep_view(),
            cwd: path_view(cwd),
            log_dir: path_view(log_dir),
            env_vars: pairs.deep_view(),
        }),
        (Request::InsertTask {
            id: text,
            pid,
            pgid: maybe_pgid,
            command: texts,
            env: maybe_pairs,
            cwd,
            log_path: path,
        })@ == (RequestView::InsertTask {
            id: text@,
            pid,
            pgid: maybe_pgid,
            command: texts.deep_view(),
            env: maybe_pairs.deep_view(),
            cwd: path_view(cwd),
            log_path: path@,
        }),
        (Request::WaitForStart { pid, seconds })@ == (RequestView::WaitForStart { pid, seconds }),
        (Request::UpdateStatus { id: text, status, exit_code })@ == (RequestView::UpdateStatus {
            id: text@,
            status,
            exit_code,
        }),
        (Request::GetTask { id: text })@ == (RequestView::GetTask { id: text@ }),
        (Request::GetTaskByShortId { id: text })@ == (RequestView::GetTaskByShortId { id: text@ }),
        (Request::ListTasks { status_filter: maybe_text, show_all: flag })@ == (
        RequestView::ListTasks { status_filter: maybe_text.deep_view(), show_all: flag }),
        (Request::RefreshTask { id: text })@ == (RequestView::RefreshTask { id: text@ }),
        (Request::CheckRunning { task })@ == (RequestView::CheckRunning { task: task@ }),
        (Request::KillGroup { pgid, force: flag })@ == (RequestView::KillGroup {
            pgid,
            force: flag,
        }),
        (Request::Kill { pid, force: flag })@ == (RequestView::Kill { pid, force: flag }),
        (Request::KillAndWait { pid, pgid: maybe_pgid, force: flag, seconds })@ == (
        RequestView::KillAndWait { pid, pgid: maybe_pgid, force: flag, seconds }),
        (Request::ProcessExists { pid })@ == (RequestView::ProcessExists { pid }),
        (Request::ReadLog { path: text })@ == (RequestView::ReadLog { path: text@ }),
        (Request::FollowLog { path: text })@ == (RequestView::FollowLog { path: text@ }),
        (Request::FindCleanupCandidates { days, statuses })@ == (
        RequestView::FindCleanupCandidates { days, statuses: statuses@ }),
        (Request::DeleteTasks { days, statuses })@ == (RequestView::DeleteTasks {
            days,
            statuses: statuses@,
        }),
        (Request::DescribeError { error })@ == (RequestView::DescribeError { error: error@ }),
        (Request::Print { text })@ == (RequestView::Print { text: text@ }),
        (Request::ShowProcessStarted { id: text, pid, log_path: path })@ == (
        RequestView::ShowProcessStarted { id: text@, pid, log_path: path@ }),
        (Request::ShowTaskList { tasks })@ == (RequestView::ShowTaskList {
            tasks: tasks.deep_view(),
        }),
        (Request::ShowTaskDetails { task })@ == (RequestView::ShowTaskDetails { task: task@ }),
        (Request::ShowFollowHeader { task_id: text, log_path: other })@ == (
        RequestView::ShowFollowHeader { task_id: text@, log_path: other@ }),
        Request::ReapChild@ == RequestView::ReapChild,
{
}

/// The model of a reply is the same reply, with the same things in it.
pub proof fn law_reply_model(
    finished: Result<(), GhostError>,
    shell: Option<String>,
    env_vars: Result<Vec<(String, String)>, GhostError>,
    path: Option<Vec<u8>>,
    spawned: Result<ProcessInfo, GhostError>,
    waited: Result<bool, GhostError>,
    exists: bool,
    found: Result<Task, GhostError>,
    listed: Result<Vec<Task>, GhostError>,
    deleted: Result<usize, GhostError>,
    text: String,
)
    ensures
        Reply::Finished(finished)@ == ReplyView::Finished(result_view(finished)),
        Reply::Shown@ == ReplyView::Shown,
        Reply::Shell(shell)@ == ReplyView::Shell(shell.deep_view()),
        Reply::EnvVars(env_vars)@ == ReplyView::EnvVars(result_view(env_vars)),
        Reply::CurrentDir(path)@ == ReplyView::CurrentDir(path_view(path)),
        Reply::Spawned(spawned)@ == ReplyView::Spawned(result_view(spawned)),
        Reply::Waited(waited)@ == ReplyView::Waited(result_view(waited)),
        Reply::Exists(exists)@ == ReplyView::Exists(exists),
        Reply::Found(found)@ == ReplyView::Found(result_view(found)),
        Reply::Listed(listed)@ == ReplyView::Listed(result_view(listed)),
        Reply::Deleted(deleted)@ == ReplyView::Deleted(result_view(deleted)),
        Reply::LogText(Ok(text))@ == ReplyView::LogText(Ok(text@)),
        Reply::LogText(Err(text))@ == ReplyView::LogText(Err(text@)),
        Reply::Described(text)@ == ReplyView::Described(text@),
{
}

/// The model of a step is the same step: the same request and state, or the same result.
pub proof fn law_step_model<Q: View, S: View, T: DeepView>(
    request: Q,
    state: S,
    result: Result<T, GhostError>,
)
    ensures
        (Step::<Q, S, Result<T, GhostError>>::Ask { request, state })@ == (Step::<
            Q::V,
            S::V,
            Result<T::V, GhostErrorView>,
        >::Ask { request: request@, state: state@ }),
        (Step::<Q, S, Result<T, GhostError>>::Done { result })@ == (Step::<
            Q::V,
            S::V,
            Result<T::V, GhostErrorView>,
        >::Done { result: result_view(result) }),
        (Valueless { command: state })@ == (Valueless { command: state@ }),
{
}

/// Dropping the value keeps everything else: the request and the state behind it, success as
/// such, and any error.
pub proof fn law_value_dropped<Q, S, T>(request: Q, state: S, value: T, error: GhostErrorView)
    ensures
        without_value(Step::<Q, S, Result<T, GhostErrorView>>::Ask { request, state }) == (Step::<
            Q,
            Valueless<S>,
            Result<(), GhostErrorView>,
        >::Ask { request, state: Valueless { command: state } }),
        without_value(Step::<Q, S, Result<T, GhostErrorView>>::Done { result: Ok(value) })
            == (Step::<Q, Valueless<S>, Result<(), GhostErrorView>>::Done { result: Ok(()) }),
        without_value(Step::<Q, S, Result<T, GhostErrorView>>::Done { result: Err(error) })
            == (Step::<Q, Valueless<S>, Result<(), GhostErrorView>>::Done { result: Err(error) }),
{
}

} // verus!
