//! Restarting a background process.

use vstd::pervasive::unreached;
use vstd::prelude::*;

use vstd::utf8::encode_utf8;

use crate::error::{GhostError, GhostErrorView, result_view};
use crate::lookup::{
    Lookup, LookupView, Search, first_search, get_task_by_id_or_short_id, resume_search,
    search_for, search_reply, search_request,
};
use crate::protocol::{
    Reply, ReplyView, Request, RequestView, Step, after, answers, done, failure, is_done,
    lemma_every_link, lemma_every_request, lemma_run_on, lemma_second_try, path_view, requests,
};
use crate::shell::{is_login_run, law_wrapped, wrapped};
use crate::spawn::{
    SpawnJobView, SpawnStageView, SpawnState, SpawnStep, SpawnStepView, SpawnView,
    law_spawn_with_conn_succeeds, smooth_replies, smooth_requests, spawn_next, spawn_ready,
    spawn_with_conn,
};
use crate::stored::{
    command_meaning, is_stored_env, json_strings, stored_command, stored_env,
};
use crate::task::{ProcessInfoView, Task, TaskStatus, TaskView};

verus! {

/// How long a process may take to end when it is told to.
pub const STOP_SECONDS: u64 = 5;

/// How long a process may take to end when it is forced to.
pub const KILL_SECONDS: u64 = 2;

/// A task that is to be restarted, as it was read back from the store.
pub struct RestartPlan {
    pub id: String,
    pub pid: u32,
    pub pgid: Option<i32>,
    pub command: Vec<String>,
    pub cwd: Option<Vec<u8>>,
    pub env: Vec<String>,
}

/// A `restart` command under way.
pub struct RestartState {
    pub task_id: String,
    pub force: bool,
    pub stage: RestartStage,
}

/// What a `restart` command is waiting for.
pub enum RestartStage {
    Opening,
    Finding { search: Search },
    Probing { plan: RestartPlan },
    Stopping { plan: RestartPlan },
    Killing { plan: RestartPlan },
    Escalating { plan: RestartPlan },
    ForceKilling { plan: RestartPlan },
    Marking { plan: RestartPlan },
    Starting { plan: RestartPlan, was_running: bool },
    Spawning { was_running: bool, spawn: SpawnState },
    Describing,
    Reporting,
}

/// The model of `RestartPlan`.
pub struct RestartPlanView {
    pub id: Seq<char>,
    pub pid: u32,
    pub pgid: Option<i32>,
    pub command: Seq<Seq<char>>,
    pub cwd: Option<Seq<u8>>,
    pub env: Seq<Seq<char>>,
}

/// The model of `RestartState`.
pub struct RestartView {
    pub task_id: Seq<char>,
    pub force: bool,
    pub stage: RestartStageView,
}

/// The model of `RestartStage`.
pub enum RestartStageView {
    Opening,
    Finding { search: Search },
    Probing { plan: RestartPlanView },
    Stopping { plan: RestartPlanView },
    Killing { plan: RestartPlanView },
    Escalating { plan: RestartPlanView },
    ForceKilling { plan: RestartPlanView },
    Marking { plan: RestartPlanView },
    Starting { plan: RestartPlanView, was_running: bool },
    Spawning { was_running: bool, spawn: SpawnView },
    Describing,
    Reporting,
}

impl View for RestartPlan {
    type V = RestartPlanView;

    open spec fn view(&self) -> RestartPlanView {
        RestartPlanView {
            id: self.id@,
            pid: self.pid,
            pgid: self.pgid,
            command: self.command.deep_view(),
            cwd: path_view(self.cwd),
            env: self.env.deep_view(),
        }
    }
}

impl View for RestartStage {
    type V = RestartStageView;

    open spec fn view(&self) -> RestartStageView {
        match self {
            RestartStage::Opening => RestartStageView::Opening,
            RestartStage::Finding { search } => RestartStageView::Finding { search: *search },
            RestartStage::Probing { plan } => RestartStageView::Probing { plan: plan@ },
            RestartStage::Stopping { plan } => RestartStageView::Stopping { plan: plan@ },
            RestartStage::Killing { plan } => RestartStageView::Killing { plan: plan@ },
            RestartStage::Escalating { plan } => RestartStageView::Escalating { plan: plan@ },
            RestartStage::ForceKilling { plan } => RestartStageView::ForceKilling {
                plan: plan@,
            },
            RestartStage::Marking { plan } => RestartStageView::Marking { plan: plan@ },
            RestartStage::Starting { plan, was_running } => RestartStageView::Starting {
                plan: plan@,
                was_running: *was_running,
            },
            RestartStage::Spawning { was_running, spawn } => RestartStageView::Spawning {
                was_running: *was_running,
                spawn: spawn@,
            },
            RestartStage::Describing => RestartStageView::Describing,
            RestartStage::Reporting => RestartStageView::Reporting,
        }
    }
}

impl View for RestartState {
    type V = RestartView;

    open spec fn view(&self) -> RestartView {
        RestartView { task_id: self.task_id@, force: self.force, stage: self.stage@ }
    }
}

/// A step of a `restart` command.
pub type RestartStep = Step<Request, RestartState, Result<(), GhostError>>;

/// The model of `RestartStep`.
pub type RestartStepView = Step<RequestView, RestartView, Result<(), GhostErrorView>>;

/// The bytes of a stored directory.
pub open spec fn stored_cwd(cwd: Option<Seq<char>>) -> Option<Seq<u8>> {
    match cwd {
        Some(path) => Some(encode_utf8(path)),
        None => None,
    }
}

/// The job that starts a task again: it is shown, and must be seen running.
pub open spec fn restart_job(plan: RestartPlanView) -> SpawnJobView {
    SpawnJobView {
        command: plan.command,
        cwd: plan.cwd,
        verify_start: true,
        show_output: true,
        detach: true,
    }
}

/// What is said before a task is stopped.
pub open spec fn stopping(task_id: Seq<char>) -> Seq<char> {
    "Stopping task "@ + task_id + "...\n"@
}

/// What is said before a task is started again.
pub open spec fn starting(task_id: Seq<char>) -> Seq<char> {
    "Starting task "@ + task_id + "...\n"@
}

/// What is said before a process is forced to end.
pub open spec fn escalation() -> Seq<char> {
    "Process did not terminate gracefully, forcing kill...\n"@
}

/// What is said in the end.
pub open spec fn restarted(task_id: Seq<char>, was_running: bool) -> Seq<char> {
    "Task "@ + task_id + " has been "@ + (if was_running {
        "restarted"@
    } else {
        "rerun"@
    }) + " successfully\n"@
}

/// The error of a task that could not be started again.
pub open spec fn not_restarted(said: Seq<char>) -> GhostErrorView {
    GhostErrorView::InvalidArgument { message: "Failed to restart task: "@ + said }
}

/// The plan for a task, given the command and the environment that were read back.
pub open spec fn plan_for(
    task: TaskView,
    command: Seq<Seq<char>>,
    env: Seq<Seq<char>>,
) -> RestartPlanView {
    RestartPlanView {
        id: task.id,
        pid: task.pid,
        pgid: task.pgid,
        command,
        cwd: stored_cwd(task.cwd),
        env,
    }
}

impl RestartView {
    /// Asks for something.
    pub open spec fn ask(self, request: RequestView, stage: RestartStageView) -> RestartStepView {
        Step::Ask { request, state: RestartView { stage, ..self } }
    }

    /// Prints a text.
    pub open spec fn say(self, text: Seq<char>, stage: RestartStageView) -> RestartStepView {
        self.ask(RequestView::Print { text }, stage)
    }

    /// Goes on to search for the task.
    pub open spec fn find(self, search: Search) -> RestartStepView {
        self.ask(search_request(search, self.task_id), RestartStageView::Finding { search })
    }

    /// Goes on once the task was found. `env` is what was read back of its environment.
    pub open spec fn prepare(self, task: TaskView, env: Seq<Seq<char>>) -> RestartStepView {
        self.plan(task, command_meaning(json_strings(task.command)), env)
    }

    /// Goes on once the command and the environment of the task were read back.
    pub open spec fn plan(
        self,
        task: TaskView,
        command: Result<Seq<Seq<char>>, GhostErrorView>,
        env: Seq<Seq<char>>,
    ) -> RestartStepView {
        match command {
            Err(e) => Step::Done { result: Err(e) },
            Ok(command) => self.ask(
                RequestView::ProcessExists { pid: task.pid },
                RestartStageView::Probing { plan: plan_for(task, command, env) },
            ),
        }
    }

    /// Sends a signal to the process of the task and waits.
    pub open spec fn kill(
        self,
        plan: RestartPlanView,
        force: bool,
        seconds: u64,
        stage: RestartStageView,
    ) -> RestartStepView {
        self.ask(
            RequestView::KillAndWait { pid: plan.pid, pgid: plan.pgid, force, seconds },
            stage,
        )
    }

    /// Marks the task as killed.
    pub open spec fn mark(self, plan: RestartPlanView) -> RestartStepView {
        self.ask(
            RequestView::UpdateStatus { id: plan.id, status: TaskStatus::Killed, exit_code: None },
            RestartStageView::Marking { plan },
        )
    }

    /// Starts the task again.
    pub open spec fn start(self, plan: RestartPlanView, was_running: bool) -> RestartStepView {
        self.say(starting(self.task_id), RestartStageView::Starting { plan, was_running })
    }

    /// Goes on with a step of the start.
    pub open spec fn lift(self, step: SpawnStepView, was_running: bool) -> RestartStepView {
        match step {
            Step::Ask { request, state } => self.ask(
                request,
                RestartStageView::Spawning { was_running, spawn: state },
            ),
            Step::Done { result: Ok(_) } => self.say(
                restarted(self.task_id, was_running),
                RestartStageView::Reporting,
            ),
            Step::Done { result: Err(e) } => self.ask(
                RequestView::DescribeError { error: e },
                RestartStageView::Describing,
            ),
        }
    }

    /// Whether the command is waiting for a reply of this kind.
    pub open spec fn awaits(self, reply: ReplyView) -> bool {
        match self.stage {
            RestartStageView::Opening => reply is Finished,
            RestartStageView::Finding { .. } => reply is Found,
            RestartStageView::Probing { .. } => reply is Exists,
            RestartStageView::Stopping { .. } => reply is Shown,
            RestartStageView::Killing { .. } => reply is Waited,
            RestartStageView::Escalating { .. } => reply is Shown,
            RestartStageView::ForceKilling { .. } => reply is Waited,
            RestartStageView::Marking { .. } => reply is Finished,
            RestartStageView::Starting { .. } => reply is Shown,
            RestartStageView::Spawning { spawn, .. } => spawn.awaits(reply),
            RestartStageView::Describing => reply is Described,
            RestartStageView::Reporting => reply is Shown,
        }
    }

    /// What follows from a reply. `env` matters only if the reply is the task: it is what
    /// was read back of the environment of the task, whose order is not determined.
    pub open spec fn next(self, reply: ReplyView, env: Seq<Seq<char>>) -> RestartStepView {
        match self.stage {
            RestartStageView::Opening => match reply->Finished_0 {
                Err(e) => Step::Done { result: Err(e) },
                Ok(_) => self.find(first_search(self.task_id)),
            },
            RestartStageView::Finding { search } => match search_reply(search, reply->Found_0) {
                LookupView::Retry => self.find(Search::Short),
                LookupView::Resolved { result: Err(e) } => Step::Done { result: Err(e) },
                LookupView::Resolved { result: Ok(task) } => self.prepare(task, env),
            },
            RestartStageView::Probing { plan } => if reply->Exists_0 {
                self.say(stopping(self.task_id), RestartStageView::Stopping { plan })
            } else {
                self.start(plan, false)
            },
            RestartStageView::Stopping { plan } => self.kill(
                plan,
                self.force,
                STOP_SECONDS,
                RestartStageView::Killing { plan },
            ),
            RestartStageView::Killing { plan } => match reply->Waited_0 {
                Err(e) => Step::Done { result: Err(e) },
                Ok(terminated) => if !terminated && !self.force {
                    self.say(escalation(), RestartStageView::Escalating { plan })
                } else {
                    self.mark(plan)
                },
            },
            RestartStageView::Escalating { plan } => self.kill(
                plan,
                true,
                KILL_SECONDS,
                RestartStageView::ForceKilling { plan },
            ),
            RestartStageView::ForceKilling { plan } => self.mark(plan),
            RestartStageView::Marking { plan } => match reply->Finished_0 {
                Err(e) => Step::Done { result: Err(e) },
                Ok(_) => self.start(plan, true),
            },
            RestartStageView::Starting { plan, was_running } => self.lift(
                restart_job(plan).begin(plan.env),
                was_running,
            ),
            RestartStageView::Spawning { was_running, spawn } => self.lift(
                spawn.next(reply),
                was_running,
            ),
            RestartStageView::Describing => Step::Done {
                result: Err(not_restarted(reply->Described_0)),
            },
            RestartStageView::Reporting => Step::Done { result: Ok(()) },
        }
    }
}

/// Whether `env` can be what was read back of the environment of the task in a reply.
pub open spec fn env_fits(reply: ReplyView, env: Seq<Seq<char>>) -> bool {
    reply matches ReplyView::Found(Ok(task)) ==> is_stored_env(task.env, env)
}

/// Whether a step can be gone on from with any reply that answers its request.
pub open spec fn restart_ready(step: RestartStepView) -> bool {
    step matches Step::Ask { request, state } ==> forall|r: ReplyView| #[trigger]
        answers(request, r) ==> state.awaits(r)
}

/// The first step of `restart`.
pub open spec fn restart_opening(task_id: Seq<char>, force: bool) -> RestartStepView {
    Step::Ask {
        request: RequestView::OpenDatabase,
        state: RestartView { task_id, force, stage: RestartStageView::Opening },
    }
}

/// Restarts a background process: stops it if it is still running, and starts it again with
/// its command, directory and environment.
pub fn restart(task_id: &str, force: bool) -> (r: RestartStep)
    ensures
        r@ == restart_opening(task_id@, force),
        restart_ready(r@),
{
    let stage = RestartStage::Opening;
    Step::Ask {
        request: Request::OpenDatabase,
        state: RestartState { task_id: task_id.to_owned(), force, stage },
    }
}

/// Goes on with a restart once the task and its environment are known.
pub fn prepare_restart(task_id: String, force: bool, task: Task, env: Vec<String>) -> (r:
    RestartStep)
    ensures
        r@ == (RestartView { task_id: task_id@, force, stage: RestartStageView::Opening }).prepare(
            task@,
            env.deep_view(),
        ),
        restart_ready(r@),
{
    let command = stored_command(task.command.as_str());
    plan_restart(task_id, force, task, command, env)
}

/// Goes on with a restart once the command and the environment of the task were read back: a
/// command that could not be read ends it.
pub fn plan_restart(
    task_id: String,
    force: bool,
    task: Task,
    command: Result<Vec<String>, GhostError>,
    env: Vec<String>,
) -> (r: RestartStep)
    ensures
        r@ == (RestartView { task_id: task_id@, force, stage: RestartStageView::Opening }).plan(
            task@,
            result_view(command),
            env.deep_view(),
        ),
        restart_ready(r@),
{
    match command {
        Err(e) => Step::Done { result: Err(e) },
        Ok(command) => {
            let cwd = match &task.cwd {
                Some(path) => Some(path.as_str().as_bytes_vec()),
                None => None,
            };
            let request = Request::ProcessExists { pid: task.pid };
            let plan = RestartPlan {
                id: task.id,
                pid: task.pid,
                pgid: task.pgid,
                command,
                cwd,
                env,
            };
            ask(task_id, force, request, RestartStage::Probing { plan })
        },
    }
}

/// Asks for something.
fn ask(task_id: String, force: bool, request: Request, stage: RestartStage) -> (r: RestartStep)
    ensures
        r@ == (RestartView { task_id: task_id@, force, stage: stage@ }).ask(request@, stage@),
{
    Step::Ask { request, state: RestartState { task_id, force, stage } }
}

/// See `RestartView::mark`.
fn mark(task_id: String, force: bool, plan: RestartPlan) -> (r: RestartStep)
    ensures
        r@ == (RestartView { task_id: task_id@, force, stage: RestartStageView::Opening }).mark(
            plan@,
        ),
        restart_ready(r@),
{
    let request = Request::UpdateStatus {
        id: plan.id.clone(),
        status: TaskStatus::Killed,
        exit_code: None,
    };
    ask(task_id, force, request, RestartStage::Marking { plan })
}

/// See `RestartView::start`.
fn start(task_id: String, force: bool, plan: RestartPlan, was_running: bool) -> (r: RestartStep)
    ensures
        r@ == (RestartView { task_id: task_id@, force, stage: RestartStageView::Opening }).start(
            plan@,
            was_running,
        ),
        restart_ready(r@),
{
    let text = announcement("Starting task ", task_id.as_str(), "...\n");
    ask(task_id, force, Request::Print { text }, RestartStage::Starting { plan, was_running })
}

/// See `RestartView::lift`.
fn lift(task_id: String, force: bool, step: SpawnStep, was_running: bool) -> (r: RestartStep)
    requires
        spawn_ready(step@),
    ensures
        r@ == (RestartView { task_id: task_id@, force, stage: RestartStageView::Opening }).lift(
            step@,
            was_running,
        ),
        restart_ready(r@),
{
    match step {
        Step::Ask { request, state } => {
            ask(task_id, force, request, RestartStage::Spawning { was_running, spawn: state })
        },
        Step::Done { result: Ok(_) } => {
            let behind = if was_running {
                " has been restarted successfully\n"
            } else {
                " has been rerun successfully\n"
            };
            let text = announcement("Task ", task_id.as_str(), behind);
            proof {
                reveal_strlit(" has been ");
                reveal_strlit("restarted");
                reveal_strlit("rerun");
                reveal_strlit(" successfully\n");
                reveal_strlit(" has been restarted successfully\n");
                reveal_strlit(" has been rerun successfully\n");
                assert(text@ =~= restarted(task_id@, was_running));
            }
            ask(task_id, force, Request::Print { text }, RestartStage::Reporting)
        },
        Step::Done { result: Err(e) } => {
            ask(task_id, force, Request::DescribeError { error: e }, RestartStage::Describing)
        },
    }
}

/// A text with the id of a task in it.
fn announcement(before: &str, task_id: &str, behind: &str) -> (r: String)
    ensures
        r@ == before@ + task_id@ + behind@,
{
    let mut r = before.to_owned();
    r.append(task_id);
    r.append(behind);
    r
}

impl RestartState {
    /// Goes on with a reply. What is read back of a stored environment may come in any
    /// order.
    pub fn resume(self, reply: Reply) -> (r: RestartStep)
        requires
            self@.awaits(reply@),
        ensures
            exists|env: Seq<Seq<char>>| #[trigger]
                env_fits(reply@, env) && r@ == self@.next(reply@, env),
            restart_ready(r@),
    {
        let RestartState { task_id, force, stage } = self;
        let ghost state = self@;
        let ghost answer = reply@;
        let ghost mut env: Seq<Seq<char>> = Seq::empty();
        let r = match (stage, reply) {
            (RestartStage::Opening, Reply::Finished(Ok(_))) => {
                let (request, search) = get_task_by_id_or_short_id(task_id.as_str());
                ask(task_id, force, request, RestartStage::Finding { search })
            },
            (RestartStage::Finding { search }, Reply::Found(result)) => match resume_search(
                search,
                result,
            ) {
                Lookup::Retry => {
                    let request = search_for(Search::Short, task_id.as_str());
                    ask(
                        task_id,
                        force,
                        request,
                        RestartStage::Finding { search: Search::Short },
                    )
                },
                Lookup::Resolved { result: Err(e) } => Step::Done { result: Err(e) },
                Lookup::Resolved { result: Ok(task) } => {
                    let stored = stored_env(&task.env);
                    proof {
                        env = stored.deep_view();
                    }
                    prepare_restart(task_id, force, task, stored)
                },
            },
            (RestartStage::Probing { plan }, Reply::Exists(is_running)) => {
                if is_running {
                    let text = announcement("Stopping task ", task_id.as_str(), "...\n");
                    ask(task_id, force, Request::Print { text }, RestartStage::Stopping { plan })
                } else {
                    start(task_id, force, plan, false)
                }
            },
            (RestartStage::Stopping { plan }, _) => {
                let request = Request::KillAndWait {
                    pid: plan.pid,
                    pgid: plan.pgid,
                    force,
                    seconds: STOP_SECONDS,
                };
                ask(task_id, force, request, RestartStage::Killing { plan })
            },
            (RestartStage::Killing { plan }, Reply::Waited(Ok(terminated))) => {
                if !terminated && !force {
                    let text = "Process did not terminate gracefully, forcing kill...\n".to_owned();
                    ask(task_id, force, Request::Print { text }, RestartStage::Escalating { plan })
                } else {
                    mark(task_id, force, plan)
                }
            },
            (RestartStage::Killing { .. }, Reply::Waited(Err(e))) => Step::Done {
                result: Err(e),
            },
            (RestartStage::Escalating { plan }, _) => {
                let request = Request::KillAndWait {
                    pid: plan.pid,
                    pgid: plan.pgid,
                    force: true,
                    seconds: KILL_SECONDS,
                };
                ask(task_id, force, request, RestartStage::ForceKilling { plan })
            },
            (RestartStage::ForceKilling { plan }, _) => mark(task_id, force, plan),
            (RestartStage::Marking { plan }, Reply::Finished(Ok(_))) => start(
                task_id,
                force,
                plan,
                true,
            ),
            (RestartStage::Starting { plan, was_running }, _) => {
                let step = spawn_with_conn(plan.command, plan.cwd, plan.env, true, true);
                lift(task_id, force, step, was_running)
            },
            (RestartStage::Spawning { was_running, spawn }, reply) => {
                let step = spawn.resume(reply);
                lift(task_id, force, step, was_running)
            },
            (RestartStage::Describing, Reply::Described(said)) => {
                let mut message = "Failed to restart task: ".to_owned();
                message.append(said.as_str());
                Step::Done { result: Err(GhostError::InvalidArgument { message }) }
            },
            (RestartStage::Reporting, _) => Step::Done { result: Ok(()) },
            (_, Reply::Finished(Err(e))) => Step::Done { result: Err(e) },
            _ => unreached(),
        };
        assert(r@ == state.next(answer, env));
        assert(env_fits(answer, env));
        r
    }
}

/// A reply together with what was read back of the environment in it, if it is the task.
pub type RestartReply = (ReplyView, Seq<Seq<char>>);

/// The steps of a `restart` command as a function.
pub open spec fn restart_next() -> spec_fn(RestartView, RestartReply) -> RestartStepView {
    |s: RestartView, r: RestartReply| s.next(r.0, r.1)
}

/// Any failure ends the command, and is its result, with three exceptions: a full id that was
/// not found is searched for again; it does not matter whether the forced kill works; and
/// what goes wrong when the task is started again is first put into words.
pub proof fn law_restart_fails(state: RestartView, reply: ReplyView, env: Seq<Seq<char>>)
    requires
        state.awaits(reply),
        failure(reply) is Some,
        !(state.stage == (RestartStageView::Finding { search: Search::Full })
            && failure(reply)->0 is TaskNotFound),
        !(state.stage is ForceKilling),
        !(state.stage is Spawning),
    ensures
        state.next(reply, env) == (RestartStepView::Done { result: Err(failure(reply)->0) }),
{
}

/// Whatever comes of the forced kill, the task is marked as killed next.
pub proof fn law_restart_ignores_forced_kill(
    state: RestartView,
    reply: ReplyView,
    env: Seq<Seq<char>>,
)
    requires
        state.stage is ForceKilling,
    ensures
        ({
            let plan = state.stage->ForceKilling_plan;
            state.next(reply, env) == state.ask(
                RequestView::UpdateStatus {
                    id: plan.id,
                    status: TaskStatus::Killed,
                    exit_code: None,
                },
                RestartStageView::Marking { plan },
            )
        }),
{
}

/// A failure to start the task again ends in an error that quotes it.
pub proof fn law_restart_wraps_failure(
    state: RestartView,
    reply: ReplyView,
    env: Seq<Seq<char>>,
    said: Seq<char>,
)
    requires
        state.stage is Spawning,
        state.stage->spawn.next(reply) is Done,
        state.stage->spawn.next(reply)->result is Err,
    ensures
        ({
            let e = state.stage->spawn.next(reply)->result->Err_0;
            let replies = seq![(reply, env), (ReplyView::Described(said), env)];
            let step = RestartStepView::Ask { request: RequestView::OpenDatabase, state };
            &&& requests(restart_next(), step, replies)[1] == RequestView::DescribeError {
                error: e,
            }
            &&& after(restart_next(), step, replies) == (RestartStepView::Done {
                result: Err(
                    GhostErrorView::InvalidArgument {
                        message: "Failed to restart task: "@ + said,
                    },
                ),
            })
        }),
{
    reveal_with_fuel(after, 4);
    reveal_with_fuel(requests, 4);
}

/// Whether a command line is some login shell running the words of `command`.
pub open spec fn is_shell_run(execution: Seq<Seq<char>>, command: Seq<Seq<char>>) -> bool {
    exists|variable: Option<Seq<char>>| #[trigger] is_login_run(execution, variable, command)
}

/// What every request of the start keeps to: it runs and stores the command of the plan, in
/// its directory where it has one, with its environment.
pub open spec fn keeps_plan(request: RequestView, plan: RestartPlanView) -> bool {
    &&& request is SpawnProcess ==> is_shell_run(request->SpawnProcess_command, plan.command)
        && request->SpawnProcess_log_dir is None && (plan.cwd is Some
        ==> request->SpawnProcess_cwd == plan.cwd)
    &&& request is InsertTask ==> request->InsertTask_command == plan.command && (plan.cwd is Some
        ==> request->InsertTask_cwd == plan.cwd)
    &&& request is ParseEnvVars ==> request->ParseEnvVars_env == plan.env
    &&& request is ReadCurrentDir ==> plan.cwd is None
    &&& !(request is KillAndWait)
    &&& request is UpdateStatus ==> request->UpdateStatus_status == TaskStatus::Exited
        && request->UpdateStatus_exit_code == Some(1i32)
}

/// A state of the start, or later.
spec fn starts(s: RestartView, plan: RestartPlanView) -> bool {
    match s.stage {
        RestartStageView::Starting { plan: p, .. } => p == plan,
        RestartStageView::Spawning { spawn, .. } => {
            &&& spawn.job == SpawnJobView { cwd: spawn.job.cwd, ..restart_job(plan) }
            &&& plan.cwd is Some ==> spawn.job.cwd == plan.cwd
            &&& match spawn.stage {
                SpawnStageView::Opening { .. } => false,
                SpawnStageView::AskingShell { env } => env == plan.env && spawn.job.cwd == plan.cwd,
                SpawnStageView::AskingShellOnly { .. } => false,
                SpawnStageView::ReadingEnv { execution } => is_shell_run(execution, plan.command)
                    && spawn.job.cwd == plan.cwd,
                SpawnStageView::AskingDir { execution, .. } => is_shell_run(
                    execution,
                    plan.command,
                ) && plan.cwd is None,
                _ => true,
            }
        },
        RestartStageView::Describing => true,
        RestartStageView::Reporting => true,
        _ => false,
    }
}

/// From the point on where the task is started again, whatever comes back, the stored command
/// is run by a shell, in the stored directory where there is one, with the stored
/// environment; it is stored as it was; and nothing is killed any more.
pub proof fn law_restart_keeps_plan(
    state: RestartView,
    plan: RestartPlanView,
    was_running: bool,
    replies: Seq<RestartReply>,
)
    ensures
        ({
            let made = requests(restart_next(), state.start(plan, was_running), replies);
            forall|i: int| 0 <= i < made.len() ==> keeps_plan(#[trigger] made[i], plan)
        }),
{
    let inv = |s: RestartView| starts(s, plan);
    let good = |q: RequestView| keeps_plan(q, plan);
    assert forall|s: RestartView, r: RestartReply| inv(s) implies (#[trigger] restart_next()(
        s,
        r,
    ) matches Step::Ask { request, state } ==> good(request) && inv(state)) by {
        if let RestartStageView::Spawning { spawn, .. } = s.stage {
            if spawn.stage is AskingShell {
                law_wrapped(r.0->Shell_0, plan.command);
                assert(is_shell_run(wrapped(r.0->Shell_0, plan.command), plan.command));
            }
        }
    }
    lemma_every_request(restart_next(), inv, good, state.start(plan, was_running), replies);
}

/// What every request of a restart keeps to once the task was found. Its process is looked
/// for, its process or group is killed, and it is marked, by its own numbers and id. What is
/// run, and stored again, is the stored command; in the stored directory if there is one, and
/// only else in the current one; and with the stored environment.
pub open spec fn uses_stored(
    request: RequestView,
    task: TaskView,
    command: Seq<Seq<char>>,
    env: Seq<Seq<char>>,
) -> bool {
    &&& request is ProcessExists ==> request->ProcessExists_pid == task.pid
    &&& request is KillAndWait ==> request->KillAndWait_pid == task.pid
        && request->KillAndWait_pgid == task.pgid
    &&& marks_killed(request) ==> request->UpdateStatus_id == task.id
        && request->UpdateStatus_exit_code is None
    &&& request is ParseEnvVars ==> request->ParseEnvVars_env == env
    &&& request is ReadCurrentDir ==> task.cwd is None
    &&& request is SpawnProcess ==> {
        &&& is_shell_run(request->SpawnProcess_command, command)
        &&& request->SpawnProcess_log_dir is None
        &&& task.cwd matches Some(path) ==> request->SpawnProcess_cwd == Some(encode_utf8(path))
    }
    &&& request is InsertTask ==> {
        &&& request->InsertTask_command == command
        &&& task.cwd matches Some(path) ==> request->InsertTask_cwd == Some(encode_utf8(path))
    }
}

/// From the point on where the task was found, whatever its status, and whatever comes back,
/// a restart keeps to what is stored of the task.
pub proof fn law_restart_uses_stored(
    state: RestartView,
    task: TaskView,
    env: Seq<Seq<char>>,
    replies: Seq<RestartReply>,
)
    requires
        state.stage is Finding,
    ensures
        json_strings(task.command) matches Ok(command) ==> {
            let then = state.next(ReplyView::Found(Ok(task)), env);
            let made = requests(restart_next(), then, replies);
            &&& made[0] == RequestView::ProcessExists { pid: task.pid }
            &&& forall|i: int|
                0 <= i < made.len() ==> uses_stored(#[trigger] made[i], task, command, env)
        },
{
    if let Ok(command) = json_strings(task.command) {
        let cwd = match task.cwd {
            Some(path) => Some(encode_utf8(path)),
            None => None,
        };
        let plan = RestartPlanView {
            id: task.id,
            pid: task.pid,
            pgid: task.pgid,
            command,
            cwd,
            env,
        };
        let inv = |s: RestartView|
            match s.stage {
                RestartStageView::Opening => false,
                RestartStageView::Finding { .. } => false,
                RestartStageView::Probing { plan: p } => p == plan,
                RestartStageView::Stopping { plan: p } => p == plan,
                RestartStageView::Killing { plan: p } => p == plan,
                RestartStageView::Escalating { plan: p } => p == plan,
                RestartStageView::ForceKilling { plan: p } => p == plan,
                RestartStageView::Marking { plan: p } => p == plan,
                _ => starts(s, plan),
            };
        let good = |q: RequestView| uses_stored(q, task, command, env);
        let then = state.next(ReplyView::Found(Ok(task)), env);
        assert forall|s: RestartView, r: RestartReply| inv(s) implies (#[trigger] restart_next()(
            s,
            r,
        ) matches Step::Ask { request, state } ==> good(request) && inv(state)) by {
            if let RestartStageView::Spawning { spawn, .. } = s.stage {
                if spawn.stage is AskingShell {
                    law_wrapped(r.0->Shell_0, plan.command);
                    assert(is_shell_run(wrapped(r.0->Shell_0, plan.command), plan.command));
                }
            }
        }
        lemma_every_request(restart_next(), inv, good, then, replies);
    }
}

/// A task whose process does not exist is started again without anything being killed or
/// marked as killed.
pub proof fn law_restart_of_stopped_task(
    state: RestartView,
    env: Seq<Seq<char>>,
    replies: Seq<RestartReply>,
)
    requires
        state.stage is Probing,
    ensures
        ({
            let plan = state.stage->Probing_plan;
            let then = state.next(ReplyView::Exists(false), env);
            let made = requests(restart_next(), then, replies);
            &&& made[0] == RequestView::Print {
                text: "Starting task "@ + state.task_id + "...\n"@,
            }
            &&& forall|i: int| 0 <= i < made.len() ==> keeps_plan(#[trigger] made[i], plan)
        }),
{
    law_restart_keeps_plan(state, state.stage->Probing_plan, false, replies);
}

/// A task whose process exists is stopped first: it is told to end, or forced to if that was
/// asked for; if it was told and has not ended in time it is forced to; then it is marked as
/// killed; and only then it is started again.
pub proof fn law_restart_of_running_task(
    state: RestartView,
    terminated: bool,
    forced: Result<bool, GhostErrorView>,
    env: Seq<Seq<char>>,
)
    requires
        state.stage is Probing,
    ensures
        ({
            let plan = state.stage->Probing_plan;
            let told = seq![
                (ReplyView::Exists(true), env),
                (ReplyView::Shown, env),
                (ReplyView::Waited(Ok(terminated)), env),
            ];
            let again = seq![(ReplyView::Shown, env), (ReplyView::Waited(forced), env)];
            let marked = seq![(done(), env)];
            let open = RequestView::ProcessExists { pid: plan.pid };
            let step = RestartStepView::Ask { request: open, state };
            let tell = seq![
                open,
                RequestView::Print { text: "Stopping task "@ + state.task_id + "...\n"@ },
                RequestView::KillAndWait {
                    pid: plan.pid,
                    pgid: plan.pgid,
                    force: state.force,
                    seconds: 5,
                },
            ];
            let force = seq![
                RequestView::Print {
                    text: "Process did not terminate gracefully, forcing kill...\n"@,
                },
                RequestView::KillAndWait {
                    pid: plan.pid,
                    pgid: plan.pgid,
                    force: true,
                    seconds: 2,
                },
            ];
            let start = seq![
                RequestView::UpdateStatus {
                    id: plan.id,
                    status: TaskStatus::Killed,
                    exit_code: None,
                },
                RequestView::Print { text: "Starting task "@ + state.task_id + "...\n"@ },
            ];
            if !terminated && !state.force {
                &&& requests(restart_next(), step, told + again + marked) == tell + force + start
                &&& after(restart_next(), step, told + again + marked) == state.start(plan, true)
            } else {
                &&& requests(restart_next(), step, told + marked) == tell + start
                &&& after(restart_next(), step, told + marked) == state.start(plan, true)
            }
        }),
{
    reveal_with_fuel(after, 8);
    reveal_with_fuel(requests, 8);
}

/// A task whose stored command cannot be read is refused before anything is done to it.
pub proof fn law_restart_refuses_bad_command(
    state: RestartView,
    task: TaskView,
    env: Seq<Seq<char>>,
)
    requires
        state.stage is Finding,
    ensures
        json_strings(task.command) matches Err(said) ==> state.next(
            ReplyView::Found(Ok(task)),
            env,
        ) == (RestartStepView::Done {
            result: Err(
                GhostErrorView::InvalidArgument { message: "Failed to parse command: "@ + said },
            ),
        }),
{
}

/// What `restart` plans for a task: the command, directory and environment that were stored
/// for it.
pub proof fn law_restart_plans(state: RestartView, task: TaskView, env: Seq<Seq<char>>)
    requires
        state.stage is Finding,
    ensures
        json_strings(task.command) matches Ok(command) ==> state.next(
            ReplyView::Found(Ok(task)),
            env,
        ) == (RestartStepView::Ask {
            request: RequestView::ProcessExists { pid: task.pid },
            state: RestartView {
                task_id: state.task_id,
                force: state.force,
                stage: RestartStageView::Probing {
                    plan: RestartPlanView {
                        id: task.id,
                        pid: task.pid,
                        pgid: task.pgid,
                        command,
                        cwd: match task.cwd {
                            Some(path) => Some(encode_utf8(path)),
                            None => None,
                        },
                        env,
                    },
                },
            },
        }),
{
}

/// The same once the command was read back: whatever the task is like else, its number, group
/// and id are those of the task; its directory is the stored one, byte by byte, and missing
/// only if none is stored; its command and environment are those that were read back. A
/// command that could not be read ends the restart with that error.
pub proof fn law_restart_plans_given(
    state: RestartView,
    task: TaskView,
    command: Seq<Seq<char>>,
    error: GhostErrorView,
    env: Seq<Seq<char>>,
)
    ensures
        json_strings(task.command) matches Ok(words) ==> state.prepare(task, env) == state.plan(
            task,
            Ok(words),
            env,
        ),
        json_strings(task.command) matches Err(said) ==> state.prepare(task, env) == (
        RestartStepView::Done {
            result: Err(
                GhostErrorView::InvalidArgument { message: "Failed to parse command: "@ + said },
            ),
        }),
        state.plan(task, Err(error), env) == (RestartStepView::Done { result: Err(error) }),
        state.plan(task, Ok(command), env) is Ask,
        state.plan(task, Ok(command), env)->request == (RequestView::ProcessExists {
            pid: task.pid,
        }),
        ({
            let then = state.plan(task, Ok(command), env)->state;
            let plan = then.stage->Probing_plan;
            &&& then.task_id == state.task_id
            &&& then.force == state.force
            &&& then.stage is Probing
            &&& plan.id == task.id
            &&& plan.pid == task.pid
            &&& plan.pgid == task.pgid
            &&& plan.command == command
            &&& plan.env == env
            &&& task.cwd matches Some(path) ==> plan.cwd == Some(encode_utf8(path))
            &&& task.cwd is None ==> plan.cwd is None
        }),
{
}

/// A task without a command is not started: that is put into words, and the restart fails with
/// them.
pub proof fn law_restart_of_empty_command(
    state: RestartView,
    said: Seq<char>,
    env: Seq<Seq<char>>,
)
    requires
        state.stage is Starting,
        state.stage->Starting_plan.command.len() == 0,
    ensures
        ({
            let then = state.next(ReplyView::Shown, env);
            &&& then is Ask
            &&& then->request == (RequestView::DescribeError {
                error: GhostErrorView::InvalidArgument { message: "No command specified"@ },
            })
            &&& then->state.next(ReplyView::Described(said), env) == (RestartStepView::Done {
                result: Err(
                    GhostErrorView::InvalidArgument {
                        message: "Failed to restart task: "@ + said,
                    },
                ),
            })
        }),
{
}

/// Replies, each with the environment that was read back.
pub open spec fn tagged(replies: Seq<ReplyView>, env: Seq<Seq<char>>) -> Seq<RestartReply> {
    replies.map_values(|r: ReplyView| (r, env))
}

/// Whether a kill is repeated by force.
pub open spec fn escalates(force: bool, terminated: bool) -> bool {
    !terminated && !force
}

/// The replies to a task that is stopped, or found not to be running. `terminated` says
/// whether it ended when it was told to, and `forced` what came of forcing it.
pub open spec fn stop_replies(
    force: bool,
    running: bool,
    terminated: bool,
    forced: Result<bool, GhostErrorView>,
) -> Seq<ReplyView> {
    if running {
        seq![ReplyView::Exists(true), ReplyView::Shown, ReplyView::Waited(Ok(terminated))] + (
        if escalates(force, terminated) {
            seq![ReplyView::Shown, ReplyView::Waited(forced)]
        } else {
            seq![]
        }) + seq![done()]
    } else {
        seq![ReplyView::Exists(false)]
    }
}

/// The requests that stop a task if it is running.
pub open spec fn stop_requests(
    task_id: Seq<char>,
    force: bool,
    plan: RestartPlanView,
    running: bool,
    terminated: bool,
) -> Seq<RequestView> {
    seq![RequestView::ProcessExists { pid: plan.pid }] + if running {
        seq![
            RequestView::Print { text: "Stopping task "@ + task_id + "...\n"@ },
            RequestView::KillAndWait { pid: plan.pid, pgid: plan.pgid, force, seconds: 5 },
        ] + (if escalates(force, terminated) {
            seq![
                RequestView::Print {
                    text: "Process did not terminate gracefully, forcing kill...\n"@,
                },
                RequestView::KillAndWait {
                    pid: plan.pid,
                    pgid: plan.pgid,
                    force: true,
                    seconds: 2,
                },
            ]
        } else {
            seq![]
        }) + seq![
            RequestView::UpdateStatus { id: plan.id, status: TaskStatus::Killed, exit_code: None },
        ]
    } else {
        seq![]
    }
}

/// A start within a restart is the start by itself, followed by the good news.
proof fn lemma_lifted_run(
    state: RestartView,
    was_running: bool,
    step: SpawnStepView,
    replies: Seq<ReplyView>,
    env: Seq<Seq<char>>,
)
    requires
        step is Ask,
        requests(spawn_next(), step, replies).len() == replies.len(),
        after(spawn_next(), step, replies) is Done,
        after(spawn_next(), step, replies)->result is Ok,
    ensures
        ({
            let all = tagged(replies, env) + seq![(ReplyView::Shown, env)];
            let first = state.lift(step, was_running);
            &&& after(restart_next(), first, all) == (RestartStepView::Done { result: Ok(()) })
            &&& requests(restart_next(), first, all) == requests(spawn_next(), step, replies)
                + seq![RequestView::Print { text: restarted(state.task_id, was_running) }]
        }),
    decreases replies.len(),
{
    let said = RequestView::Print { text: restarted(state.task_id, was_running) };
    let all = tagged(replies, env) + seq![(ReplyView::Shown, env)];
    let first = state.lift(step, was_running);
    let later = replies.drop_first();
    let then = step->state.next(replies[0]);
    assert(requests(spawn_next(), step, replies) == seq![step->request] + requests(
        spawn_next(),
        then,
        later,
    ));
    assert(all[0] == (replies[0], env));
    assert(all.drop_first() =~= tagged(later, env) + seq![(ReplyView::Shown, env)]);
    let rest = state.lift(then, was_running);
    assert(first->state.next(replies[0], env) == rest);
    if then is Ask {
        lemma_lifted_run(state, was_running, then, later, env);
    } else {
        assert(later.len() == 0);
        assert(all.drop_first() =~= seq![(ReplyView::Shown, env)]);
        reveal_with_fuel(after, 3);
        reveal_with_fuel(requests, 3);
        assert(requests(restart_next(), rest, all.drop_first()) =~= seq![said]);
    }
    assert(requests(restart_next(), first, all) =~= requests(spawn_next(), step, replies) + seq![
        said,
    ]);
}

/// How a task is stopped, or found not to be running, before it is started again.
proof fn lemma_stop_run(
    state: RestartView,
    running: bool,
    terminated: bool,
    forced: Result<bool, GhostErrorView>,
    env: Seq<Seq<char>>,
)
    requires
        state.stage is Probing,
    ensures
        ({
            let plan = state.stage->Probing_plan;
            let step = RestartStepView::Ask {
                request: RequestView::ProcessExists { pid: plan.pid },
                state,
            };
            let replies = tagged(stop_replies(state.force, running, terminated, forced), env);
            &&& after(restart_next(), step, replies) == state.start(plan, running)
            &&& requests(restart_next(), step, replies) == stop_requests(
                state.task_id,
                state.force,
                plan,
                running,
                terminated,
            ).push(RequestView::Print { text: starting(state.task_id) })
        }),
{
    let plan = state.stage->Probing_plan;
    let step = RestartStepView::Ask {
        request: RequestView::ProcessExists { pid: plan.pid },
        state,
    };
    let replies = tagged(stop_replies(state.force, running, terminated, forced), env);
    let expected = stop_requests(state.task_id, state.force, plan, running, terminated).push(
        RequestView::Print { text: starting(state.task_id) },
    );
    if running {
        law_restart_of_running_task(state, terminated, forced, env);
        let told = seq![
            (ReplyView::Exists(true), env),
            (ReplyView::Shown, env),
            (ReplyView::Waited(Ok(terminated)), env),
        ];
        let again = seq![(ReplyView::Shown, env), (ReplyView::Waited(forced), env)];
        let marked = seq![(done(), env)];
        if escalates(state.force, terminated) {
            assert(replies =~= told + again + marked);
        } else {
            assert(replies =~= told + marked);
        }
    } else {
        assert(replies =~= seq![(ReplyView::Exists(false), env)]);
        reveal_with_fuel(after, 3);
        reveal_with_fuel(requests, 3);
    }
    assert(requests(restart_next(), step, replies) =~= expected);
}

/// How a restart finds its task and learns what to start again.
proof fn lemma_find_run(
    task_id: Seq<char>,
    force: bool,
    task: TaskView,
    command: Seq<Seq<char>>,
    env: Seq<Seq<char>>,
)
    requires
        json_strings(task.command) == Ok::<Seq<Seq<char>>, Seq<char>>(command),
    ensures
        ({
            let plan = plan_for(task, command, env);
            let probe = RequestView::ProcessExists { pid: plan.pid };
            let step = restart_opening(task_id, force);
            let replies = tagged(seq![done(), ReplyView::Found(Ok(task))], env);
            &&& after(restart_next(), step, replies) == (RestartStepView::Ask {
                request: probe,
                state: RestartView { task_id, force, stage: RestartStageView::Probing { plan } },
            })
            &&& requests(restart_next(), step, replies) == seq![
                RequestView::OpenDatabase,
                search_request(first_search(task_id), task_id),
            ].push(probe)
        }),
{
    let replies = tagged(seq![done(), ReplyView::Found(Ok(task))], env);
    assert(replies =~= seq![(done(), env), (ReplyView::Found(Ok(task)), env)]);
    reveal_with_fuel(after, 4);
    reveal_with_fuel(requests, 4);
}

/// How a restart goes on once its announcement was shown, if the start goes well.
proof fn lemma_start_run(
    state: RestartView,
    plan: RestartPlanView,
    was_running: bool,
    replies: Seq<ReplyView>,
    env: Seq<Seq<char>>,
)
    requires
        plan.env == env,
        restart_job(plan).begin(env) is Ask,
        requests(spawn_next(), restart_job(plan).begin(env), replies).len() == replies.len(),
        after(spawn_next(), restart_job(plan).begin(env), replies) is Done,
        after(spawn_next(), restart_job(plan).begin(env), replies)->result is Ok,
    ensures
        ({
            let first = state.start(plan, was_running);
            let all = tagged(seq![ReplyView::Shown] + replies + seq![ReplyView::Shown], env);
            &&& after(restart_next(), first, all) == (RestartStepView::Done { result: Ok(()) })
            &&& requests(restart_next(), first, all) == seq![
                RequestView::Print { text: starting(state.task_id) },
            ] + requests(spawn_next(), restart_job(plan).begin(env), replies) + seq![
                RequestView::Print { text: restarted(state.task_id, was_running) },
            ]
        }),
{
    let step = restart_job(plan).begin(env);
    let first = state.start(plan, was_running);
    let all = tagged(seq![ReplyView::Shown] + replies + seq![ReplyView::Shown], env);
    let run = tagged(replies, env) + seq![(ReplyView::Shown, env)];
    lemma_lifted_run(first->state, was_running, step, replies, env);
    assert(all.drop_first() =~= run);
    assert(all[0] == (ReplyView::Shown, env));
    assert(first->state.next(ReplyView::Shown, env) == first->state.lift(step, was_running));
    assert(requests(restart_next(), first, all) =~= seq![
        RequestView::Print { text: starting(state.task_id) },
    ] + requests(spawn_next(), step, replies) + seq![
        RequestView::Print { text: restarted(state.task_id, was_running) },
    ]);
}

/// A whole restart whose start goes well.
proof fn lemma_restart_run(
    task_id: Seq<char>,
    force: bool,
    task: TaskView,
    command: Seq<Seq<char>>,
    env: Seq<Seq<char>>,
    running: bool,
    terminated: bool,
    forced: Result<bool, GhostErrorView>,
    smooth: Seq<ReplyView>,
)
    requires
        json_strings(task.command) == Ok::<Seq<Seq<char>>, Seq<char>>(command),
        ({
            let step = restart_job(plan_for(task, command, env)).begin(env);
            &&& step is Ask
            &&& requests(spawn_next(), step, smooth).len() == smooth.len()
            &&& after(spawn_next(), step, smooth) is Done
            &&& after(spawn_next(), step, smooth)->result is Ok
        }),
    ensures
        ({
            let plan = plan_for(task, command, env);
            let step = restart_opening(task_id, force);
            let replies = tagged(
                seq![done(), ReplyView::Found(Ok(task))] + stop_replies(
                    force,
                    running,
                    terminated,
                    forced,
                ) + seq![ReplyView::Shown] + smooth + seq![ReplyView::Shown],
                env,
            );
            &&& after(restart_next(), step, replies) == (RestartStepView::Done { result: Ok(()) })
            &&& requests(restart_next(), step, replies) == seq![
                RequestView::OpenDatabase,
                search_request(first_search(task_id), task_id),
            ] + stop_requests(task_id, force, plan, running, terminated) + seq![
                RequestView::Print { text: starting(task_id) },
            ] + requests(spawn_next(), restart_job(plan).begin(env), smooth) + seq![
                RequestView::Print { text: restarted(task_id, running) },
            ]
        }),
{
    let plan = plan_for(task, command, env);
    let opening = restart_opening(task_id, force);
    let state = RestartView { task_id, force, stage: RestartStageView::Probing { plan } };
    let probe = RestartStepView::Ask {
        request: RequestView::ProcessExists { pid: plan.pid },
        state,
    };
    let find = tagged(seq![done(), ReplyView::Found(Ok(task))], env);
    let stop = tagged(stop_replies(force, running, terminated, forced), env);
    let start = tagged(seq![ReplyView::Shown] + smooth + seq![ReplyView::Shown], env);
    let first = seq![
        RequestView::OpenDatabase,
        search_request(first_search(task_id), task_id),
    ];
    let stopped = stop_requests(task_id, force, plan, running, terminated);
    let started = requests(restart_next(), state.start(plan, running), start);

    lemma_find_run(task_id, force, task, command, env);
    lemma_stop_run(state, running, terminated, forced, env);
    lemma_start_run(state, plan, running, smooth, env);
    lemma_run_on(restart_next(), probe, stop, start);
    lemma_run_on(restart_next(), opening, find, stop + start);

    let replies = tagged(
        seq![done(), ReplyView::Found(Ok(task))] + stop_replies(force, running, terminated, forced)
            + seq![ReplyView::Shown] + smooth + seq![ReplyView::Shown],
        env,
    );
    assert(replies =~= find + (stop + start));
    assert(stopped.push(RequestView::Print { text: starting(task_id) }).drop_last() =~= stopped);
    assert(first.push(probe->request).drop_last() =~= first);
    assert(requests(restart_next(), opening, replies) == first + (stopped + started));
    assert(first + (stopped + started) =~= first + stopped + started);
}

/// What `restart` does, from the beginning to the end, when the task can be started again:
/// whether it was running or not, whether it ended when it was told to or had to be forced,
/// and whether or not a directory is stored for it. A task that was running is reported as
/// restarted, any other as rerun.
pub proof fn law_restart_succeeds(
    task_id: Seq<char>,
    force: bool,
    task: TaskView,
    command: Seq<Seq<char>>,
    env: Seq<Seq<char>>,
    running: bool,
    terminated: bool,
    forced: Result<bool, GhostErrorView>,
    variable: Option<Seq<char>>,
    env_vars: Seq<(Seq<char>, Seq<char>)>,
    current: Option<Seq<u8>>,
    info: ProcessInfoView,
)
    requires
        command.len() > 0,
    ensures
        json_strings(task.command) == Ok::<Seq<Seq<char>>, Seq<char>>(command) ==> {
            let cwd = match task.cwd {
                Some(path) => Some(encode_utf8(path)),
                None => None,
            };
            let plan = RestartPlanView {
                id: task.id,
                pid: task.pid,
                pgid: task.pgid,
                command,
                cwd,
                env,
            };
            let job = SpawnJobView {
                command,
                cwd,
                verify_start: true,
                show_output: true,
                detach: true,
            };
            let step = restart_opening(task_id, force);
            let replies = tagged(
                seq![done(), ReplyView::Found(Ok(task))] + stop_replies(
                    force,
                    running,
                    terminated,
                    forced,
                ) + seq![ReplyView::Shown] + smooth_replies(
                    job,
                    variable,
                    env_vars,
                    current,
                    info,
                ) + seq![ReplyView::Shown],
                env,
            );
            &&& after(restart_next(), step, replies) == (RestartStepView::Done { result: Ok(()) })
            &&& requests(restart_next(), step, replies) == seq![
                RequestView::OpenDatabase,
                search_request(first_search(task_id), task_id),
            ] + stop_requests(task_id, force, plan, running, terminated) + seq![
                RequestView::Print { text: "Starting task "@ + task_id + "...\n"@ },
            ] + smooth_requests(job, env, variable, env_vars, current, info) + seq![
                RequestView::Print {
                    text: "Task "@ + task_id + " has been "@ + (if running {
                        "restarted"@
                    } else {
                        "rerun"@
                    }) + " successfully\n"@,
                },
            ]
        },
{
    if json_strings(task.command) == Ok::<Seq<Seq<char>>, Seq<char>>(command) {
        let job = restart_job(plan_for(task, command, env));
        let smooth = smooth_replies(job, variable, env_vars, current, info);
        law_spawn_with_conn_succeeds(job, env, variable, env_vars, current, info);
        assert(requests(spawn_next(), job.begin(env), smooth).len() == smooth.len());
        lemma_restart_run(task_id, force, task, command, env, running, terminated, forced, smooth);
    }
}

/// A full id that was not found is searched for again, as the beginning of one. If that finds
/// the task, all goes on as if it had been found at first; only one request more is made.
pub proof fn law_restart_retries(
    state: RestartView,
    missed: GhostErrorView,
    task: TaskView,
    env: Seq<Seq<char>>,
    replies: Seq<RestartReply>,
)
    requires
        missed is TaskNotFound,
    ensures
        ({
            let step = state.find(Search::Full);
            let again = step->state.next(ReplyView::Found(Err(missed)), env);
            let found = ReplyView::Found(Ok(task));
            let once = seq![(found, env)] + replies;
            let twice = seq![(ReplyView::Found(Err(missed)), env), (found, env)] + replies;
            &&& again == state.find(Search::Short)
            &&& again->state.next(found, env) == step->state.next(found, env)
            &&& after(restart_next(), step, twice) == after(restart_next(), step, once)
            &&& requests(restart_next(), step, twice) == seq![
                RequestView::GetTask { id: state.task_id },
                RequestView::GetTaskByShortId { id: state.task_id },
            ] + requests(restart_next(), step, once).drop_first()
        }),
{
    let step = state.find(Search::Full);
    let missing = (ReplyView::Found(Err(missed)), env);
    let found = (ReplyView::Found(Ok(task)), env);
    lemma_second_try(restart_next(), step, missing, found, replies);
    let once = requests(restart_next(), step, seq![found] + replies);
    let rest = requests(restart_next(), step->state.next(found.0, env), replies);
    assert(once.drop_first() =~= rest);
}

/// Whether a request marks a task as killed.
pub open spec fn marks_killed(request: RequestView) -> bool {
    request is UpdateStatus && request->UpdateStatus_status == TaskStatus::Killed
}

/// How neighbouring requests of a restart hang together.
pub open spec fn restart_link(
    task_id: Seq<char>,
    force: bool,
    q: RequestView,
    r: ReplyView,
    then: RequestView,
) -> bool {
    &&& then is ProcessExists ==> {
        &&& q is GetTask || q is GetTaskByShortId
        &&& r is Found && r->Found_0 is Ok
        &&& then->ProcessExists_pid == r->Found_0->Ok_0.pid
    }
    &&& q is ProcessExists ==> then == RequestView::Print {
        text: if r->Exists_0 {
            stopping(task_id)
        } else {
            starting(task_id)
        },
    }
    &&& then is KillAndWait ==> {
        ||| q == RequestView::Print { text: stopping(task_id) } && then->KillAndWait_force == force
            && then->KillAndWait_seconds == STOP_SECONDS
        ||| q == RequestView::Print { text: escalation() } && then->KillAndWait_force
            && then->KillAndWait_seconds == KILL_SECONDS
    }
    &&& q is KillAndWait ==> if r == ReplyView::Waited(Ok(false)) && !q->KillAndWait_force {
        then == RequestView::Print { text: escalation() }
    } else {
        marks_killed(then) && then->UpdateStatus_exit_code is None
    }
    &&& marks_killed(then) ==> q is KillAndWait
    &&& marks_killed(q) ==> is_done(r) && then == RequestView::Print { text: starting(task_id) }
    &&& then == (RequestView::Print { text: starting(task_id) }) ==> {
        ||| q is ProcessExists && r == ReplyView::Exists(false)
        ||| marks_killed(q) && is_done(r)
    }
    &&& then is ReadShellVariable ==> q == RequestView::Print { text: starting(task_id) }
}

/// Ties a state to the request that it waits for.
spec fn restart_paired(task_id: Seq<char>, force: bool, q: RequestView, s: RestartView) -> bool {
    &&& s.task_id == task_id
    &&& s.force == force
    &&& match s.stage {
        RestartStageView::Opening => q is OpenDatabase,
        RestartStageView::Finding { .. } => q is GetTask || q is GetTaskByShortId,
        RestartStageView::Probing { .. } => q is ProcessExists,
        RestartStageView::Stopping { .. } => q == RequestView::Print { text: stopping(task_id) },
        RestartStageView::Killing { .. } => q is KillAndWait && q->KillAndWait_force == force,
        RestartStageView::Escalating { .. } => q == RequestView::Print { text: escalation() },
        RestartStageView::ForceKilling { .. } => q is KillAndWait && q->KillAndWait_force,
        RestartStageView::Marking { .. } => marks_killed(q),
        RestartStageView::Starting { .. } => q == RequestView::Print { text: starting(task_id) },
        RestartStageView::Spawning { spawn, .. } => {
            &&& !(spawn.stage is Opening)
            &&& !(q is ProcessExists) && !(q is KillAndWait) && !marks_killed(q)
        },
        RestartStageView::Describing => q is DescribeError,
        RestartStageView::Reporting => q is Print,
    }
}

/// Whatever comes back: only the process of a task that was found is looked for. If it exists
/// it is told to end, as was asked for, and forced to end if and only if it was not forced
/// and has not ended in time; after that the task is marked as killed, and no task is marked
/// as killed otherwise. The task is started again only once it is marked, or if its process
/// does not exist.
pub proof fn law_restart_order(task_id: Seq<char>, force: bool, replies: Seq<RestartReply>)
    ensures
        ({
            let made = requests(restart_next(), restart_opening(task_id, force), replies);
            &&& made.len() <= replies.len() + 1
            &&& made[0] == RequestView::OpenDatabase
            &&& forall|i: int|
                0 <= i < made.len() - 1 && answers(made[i], (#[trigger] replies[i]).0)
                    ==> restart_link(task_id, force, made[i], replies[i].0, made[i + 1])
        }),
{
    assert(starting(task_id) != stopping(task_id) && starting(task_id) != escalation() && starting(
        task_id,
    ) != restarted(task_id, true) && starting(task_id) != restarted(task_id, false)) by {
        reveal_strlit("Starting task ");
        reveal_strlit("Stopping task ");
        reveal_strlit("Process did not terminate gracefully, forcing kill...\n");
        reveal_strlit("Task ");
        assert(starting(task_id)[0] == 'S' && starting(task_id)[2] == 'a');
        assert(stopping(task_id)[2] == 'o');
        assert(escalation()[0] == 'P');
        assert(restarted(task_id, true)[0] == 'T' && restarted(task_id, false)[0] == 'T');
    }
    lemma_every_link(
        restart_next(),
        |q: RequestView, s: RestartView| restart_paired(task_id, force, q, s),
        |q: RequestView, r: RestartReply, then: RequestView|
            answers(q, r.0) ==> restart_link(task_id, force, q, r.0, then),
        restart_opening(task_id, force),
        replies,
    );
}

} // verus!
