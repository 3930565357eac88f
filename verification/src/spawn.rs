//! Running a command in the background.

use vstd::pervasive::unreached;
use vstd::prelude::*;

use crate::error::{GhostError, GhostErrorView, invalid_argument};
use crate::protocol::{
    Reply, ReplyView, Request, RequestView, Step, Valueless, after, answers, done, drop_value,
    failure, is_done, is_output, lemma_every_link, lemma_every_request, lemma_opened_run,
    lemma_run_on, path_view, requests, valueless, without_value,
};
use crate::shell::{is_login_run, law_wrapped, wrap_with_user_shell, wrapped};
use crate::task::{
    ProcessInfo, ProcessInfoView, TaskStatus, copy_pairs, copy_path, copy_texts,
};

verus! {

/// How long a process may take to be seen running.
pub const START_SECONDS: u64 = 2;

/// What is to be run, and what is to happen around it.
pub struct SpawnJob {
    /// The command as the user gave it, which is what is stored.
    pub command: Vec<String>,
    /// The directory to run it in; the current one where none is given.
    pub cwd: Option<Vec<u8>>,
    /// Whether the process must be seen running.
    pub verify_start: bool,
    /// Whether the user is told of the process.
    pub show_output: bool,
    /// Whether the process is left to itself in the end.
    pub detach: bool,
}

/// A command that is being started.
pub struct SpawnState {
    pub job: SpawnJob,
    pub stage: SpawnStage,
}

/// What a command that is being started is waiting for.
#[allow(inconsistent_fields)]
pub enum SpawnStage {
    Opening { env: Vec<String> },
    AskingShell { env: Vec<String> },
    AskingShellOnly { env_vars: Vec<(String, String)> },
    ReadingEnv { execution: Vec<String> },
    AskingDir { execution: Vec<String>, env_vars: Vec<(String, String)> },
    Launching,
    Registering { info: ProcessInfo },
    Confirming { info: ProcessInfo },
    Failing,
    Announcing { info: ProcessInfo },
    Detaching { info: ProcessInfo },
}

/// The model of `SpawnJob`.
pub struct SpawnJobView {
    pub command: Seq<Seq<char>>,
    pub cwd: Option<Seq<u8>>,
    pub verify_start: bool,
    pub show_output: bool,
    pub detach: bool,
}

/// The model of `SpawnState`.
pub struct SpawnView {
    pub job: SpawnJobView,
    pub stage: SpawnStageView,
}

/// The model of `SpawnStage`.
#[allow(inconsistent_fields)]
pub enum SpawnStageView {
    Opening { env: Seq<Seq<char>> },
    AskingShell { env: Seq<Seq<char>> },
    AskingShellOnly { env_vars: Seq<(Seq<char>, Seq<char>)> },
    ReadingEnv { execution: Seq<Seq<char>> },
    AskingDir { execution: Seq<Seq<char>>, env_vars: Seq<(Seq<char>, Seq<char>)> },
    Launching,
    Registering { info: ProcessInfoView },
    Confirming { info: ProcessInfoView },
    Failing,
    Announcing { info: ProcessInfoView },
    Detaching { info: ProcessInfoView },
}

impl View for SpawnJob {
    type V = SpawnJobView;

    open spec fn view(&self) -> SpawnJobView {
        SpawnJobView {
            command: self.command.deep_view(),
            cwd: path_view(self.cwd),
            verify_start: self.verify_start,
            show_output: self.show_output,
            detach: self.detach,
        }
    }
}

impl View for SpawnStage {
    type V = SpawnStageView;

    open spec fn view(&self) -> SpawnStageView {
        match self {
            SpawnStage::Opening { env } => SpawnStageView::Opening { env: env.deep_view() },
            SpawnStage::AskingShell { env } => SpawnStageView::AskingShell {
                env: env.deep_view(),
            },
            SpawnStage::AskingShellOnly { env_vars } => SpawnStageView::AskingShellOnly {
                env_vars: env_vars.deep_view(),
            },
            SpawnStage::ReadingEnv { execution } => SpawnStageView::ReadingEnv {
                execution: execution.deep_view(),
            },
            SpawnStage::AskingDir { execution, env_vars } => SpawnStageView::AskingDir {
                execution: execution.deep_view(),
                env_vars: env_vars.deep_view(),
            },
            SpawnStage::Launching => SpawnStageView::Launching,
            SpawnStage::Registering { info } => SpawnStageView::Registering { info: info@ },
            SpawnStage::Confirming { info } => SpawnStageView::Confirming { info: info@ },
            SpawnStage::Failing => SpawnStageView::Failing,
            SpawnStage::Announcing { info } => SpawnStageView::Announcing { info: info@ },
            SpawnStage::Detaching { info } => SpawnStageView::Detaching { info: info@ },
        }
    }
}

impl View for SpawnState {
    type V = SpawnView;

    open spec fn view(&self) -> SpawnView {
        SpawnView { job: self.job@, stage: self.stage@ }
    }
}

/// A step of a command that is being started.
pub type SpawnStep = Step<Request, SpawnState, Result<ProcessInfo, GhostError>>;

/// The model of `SpawnStep`.
pub type SpawnStepView = Step<RequestView, SpawnView, Result<ProcessInfoView, GhostErrorView>>;

/// A `spawn` command under way.
pub type SpawnCommand = Valueless<SpawnState>;

/// A step of a `spawn` command.
pub type SpawnCommandStep = Step<Request, SpawnCommand, Result<(), GhostError>>;

/// The model of `SpawnCommandStep`.
pub type SpawnCommandStepView = Step<RequestView, Valueless<SpawnView>, Result<(), GhostErrorView>>;

/// The request that starts a process. Its log goes to the usual place.
pub open spec fn spawn_request(
    execution: Seq<Seq<char>>,
    cwd: Option<Seq<u8>>,
    env_vars: Seq<(Seq<char>, Seq<char>)>,
) -> RequestView {
    RequestView::SpawnProcess { command: execution, cwd, log_dir: None, env_vars }
}

/// The request that stores a process which was started. The command is the one the user
/// gave; an empty environment is stored as none.
pub open spec fn insert_request(job: SpawnJobView, info: ProcessInfoView) -> RequestView {
    RequestView::InsertTask {
        id: info.id,
        pid: info.pid,
        pgid: Some(info.pgid),
        command: job.command,
        env: if info.env.len() == 0 {
            None
        } else {
            Some(info.env)
        },
        cwd: job.cwd,
        log_path: info.log_path,
    }
}

/// The error of a process that ended before it was seen running.
pub open spec fn ended_early() -> GhostErrorView {
    GhostErrorView::ProcessSpawn { message: "Process exited immediately after starting"@ }
}

impl SpawnJobView {
    /// Asks for something on behalf of the job.
    pub open spec fn ask(self, request: RequestView, stage: SpawnStageView) -> SpawnStepView {
        Step::Ask { request, state: SpawnView { job: self, stage } }
    }

    /// Starts the process, in the current directory where no other was given.
    pub open spec fn place(
        self,
        execution: Seq<Seq<char>>,
        env_vars: Seq<(Seq<char>, Seq<char>)>,
    ) -> SpawnStepView {
        if self.cwd is Some {
            self.launch(execution, env_vars)
        } else {
            self.ask(
                RequestView::ReadCurrentDir,
                SpawnStageView::AskingDir { execution, env_vars },
            )
        }
    }

    /// Starts the process in the directory of the job.
    pub open spec fn launch(
        self,
        execution: Seq<Seq<char>>,
        env_vars: Seq<(Seq<char>, Seq<char>)>,
    ) -> SpawnStepView {
        self.ask(
            spawn_request(execution, self.cwd, env_vars),
            SpawnStageView::Launching,
        )
    }

    /// Goes on once the process is stored.
    pub open spec fn confirm(self, info: ProcessInfoView) -> SpawnStepView {
        if self.verify_start {
            self.ask(
                RequestView::WaitForStart { pid: info.pid, seconds: START_SECONDS },
                SpawnStageView::Confirming { info },
            )
        } else {
            self.announce(info)
        }
    }

    /// Goes on once the process counts as started.
    pub open spec fn announce(self, info: ProcessInfoView) -> SpawnStepView {
        if self.show_output {
            self.ask(
                RequestView::ShowProcessStarted {
                    id: info.id,
                    pid: info.pid,
                    log_path: info.log_path,
                },
                SpawnStageView::Announcing { info },
            )
        } else {
            self.leave(info)
        }
    }

    /// Leaves the process to itself.
    pub open spec fn leave(self, info: ProcessInfoView) -> SpawnStepView {
        if self.detach {
            self.ask(RequestView::ReapChild, SpawnStageView::Detaching { info })
        } else {
            Step::Done { result: Ok(info) }
        }
    }

    /// The job of `spawn_with_conn` once the task store is open.
    pub open spec fn begin(self, env: Seq<Seq<char>>) -> SpawnStepView {
        if self.command.len() == 0 {
            Step::Done {
                result: Err(GhostErrorView::InvalidArgument { message: "No command specified"@ }),
            }
        } else {
            self.ask(RequestView::ReadShellVariable, SpawnStageView::AskingShell { env })
        }
    }
}

impl SpawnView {
    /// Whether the command is waiting for a reply of this kind.
    pub open spec fn awaits(self, reply: ReplyView) -> bool {
        match self.stage {
            SpawnStageView::Opening { .. } => reply is Finished,
            SpawnStageView::AskingShell { .. } => reply is Shell,
            SpawnStageView::AskingShellOnly { .. } => reply is Shell,
            SpawnStageView::ReadingEnv { .. } => reply is EnvVars,
            SpawnStageView::AskingDir { .. } => reply is CurrentDir,
            SpawnStageView::Launching => reply is Spawned,
            SpawnStageView::Registering { .. } => reply is Finished,
            SpawnStageView::Confirming { .. } => reply is Waited,
            SpawnStageView::Failing => reply is Finished,
            SpawnStageView::Announcing { .. } => reply is Shown,
            SpawnStageView::Detaching { .. } => reply is Shown,
        }
    }

    /// What follows from a reply. An error ends the command.
    pub open spec fn next(self, reply: ReplyView) -> SpawnStepView {
        let job = self.job;
        match self.stage {
            SpawnStageView::Opening { env } => match reply->Finished_0 {
                Err(e) => Step::Done { result: Err(e) },
                Ok(_) => job.begin(env),
            },
            SpawnStageView::AskingShell { env } => job.ask(
                RequestView::ParseEnvVars { env },
                SpawnStageView::ReadingEnv { execution: wrapped(reply->Shell_0, job.command) },
            ),
            SpawnStageView::AskingShellOnly { env_vars } => job.place(
                wrapped(reply->Shell_0, job.command),
                env_vars,
            ),
            SpawnStageView::ReadingEnv { execution } => match reply->EnvVars_0 {
                Err(e) => Step::Done { result: Err(e) },
                Ok(env_vars) => job.place(execution, env_vars),
            },
            SpawnStageView::AskingDir { execution, env_vars } => SpawnJobView {
                cwd: reply->CurrentDir_0,
                ..job
            }.launch(execution, env_vars),
            SpawnStageView::Launching => match reply->Spawned_0 {
                Err(e) => Step::Done { result: Err(e) },
                Ok(info) => job.ask(
                    insert_request(job, info),
                    SpawnStageView::Registering { info },
                ),
            },
            SpawnStageView::Registering { info } => match reply->Finished_0 {
                Err(e) => Step::Done { result: Err(e) },
                Ok(_) => job.confirm(info),
            },
            SpawnStageView::Confirming { info } => match reply->Waited_0 {
                Err(e) => Step::Done { result: Err(e) },
                Ok(true) => job.announce(info),
                Ok(false) => job.ask(
                    RequestView::UpdateStatus {
                        id: info.id,
                        status: TaskStatus::Exited,
                        exit_code: Some(1),
                    },
                    SpawnStageView::Failing,
                ),
            },
            SpawnStageView::Failing => match reply->Finished_0 {
                Err(e) => Step::Done { result: Err(e) },
                Ok(_) => Step::Done { result: Err(ended_early()) },
            },
            SpawnStageView::Announcing { info } => job.leave(info),
            SpawnStageView::Detaching { info } => Step::Done { result: Ok(info) },
        }
    }
}

/// Whether a step can be gone on from with any reply that answers its request.
pub open spec fn spawn_ready(step: SpawnStepView) -> bool {
    step matches Step::Ask { request, state } ==> forall|r: ReplyView| #[trigger]
        answers(request, r) ==> state.awaits(r)
}

/// The same of a `spawn` command.
pub open spec fn spawn_command_ready(step: SpawnCommandStepView) -> bool {
    step matches Step::Ask { request, state } ==> forall|r: ReplyView| #[trigger]
        answers(request, r) ==> state.command.awaits(r)
}

/// The job of `spawn`.
pub open spec fn spawn_job(command: Seq<Seq<char>>, cwd: Option<Seq<u8>>) -> SpawnJobView {
    SpawnJobView { command, cwd, verify_start: false, show_output: true, detach: true }
}

/// The first step of `spawn`.
pub open spec fn spawn_opening(
    command: Seq<Seq<char>>,
    cwd: Option<Seq<u8>>,
    env: Seq<Seq<char>>,
) -> SpawnCommandStepView {
    without_value(
        spawn_job(command, cwd).ask(RequestView::OpenDatabase, SpawnStageView::Opening { env }),
    )
}

/// The first step of `spawn_with_conn`.
pub open spec fn spawn_start(
    command: Seq<Seq<char>>,
    cwd: Option<Seq<u8>>,
    env: Seq<Seq<char>>,
    show_output: bool,
    verify_start: bool,
) -> SpawnStepView {
    SpawnJobView { command, cwd, verify_start, show_output, detach: true }.begin(env)
}

/// The first step of `spawn_and_register_process`.
pub open spec fn register_start(
    original_command: Seq<Seq<char>>,
    execution_command: Seq<Seq<char>>,
    cwd: Option<Seq<u8>>,
    env_vars: Seq<(Seq<char>, Seq<char>)>,
) -> SpawnStepView {
    SpawnJobView {
        command: original_command,
        cwd,
        verify_start: false,
        show_output: false,
        detach: false,
    }.place(execution_command, env_vars)
}

/// The first step of `spawn_with_shell_wrapper`.
pub open spec fn wrapper_start(
    original_command: Seq<Seq<char>>,
    cwd: Option<Seq<u8>>,
    env_vars: Seq<(Seq<char>, Seq<char>)>,
    verify_start: bool,
) -> SpawnStepView {
    SpawnJobView {
        command: original_command,
        cwd,
        verify_start,
        show_output: false,
        detach: false,
    }.ask(RequestView::ReadShellVariable, SpawnStageView::AskingShellOnly { env_vars })
}

/// Runs a command in the background, with a task store that is opened first. The user is
/// told of the process, which is not handed back.
pub fn spawn(command: Vec<String>, cwd: Option<Vec<u8>>, env: Vec<String>) -> (r: SpawnCommandStep)
    ensures
        r@ == spawn_opening(command.deep_view(), path_view(cwd), env.deep_view()),
        spawn_command_ready(r@),
{
    let job = SpawnJob { command, cwd, verify_start: false, show_output: true, detach: true };
    drop_value(ask(job, Request::OpenDatabase, SpawnStage::Opening { env }))
}

/// Runs a command in the background, with a task store that is open. The command is always
/// run by the user's shell.
pub fn spawn_with_conn(
    command: Vec<String>,
    cwd: Option<Vec<u8>>,
    env: Vec<String>,
    show_output: bool,
    verify_start: bool,
) -> (r: SpawnStep)
    ensures
        r@ == (SpawnJobView {
            command: command.deep_view(),
            cwd: path_view(cwd),
            verify_start,
            show_output,
            detach: true,
        }).begin(env.deep_view()),
        r@ == spawn_start(
            command.deep_view(),
            path_view(cwd),
            env.deep_view(),
            show_output,
            verify_start,
        ),
        spawn_ready(r@),
{
    begin(SpawnJob { command, cwd, verify_start, show_output, detach: true }, env)
}

/// Starts a process and stores it. The command that is stored need not be the one that is
/// executed.
pub fn spawn_and_register_process(
    original_command: Vec<String>,
    execution_command: Vec<String>,
    cwd: Option<Vec<u8>>,
    env_vars: Vec<(String, String)>,
) -> (r: SpawnStep)
    ensures
        r@ == (SpawnJobView {
            command: original_command.deep_view(),
            cwd: path_view(cwd),
            verify_start: false,
            show_output: false,
            detach: false,
        }).place(execution_command.deep_view(), env_vars.deep_view()),
        r@ == register_start(
            original_command.deep_view(),
            execution_command.deep_view(),
            path_view(cwd),
            env_vars.deep_view(),
        ),
        spawn_ready(r@),
{
    let job = SpawnJob {
        command: original_command,
        cwd,
        verify_start: false,
        show_output: false,
        detach: false,
    };
    place(job, execution_command, env_vars)
}

/// Starts a process by the user's login shell and stores it.
pub fn spawn_with_shell_wrapper(
    original_command: Vec<String>,
    cwd: Option<Vec<u8>>,
    env_vars: Vec<(String, String)>,
    verify_start: bool,
) -> (r: SpawnStep)
    ensures
        r@ == (SpawnJobView {
            command: original_command.deep_view(),
            cwd: path_view(cwd),
            verify_start,
            show_output: false,
            detach: false,
        }).ask(
            RequestView::ReadShellVariable,
            SpawnStageView::AskingShellOnly { env_vars: env_vars.deep_view() },
        ),
        r@ == wrapper_start(
            original_command.deep_view(),
            path_view(cwd),
            env_vars.deep_view(),
            verify_start,
        ),
        spawn_ready(r@),
{
    let job = SpawnJob {
        command: original_command,
        cwd,
        verify_start,
        show_output: false,
        detach: false,
    };
    ask(job, Request::ReadShellVariable, SpawnStage::AskingShellOnly { env_vars })
}

/// Asks for something on behalf of a job.
fn ask(job: SpawnJob, request: Request, stage: SpawnStage) -> (r: SpawnStep)
    ensures
        r@ == job@.ask(request@, stage@),
{
    Step::Ask { request, state: SpawnState { job, stage } }
}

/// See `SpawnJobView::begin`.
fn begin(job: SpawnJob, env: Vec<String>) -> (r: SpawnStep)
    ensures
        r@ == job@.begin(env.deep_view()),
        spawn_ready(r@),
{
    if job.command.len() == 0 {
        Step::Done { result: Err(invalid_argument("No command specified")) }
    } else {
        ask(job, Request::ReadShellVariable, SpawnStage::AskingShell { env })
    }
}

/// See `SpawnJobView::place`.
fn place(job: SpawnJob, execution: Vec<String>, env_vars: Vec<(String, String)>) -> (r: SpawnStep)
    ensures
        r@ == job@.place(execution.deep_view(), env_vars.deep_view()),
        spawn_ready(r@),
{
    if job.cwd.is_some() {
        launch(job, execution, env_vars)
    } else {
        ask(job, Request::ReadCurrentDir, SpawnStage::AskingDir { execution, env_vars })
    }
}

/// See `SpawnJobView::launch`.
fn launch(job: SpawnJob, execution: Vec<String>, env_vars: Vec<(String, String)>) -> (r: SpawnStep)
    ensures
        r@ == job@.launch(execution.deep_view(), env_vars.deep_view()),
        spawn_ready(r@),
{
    let cwd = copy_cwd(&job.cwd);
    let request = Request::SpawnProcess { command: execution, cwd, log_dir: None, env_vars };
    ask(job, request, SpawnStage::Launching)
}

/// A second copy of a directory that may be missing.
fn copy_cwd(cwd: &Option<Vec<u8>>) -> (r: Option<Vec<u8>>)
    ensures
        path_view(r) == path_view(*cwd),
{
    match cwd {
        Some(path) => Some(copy_path(path)),
        None => None,
    }
}

/// Stores the process that was started.
fn register(job: SpawnJob, info: ProcessInfo) -> (r: SpawnStep)
    ensures
        r@ == job@.ask(insert_request(job@, info@), SpawnStageView::Registering { info: info@ }),
        spawn_ready(r@),
{
    let env = if info.env.len() == 0 {
        None
    } else {
        Some(copy_pairs(&info.env))
    };
    let request = Request::InsertTask {
        id: info.id.clone(),
        pid: info.pid,
        pgid: Some(info.pgid),
        command: copy_texts(&job.command),
        env,
        cwd: copy_cwd(&job.cwd),
        log_path: copy_path(&info.log_path),
    };
    ask(job, request, SpawnStage::Registering { info })
}

/// See `SpawnJobView::confirm`.
fn confirm(job: SpawnJob, info: ProcessInfo) -> (r: SpawnStep)
    ensures
        r@ == job@.confirm(info@),
        spawn_ready(r@),
{
    if job.verify_start {
        let request = Request::WaitForStart { pid: info.pid, seconds: START_SECONDS };
        ask(job, request, SpawnStage::Confirming { info })
    } else {
        announce(job, info)
    }
}

/// See `SpawnJobView::announce`.
fn announce(job: SpawnJob, info: ProcessInfo) -> (r: SpawnStep)
    ensures
        r@ == job@.announce(info@),
        spawn_ready(r@),
{
    if job.show_output {
        let request = Request::ShowProcessStarted {
            id: info.id.clone(),
            pid: info.pid,
            log_path: copy_path(&info.log_path),
        };
        ask(job, request, SpawnStage::Announcing { info })
    } else {
        leave(job, info)
    }
}

/// See `SpawnJobView::leave`.
fn leave(job: SpawnJob, info: ProcessInfo) -> (r: SpawnStep)
    ensures
        r@ == job@.leave(info@),
        spawn_ready(r@),
{
    if job.detach {
        ask(job, Request::ReapChild, SpawnStage::Detaching { info })
    } else {
        Step::Done { result: Ok(info) }
    }
}

/// Judges whether a process has started, given the outcome of the wait for it.
pub fn ensure_process_started(
    job: SpawnJob,
    info: ProcessInfo,
    started: Result<bool, GhostError>,
) -> (r: SpawnStep)
    ensures
        r@ == (SpawnView { job: job@, stage: SpawnStageView::Confirming { info: info@ } }).next(
            Reply::Waited(started)@,
        ),
        spawn_ready(r@),
{
    match started {
        Err(e) => Step::Done { result: Err(e) },
        Ok(true) => announce(job, info),
        Ok(false) => {
            let request = Request::UpdateStatus {
                id: info.id.clone(),
                status: TaskStatus::Exited,
                exit_code: Some(1),
            };
            ask(job, request, SpawnStage::Failing)
        },
    }
}

impl SpawnState {
    /// Goes on with a reply.
    pub fn resume(self, reply: Reply) -> (r: SpawnStep)
        requires
            self@.awaits(reply@),
        ensures
            r@ == self@.next(reply@),
            spawn_ready(r@),
    {
        let SpawnState { job, stage } = self;
        match (stage, reply) {
            (SpawnStage::Opening { env }, Reply::Finished(Ok(_))) => begin(job, env),
            (SpawnStage::AskingShell { env }, Reply::Shell(variable)) => {
                let execution = wrap_with_user_shell(variable, &job.command);
                ask(job, Request::ParseEnvVars { env }, SpawnStage::ReadingEnv { execution })
            },
            (SpawnStage::AskingShellOnly { env_vars }, Reply::Shell(variable)) => {
                let execution = wrap_with_user_shell(variable, &job.command);
                place(job, execution, env_vars)
            },
            (SpawnStage::ReadingEnv { execution }, Reply::EnvVars(Ok(env_vars))) => place(
                job,
                execution,
                env_vars,
            ),
            (SpawnStage::ReadingEnv { .. }, Reply::EnvVars(Err(e))) => Step::Done {
                result: Err(e),
            },
            (SpawnStage::AskingDir { execution, env_vars }, Reply::CurrentDir(cwd)) => {
                let SpawnJob { command, cwd: _, verify_start, show_output, detach } = job;
                let job = SpawnJob { command, cwd, verify_start, show_output, detach };
                launch(job, execution, env_vars)
            },
            (SpawnStage::Launching, Reply::Spawned(Ok(info))) => register(job, info),
            (SpawnStage::Launching, Reply::Spawned(Err(e))) => Step::Done { result: Err(e) },
            (SpawnStage::Registering { info }, Reply::Finished(Ok(_))) => confirm(job, info),
            (SpawnStage::Confirming { info }, Reply::Waited(started)) => ensure_process_started(
                job,
                info,
                started,
            ),
            (SpawnStage::Announcing { info }, _) => leave(job, info),
            (SpawnStage::Detaching { info }, _) => Step::Done { result: Ok(info) },
            (_, Reply::Finished(Err(e))) => Step::Done { result: Err(e) },
            (SpawnStage::Failing, Reply::Finished(Ok(_))) => Step::Done {
                result: Err(
                    GhostError::ProcessSpawn {
                        message: "Process exited immediately after starting".to_owned(),
                    },
                ),
            },
            _ => unreached(),
        }
    }
}

impl Valueless<SpawnState> {
    /// Goes on with a reply.
    pub fn resume(self, reply: Reply) -> (r: SpawnCommandStep)
        requires
            self@.command.awaits(reply@),
        ensures
            r@ == without_value(self@.command.next(reply@)),
            spawn_command_ready(r@),
    {
        drop_value(self.command.resume(reply))
    }
}

/// The steps of a command that is being started, as a function.
pub open spec fn spawn_next() -> spec_fn(SpawnView, ReplyView) -> SpawnStepView {
    |s: SpawnView, r: ReplyView| s.next(r)
}

/// `spawn` opens the task store and is then `spawn_with_conn`, with output and without a
/// check that the process has started, but for the process, which is not its result.
pub proof fn law_spawn_opens(
    command: Seq<Seq<char>>,
    cwd: Option<Seq<u8>>,
    env: Seq<Seq<char>>,
    replies: Seq<ReplyView>,
)
    ensures
        ({
            let step = spawn_opening(command, cwd, env);
            let job = SpawnJobView {
                command,
                cwd,
                verify_start: false,
                show_output: true,
                detach: true,
            };
            let start = job.begin(env);
            let all = seq![done()] + replies;
            &&& after(valueless(spawn_next()), step, all) == without_value(
                after(spawn_next(), start, replies),
            )
            &&& requests(valueless(spawn_next()), step, all) == seq![RequestView::OpenDatabase]
                + requests(spawn_next(), start, replies)
        }),
{
    lemma_opened_run(
        spawn_next(),
        spawn_opening(command, cwd, env)->state.command,
        spawn_job(command, cwd).begin(env),
        replies,
    );
}

/// An empty command is refused before anything is asked for.
pub proof fn law_spawn_refuses_empty(
    job: SpawnJobView,
    env: Seq<Seq<char>>,
    replies: Seq<ReplyView>,
)
    requires
        job.command.len() == 0,
    ensures
        after(spawn_next(), job.begin(env), replies) == (SpawnStepView::Done {
            result: Err(GhostErrorView::InvalidArgument { message: "No command specified"@ }),
        }),
        requests(spawn_next(), job.begin(env), replies) == Seq::<RequestView>::empty(),
{
}

/// What every request of a command that is being started keeps to: the process is run by
/// the shell, the command that is stored is the one the user gave, and both have the same
/// directory, which is the given one if there is one.
pub open spec fn keeps_command(
    request: RequestView,
    command: Seq<Seq<char>>,
    execution: Seq<Seq<char>>,
    cwd: Option<Seq<u8>>,
) -> bool {
    &&& request is SpawnProcess ==> request->SpawnProcess_command == execution
        && request->SpawnProcess_log_dir is None && (cwd is Some ==> request->SpawnProcess_cwd
        == cwd)
    &&& request is InsertTask ==> request->InsertTask_command == command && (cwd is Some
        ==> request->InsertTask_cwd == cwd)
    &&& request is ReadCurrentDir ==> cwd is None
}

/// Whatever comes back, the process that is started is the user's shell running the given
/// command, and the command that is stored is the given one, not the wrapped one. A given
/// directory is used for both, and only where none is given the current one is asked for.
pub proof fn law_spawn_keeps_command(
    job: SpawnJobView,
    env: Seq<Seq<char>>,
    variable: Option<Seq<char>>,
    replies: Seq<ReplyView>,
)
    requires
        job.command.len() > 0,
    ensures
        ({
            let made = requests(
                spawn_next(),
                job.begin(env),
                seq![ReplyView::Shell(variable)] + replies,
            );
            &&& made[0] == RequestView::ReadShellVariable
            &&& forall|i: int|
                0 <= i < made.len() ==> keeps_command(
                    #[trigger] made[i],
                    job.command,
                    wrapped(variable, job.command),
                    job.cwd,
                )
        }),
{
    lemma_shell_keeps_command(
        job,
        SpawnStageView::AskingShell { env },
        variable,
        replies,
    );
}

/// The same of `spawn_with_shell_wrapper`.
pub proof fn law_wrapper_keeps_command(
    job: SpawnJobView,
    env_vars: Seq<(Seq<char>, Seq<char>)>,
    variable: Option<Seq<char>>,
    replies: Seq<ReplyView>,
)
    ensures
        ({
            let step = job.ask(
                RequestView::ReadShellVariable,
                SpawnStageView::AskingShellOnly { env_vars },
            );
            let made = requests(spawn_next(), step, seq![ReplyView::Shell(variable)] + replies);
            forall|i: int|
                0 <= i < made.len() ==> keeps_command(
                    #[trigger] made[i],
                    job.command,
                    wrapped(variable, job.command),
                    job.cwd,
                )
        }),
{
    lemma_shell_keeps_command(
        job,
        SpawnStageView::AskingShellOnly { env_vars },
        variable,
        replies,
    );
}

/// The same of `spawn_and_register_process`, which is given the command to execute.
pub proof fn law_register_keeps_command(
    job: SpawnJobView,
    execution: Seq<Seq<char>>,
    env_vars: Seq<(Seq<char>, Seq<char>)>,
    replies: Seq<ReplyView>,
)
    ensures
        ({
            let made = requests(spawn_next(), job.place(execution, env_vars), replies);
            forall|i: int|
                0 <= i < made.len() ==> keeps_command(
                    #[trigger] made[i],
                    job.command,
                    execution,
                    job.cwd,
                )
        }),
{
    lemma_keeps_command(job.command, execution, job.cwd, job.place(execution, env_vars), replies);
}

/// Whatever comes back, each process that is started is a login shell, the one that the
/// variable names or `/bin/bash`, that runs the words of the command, in order and with one
/// blank between each two of them.
pub proof fn law_spawn_runs_words(
    job: SpawnJobView,
    env: Seq<Seq<char>>,
    env_vars: Seq<(Seq<char>, Seq<char>)>,
    variable: Option<Seq<char>>,
    replies: Seq<ReplyView>,
)
    requires
        job.command.len() > 0,
    ensures
        ({
            let all = seq![ReplyView::Shell(variable)] + replies;
            let made = requests(spawn_next(), job.begin(env), all);
            let wrapper = job.ask(
                RequestView::ReadShellVariable,
                SpawnStageView::AskingShellOnly { env_vars },
            );
            let also = requests(spawn_next(), wrapper, all);
            &&& forall|i: int|
                0 <= i < made.len() && (#[trigger] made[i]) is SpawnProcess ==> is_login_run(
                    made[i]->SpawnProcess_command,
                    variable,
                    job.command,
                )
            &&& forall|i: int|
                0 <= i < also.len() && (#[trigger] also[i]) is SpawnProcess ==> is_login_run(
                    also[i]->SpawnProcess_command,
                    variable,
                    job.command,
                )
        }),
{
    law_wrapped(variable, job.command);
    law_spawn_keeps_command(job, env, variable, replies);
    law_wrapper_keeps_command(job, env_vars, variable, replies);
}

/// A state in which the command to execute, if it is still to be executed, is `execution`.
spec fn executes(
    s: SpawnView,
    command: Seq<Seq<char>>,
    execution: Seq<Seq<char>>,
    cwd: Option<Seq<u8>>,
) -> bool {
    &&& s.job.command == command
    &&& cwd is Some ==> s.job.cwd == cwd
    &&& match s.stage {
        SpawnStageView::Opening { .. } => false,
        SpawnStageView::AskingShell { .. } => false,
        SpawnStageView::AskingShellOnly { .. } => false,
        SpawnStageView::ReadingEnv { execution: e } => e == execution && s.job.cwd == cwd,
        SpawnStageView::AskingDir { execution: e, .. } => e == execution && cwd is None,
        _ => true,
    }
}

proof fn lemma_keeps_command(
    command: Seq<Seq<char>>,
    execution: Seq<Seq<char>>,
    cwd: Option<Seq<u8>>,
    step: SpawnStepView,
    replies: Seq<ReplyView>,
)
    requires
        step matches Step::Ask { request, state } ==> keeps_command(
            request,
            command,
            execution,
            cwd,
        ) && executes(state, command, execution, cwd),
    ensures
        forall|i: int|
            0 <= i < requests(spawn_next(), step, replies).len() ==> keeps_command(
                #[trigger] requests(spawn_next(), step, replies)[i],
                command,
                execution,
                cwd,
            ),
{
    lemma_every_request(
        spawn_next(),
        |s: SpawnView| executes(s, command, execution, cwd),
        |q: RequestView| keeps_command(q, command, execution, cwd),
        step,
        replies,
    );
}

/// A run that begins with the question for the shell keeps to the command.
proof fn lemma_shell_keeps_command(
    job: SpawnJobView,
    stage: SpawnStageView,
    variable: Option<Seq<char>>,
    replies: Seq<ReplyView>,
)
    requires
        stage is AskingShell || stage is AskingShellOnly,
    ensures
        ({
            let made = requests(
                spawn_next(),
                job.ask(RequestView::ReadShellVariable, stage),
                seq![ReplyView::Shell(variable)] + replies,
            );
            forall|i: int|
                0 <= i < made.len() ==> keeps_command(
                    #[trigger] made[i],
                    job.command,
                    wrapped(variable, job.command),
                    job.cwd,
                )
        }),
{
    let step = job.ask(RequestView::ReadShellVariable, stage);
    let execution = wrapped(variable, job.command);
    let all = seq![ReplyView::Shell(variable)] + replies;
    let second = step->state.next(ReplyView::Shell(variable));
    assert(all.drop_first() =~= replies);
    lemma_keeps_command(job.command, execution, job.cwd, second, replies);
    let made = requests(spawn_next(), step, all);
    let rest = requests(spawn_next(), second, replies);
    assert forall|i: int| 0 <= i < made.len() implies keeps_command(
        #[trigger] made[i],
        job.command,
        execution,
        job.cwd,
    ) by {
        if i > 0 {
            assert(made[i] == rest[i - 1]);
        }
    }
}

/// How neighbouring requests of a command that is being started hang together.
pub open spec fn spawn_link(
    job: SpawnJobView,
    q: RequestView,
    r: ReplyView,
    then: RequestView,
) -> bool {
    &&& then is InsertTask ==> {
        let info = r->Spawned_0->Ok_0;
        &&& q is SpawnProcess && r is Spawned && r->Spawned_0 is Ok
        &&& then->InsertTask_id == info.id
        &&& then->InsertTask_pid == info.pid
        &&& then->InsertTask_pgid == Some(info.pgid)
        &&& then->InsertTask_command == job.command
        &&& info.env.len() > 0 ==> then->InsertTask_env == Some(info.env)
        &&& info.env.len() == 0 ==> then->InsertTask_env is None
        &&& then->InsertTask_cwd == q->SpawnProcess_cwd
        &&& then->InsertTask_log_path == info.log_path
    }
    &&& then is SpawnProcess && q is ReadCurrentDir ==> then->SpawnProcess_cwd
        == r->CurrentDir_0
    &&& then is WaitForStart ==> job.verify_start && q is InsertTask && is_done(r)
        && then->WaitForStart_pid == q->InsertTask_pid && then->WaitForStart_seconds == 2
    &&& then is UpdateStatus ==> q is WaitForStart && r == ReplyView::Waited(Ok(false))
        && then->UpdateStatus_status == TaskStatus::Exited && then->UpdateStatus_exit_code
        == Some(1i32)
    &&& then is ShowProcessStarted ==> job.show_output && if job.verify_start {
        q is WaitForStart && r == ReplyView::Waited(Ok(true))
    } else {
        q is InsertTask && is_done(r)
    }
    &&& then is ReapChild ==> job.detach && if job.show_output {
        q is ShowProcessStarted
    } else if job.verify_start {
        q is WaitForStart && r == ReplyView::Waited(Ok(true))
    } else {
        q is InsertTask && is_done(r)
    }
}

/// Whether a step is the first one of `spawn_with_conn`, `spawn_with_shell_wrapper` or
/// `spawn_and_register_process` with this job, or the one that `spawn` makes of it.
pub open spec fn is_first_step(
    step: SpawnStepView,
    job: SpawnJobView,
    env: Seq<Seq<char>>,
    execution: Seq<Seq<char>>,
    env_vars: Seq<(Seq<char>, Seq<char>)>,
) -> bool {
    ||| step == job.ask(RequestView::OpenDatabase, SpawnStageView::Opening { env })
    ||| step == job.begin(env)
    ||| step == job.ask(
        RequestView::ReadShellVariable,
        SpawnStageView::AskingShellOnly { env_vars },
    )
    ||| step == job.place(execution, env_vars)
}

/// A process is stored only once it was started, with the identity that it then has and the
/// directory that it was started in. It is waited for only if that was asked for and it was
/// stored; it is marked as exited, with exit code 1, only if the wait was in vain; the user
/// is told of it, and it is left to itself, only if it counts as started.
pub proof fn law_spawn_order(
    step: SpawnStepView,
    job: SpawnJobView,
    env: Seq<Seq<char>>,
    execution: Seq<Seq<char>>,
    env_vars: Seq<(Seq<char>, Seq<char>)>,
    replies: Seq<ReplyView>,
)
    requires
        is_first_step(step, job, env, execution, env_vars),
    ensures
        ({
            let made = requests(spawn_next(), step, replies);
            &&& made.len() <= replies.len() + 1
            &&& forall|i: int|
                0 <= i < made.len() - 1 && answers(made[i], #[trigger] replies[i]) ==> spawn_link(
                    job,
                    made[i],
                    replies[i],
                    made[i + 1],
                )
        }),
{
    let paired = |q: RequestView, s: SpawnView| spawn_paired(job, q, s);
    let link = |q: RequestView, r: ReplyView, then: RequestView|
        answers(q, r) ==> spawn_link(job, q, r, then);
    lemma_every_link(spawn_next(), paired, link, step, replies);
}

/// Ties a state to the request that it waits for.
spec fn spawn_paired(job: SpawnJobView, q: RequestView, s: SpawnView) -> bool {
    &&& s.job == SpawnJobView { cwd: s.job.cwd, ..job }
    &&& match s.stage {
        SpawnStageView::Opening { .. } => q is OpenDatabase,
        SpawnStageView::AskingShell { .. } => q is ReadShellVariable,
        SpawnStageView::AskingShellOnly { .. } => q is ReadShellVariable,
        SpawnStageView::ReadingEnv { .. } => q is ParseEnvVars,
        SpawnStageView::AskingDir { .. } => q is ReadCurrentDir,
        SpawnStageView::Launching => q is SpawnProcess && q->SpawnProcess_cwd == s.job.cwd,
        SpawnStageView::Registering { info } => q is InsertTask && q->InsertTask_pid == info.pid,
        SpawnStageView::Confirming { .. } => q is WaitForStart && job.verify_start,
        SpawnStageView::Failing => q is UpdateStatus,
        SpawnStageView::Announcing { .. } => q is ShowProcessStarted && job.show_output,
        SpawnStageView::Detaching { .. } => q is ReapChild,
    }
}

/// Without output, nothing is shown.
pub proof fn law_spawn_quiet(
    step: SpawnStepView,
    job: SpawnJobView,
    env: Seq<Seq<char>>,
    execution: Seq<Seq<char>>,
    env_vars: Seq<(Seq<char>, Seq<char>)>,
    replies: Seq<ReplyView>,
)
    requires
        is_first_step(step, job, env, execution, env_vars),
        !job.show_output,
    ensures
        forall|i: int|
            0 <= i < requests(spawn_next(), step, replies).len() ==> !is_output(
                #[trigger] requests(spawn_next(), step, replies)[i],
            ),
{
    lemma_every_request(
        spawn_next(),
        |s: SpawnView| !s.job.show_output,
        |q: RequestView| !is_output(q),
        step,
        replies,
    );
}

/// Any failure ends the command, and is its result.
pub proof fn law_spawn_fails(state: SpawnView, reply: ReplyView)
    requires
        state.awaits(reply),
        failure(reply) is Some,
    ensures
        state.next(reply) == (SpawnStepView::Done { result: Err(failure(reply)->0) }),
{
}

/// A process that is not seen running in time is marked as exited with exit code 1, and the
/// command fails.
pub proof fn law_spawn_ended_early(job: SpawnJobView, info: ProcessInfoView)
    ensures
        ({
            let step = job.ask(
                RequestView::WaitForStart { pid: info.pid, seconds: 2 },
                SpawnStageView::Confirming { info },
            );
            let replies = seq![ReplyView::Waited(Ok(false)), done()];
            &&& after(spawn_next(), step, replies) == (SpawnStepView::Done {
                result: Err(
                    GhostErrorView::ProcessSpawn {
                        message: "Process exited immediately after starting"@,
                    },
                ),
            })
            &&& requests(spawn_next(), step, replies) == seq![
                RequestView::WaitForStart { pid: info.pid, seconds: 2 },
                RequestView::UpdateStatus {
                    id: info.id,
                    status: TaskStatus::Exited,
                    exit_code: Some(1),
                },
            ]
        }),
{
    reveal_with_fuel(after, 4);
    reveal_with_fuel(requests, 4);
}

/// A process that was seen running is shown if that was asked for, then left to itself if that
/// was asked for, and is the result.
pub proof fn law_spawn_confirmed(job: SpawnJobView, info: ProcessInfoView)
    ensures
        ({
            let step = job.ask(
                RequestView::WaitForStart { pid: info.pid, seconds: 2 },
                SpawnStageView::Confirming { info },
            );
            let wait = RequestView::WaitForStart { pid: info.pid, seconds: 2 };
            let show = RequestView::ShowProcessStarted {
                id: info.id,
                pid: info.pid,
                log_path: info.log_path,
            };
            let replies = seq![ReplyView::Waited(Ok(true)), ReplyView::Shown, ReplyView::Shown];
            &&& after(spawn_next(), step, replies) == (SpawnStepView::Done { result: Ok(info) })
            &&& requests(spawn_next(), step, replies) == if job.show_output && job.detach {
                seq![wait, show, RequestView::ReapChild]
            } else if job.show_output {
                seq![wait, show]
            } else if job.detach {
                seq![wait, RequestView::ReapChild]
            } else {
                seq![wait]
            }
        }),
{
    reveal_with_fuel(after, 5);
    reveal_with_fuel(requests, 5);
}

/// The replies to a process that is started without trouble: the current directory if none
/// was given, and the process; and that it was stored, seen running, shown and left to
/// itself, as far as that was asked for.
pub open spec fn placed_replies(
    job: SpawnJobView,
    current: Option<Seq<u8>>,
    info: ProcessInfoView,
) -> Seq<ReplyView> {
    (if job.cwd is Some {
        seq![]
    } else {
        seq![ReplyView::CurrentDir(current)]
    }) + seq![ReplyView::Spawned(Ok(info)), done()] + smooth_end_replies(job)
}

/// The last of the replies in `placed_replies`.
pub open spec fn smooth_end_replies(job: SpawnJobView) -> Seq<ReplyView> {
    (if job.verify_start {
        seq![ReplyView::Waited(Ok(true))]
    } else {
        seq![]
    }) + (if job.show_output {
        seq![ReplyView::Shown]
    } else {
        seq![]
    }) + (if job.detach {
        seq![ReplyView::Shown]
    } else {
        seq![]
    })
}

/// The requests of a process that is started without trouble.
pub open spec fn placed_requests(
    job: SpawnJobView,
    execution: Seq<Seq<char>>,
    env_vars: Seq<(Seq<char>, Seq<char>)>,
    current: Option<Seq<u8>>,
    info: ProcessInfoView,
) -> Seq<RequestView> {
    let cwd = if job.cwd is Some {
        job.cwd
    } else {
        current
    };
    (if job.cwd is Some {
        seq![]
    } else {
        seq![RequestView::ReadCurrentDir]
    }) + seq![
        RequestView::SpawnProcess { command: execution, cwd, log_dir: None, env_vars },
        RequestView::InsertTask {
            id: info.id,
            pid: info.pid,
            pgid: Some(info.pgid),
            command: job.command,
            env: if info.env.len() > 0 {
                Some(info.env)
            } else {
                None
            },
            cwd,
            log_path: info.log_path,
        },
    ] + smooth_end_requests(job, info)
}

/// The last of the requests in `placed_requests`.
pub open spec fn smooth_end_requests(job: SpawnJobView, info: ProcessInfoView) -> Seq<
    RequestView,
> {
    (if job.verify_start {
        seq![RequestView::WaitForStart { pid: info.pid, seconds: 2 }]
    } else {
        seq![]
    }) + (if job.show_output {
        seq![
            RequestView::ShowProcessStarted {
                id: info.id,
                pid: info.pid,
                log_path: info.log_path,
            },
        ]
    } else {
        seq![]
    }) + (if job.detach {
        seq![RequestView::ReapChild]
    } else {
        seq![]
    })
}

/// The job with the directory that it is run in: the given one, or else the current one, if
/// that is known.
pub open spec fn placed_job(job: SpawnJobView, current: Option<Seq<u8>>) -> SpawnJobView {
    SpawnJobView {
        cwd: if job.cwd is Some {
            job.cwd
        } else {
            current
        },
        ..job
    }
}

/// The replies to a command that is started without trouble: what the shell variable says,
/// the environment, and what follows.
pub open spec fn smooth_replies(
    job: SpawnJobView,
    variable: Option<Seq<char>>,
    env_vars: Seq<(Seq<char>, Seq<char>)>,
    current: Option<Seq<u8>>,
    info: ProcessInfoView,
) -> Seq<ReplyView> {
    seq![ReplyView::Shell(variable), ReplyView::EnvVars(Ok(env_vars))] + placed_replies(
        job,
        current,
        info,
    )
}

/// The requests of a command that is started without trouble.
pub open spec fn smooth_requests(
    job: SpawnJobView,
    env: Seq<Seq<char>>,
    variable: Option<Seq<char>>,
    env_vars: Seq<(Seq<char>, Seq<char>)>,
    current: Option<Seq<u8>>,
    info: ProcessInfoView,
) -> Seq<RequestView> {
    seq![RequestView::ReadShellVariable, RequestView::ParseEnvVars { env }] + placed_requests(
        job,
        wrapped(variable, job.command),
        env_vars,
        current,
        info,
    )
}

/// What `spawn_and_register_process` does when all goes well, with and without a given
/// directory.
pub proof fn law_register_succeeds(
    job: SpawnJobView,
    execution: Seq<Seq<char>>,
    env_vars: Seq<(Seq<char>, Seq<char>)>,
    current: Option<Seq<u8>>,
    info: ProcessInfoView,
)
    ensures
        ({
            let step = job.place(execution, env_vars);
            let replies = placed_replies(job, current, info);
            &&& after(spawn_next(), step, replies) == (SpawnStepView::Done { result: Ok(info) })
            &&& requests(spawn_next(), step, replies) == placed_requests(
                job,
                execution,
                env_vars,
                current,
                info,
            )
        }),
{
    let placed = placed_job(job, current);
    let step = job.place(execution, env_vars);
    let stored = placed.ask(
        insert_request(placed, info),
        SpawnStageView::Registering { info },
    );
    let launch = spawn_request(execution, placed.cwd, env_vars);
    let begin = if job.cwd is Some {
        seq![ReplyView::Spawned(Ok(info))]
    } else {
        seq![ReplyView::CurrentDir(current), ReplyView::Spawned(Ok(info))]
    };
    let asked = if job.cwd is Some {
        seq![launch, insert_request(placed, info)]
    } else {
        seq![RequestView::ReadCurrentDir, launch, insert_request(placed, info)]
    };
    assert(after(spawn_next(), step, begin) == stored && requests(spawn_next(), step, begin)
        == asked) by {
        reveal_with_fuel(after, 4);
        reveal_with_fuel(requests, 4);
        assert(job.cwd is Some ==> placed == job);
    }
    let end = seq![done()] + smooth_end_replies(job);
    lemma_smooth_end(placed, info);
    lemma_run_on(spawn_next(), step, begin, end);
    assert(placed_replies(job, current, info) =~= begin + end);
    assert(requests(spawn_next(), step, begin + end) =~= placed_requests(
        job,
        execution,
        env_vars,
        current,
        info,
    ));
}

/// The end of a start without trouble.
proof fn lemma_smooth_end(job: SpawnJobView, info: ProcessInfoView)
    ensures
        ({
            let stored = job.ask(insert_request(job, info), SpawnStageView::Registering { info });
            let end = seq![done()] + smooth_end_replies(job);
            &&& after(spawn_next(), stored, end) == (SpawnStepView::Done { result: Ok(info) })
            &&& requests(spawn_next(), stored, end) == seq![insert_request(job, info)]
                + smooth_end_requests(job, info)
        }),
{
    reveal_with_fuel(after, 6);
    reveal_with_fuel(requests, 6);
    let stored = job.ask(insert_request(job, info), SpawnStageView::Registering { info });
    let end = seq![done()] + smooth_end_replies(job);
    assert(requests(spawn_next(), stored, end) =~= seq![insert_request(job, info)]
        + smooth_end_requests(job, info));
}

/// What `spawn_with_shell_wrapper` does when all goes well, with and without a given directory
/// and a check of the start.
pub proof fn law_wrapper_succeeds(
    job: SpawnJobView,
    variable: Option<Seq<char>>,
    env_vars: Seq<(Seq<char>, Seq<char>)>,
    current: Option<Seq<u8>>,
    info: ProcessInfoView,
)
    ensures
        ({
            let step = job.ask(
                RequestView::ReadShellVariable,
                SpawnStageView::AskingShellOnly { env_vars },
            );
            let replies = seq![ReplyView::Shell(variable)] + placed_replies(job, current, info);
            &&& after(spawn_next(), step, replies) == (SpawnStepView::Done { result: Ok(info) })
            &&& requests(spawn_next(), step, replies) == seq![RequestView::ReadShellVariable]
                + placed_requests(job, wrapped(variable, job.command), env_vars, current, info)
        }),
{
    let rest = placed_replies(job, current, info);
    law_register_succeeds(job, wrapped(variable, job.command), env_vars, current, info);
    assert((seq![ReplyView::Shell(variable)] + rest).drop_first() =~= rest);
}

/// What `spawn_with_conn` does when all goes well, with and without a given directory, a
/// check of the start, and output.
pub proof fn law_spawn_with_conn_succeeds(
    job: SpawnJobView,
    env: Seq<Seq<char>>,
    variable: Option<Seq<char>>,
    env_vars: Seq<(Seq<char>, Seq<char>)>,
    current: Option<Seq<u8>>,
    info: ProcessInfoView,
)
    requires
        job.command.len() > 0,
    ensures
        ({
            let replies = smooth_replies(job, variable, env_vars, current, info);
            &&& after(spawn_next(), job.begin(env), replies) == (SpawnStepView::Done {
                result: Ok(info),
            })
            &&& requests(spawn_next(), job.begin(env), replies) == smooth_requests(
                job,
                env,
                variable,
                env_vars,
                current,
                info,
            )
        }),
{
    let execution = wrapped(variable, job.command);
    let rest = placed_replies(job, current, info);
    let replies = smooth_replies(job, variable, env_vars, current, info);
    let read = job.ask(
        RequestView::ParseEnvVars { env },
        SpawnStageView::ReadingEnv { execution },
    );
    law_register_succeeds(job, execution, env_vars, current, info);
    assert(replies.drop_first().drop_first() =~= rest);
    assert(replies.drop_first()[0] == ReplyView::EnvVars(Ok(env_vars)));
    assert(requests(spawn_next(), read, replies.drop_first()) == seq![
        RequestView::ParseEnvVars { env },
    ] + placed_requests(job, execution, env_vars, current, info));
    assert(requests(spawn_next(), job.begin(env), replies) =~= smooth_requests(
        job,
        env,
        variable,
        env_vars,
        current,
        info,
    ));
    assert(after(spawn_next(), read, replies.drop_first()) == (SpawnStepView::Done {
        result: Ok(info),
    }));
}

/// What `spawn` does when all goes well, with and without a given directory.
pub proof fn law_spawn_succeeds(
    command: Seq<Seq<char>>,
    cwd: Option<Seq<u8>>,
    env: Seq<Seq<char>>,
    variable: Option<Seq<char>>,
    env_vars: Seq<(Seq<char>, Seq<char>)>,
    current: Option<Seq<u8>>,
    info: ProcessInfoView,
)
    requires
        command.len() > 0,
    ensures
        ({
            let job = SpawnJobView {
                command,
                cwd,
                verify_start: false,
                show_output: true,
                detach: true,
            };
            let step = spawn_opening(command, cwd, env);
            let replies = seq![done()] + smooth_replies(job, variable, env_vars, current, info);
            &&& after(valueless(spawn_next()), step, replies) == (SpawnCommandStepView::Done {
                result: Ok(()),
            })
            &&& requests(valueless(spawn_next()), step, replies) == seq![
                RequestView::OpenDatabase,
            ] + smooth_requests(job, env, variable, env_vars, current, info)
        }),
{
    let job = spawn_job(command, cwd);
    let rest = smooth_replies(job, variable, env_vars, current, info);
    law_spawn_with_conn_succeeds(job, env, variable, env_vars, current, info);
    law_spawn_opens(command, cwd, env, rest);
}

/// What the ways to start a process do when all goes well, told by their arguments. The
/// command of the user is stored in any case. `spawn_with_conn` runs it by the shell, waits
/// for it and shows it as was asked, and leaves it to itself. `spawn_with_shell_wrapper` runs
/// it by the shell and waits for it as was asked. `spawn_and_register_process` runs the other
/// command, and does nothing more.
pub proof fn law_starts_by_arguments(
    command: Seq<Seq<char>>,
    execution: Seq<Seq<char>>,
    cwd: Option<Seq<u8>>,
    env: Seq<Seq<char>>,
    show: bool,
    verify: bool,
    variable: Option<Seq<char>>,
    env_vars: Seq<(Seq<char>, Seq<char>)>,
    current: Option<Seq<u8>>,
    info: ProcessInfoView,
)
    requires
        command.len() > 0,
    ensures
        ({
            let job = SpawnJobView {
                command,
                cwd,
                verify_start: verify,
                show_output: show,
                detach: true,
            };
            let kept = SpawnJobView { show_output: false, detach: false, ..job };
            let bare = SpawnJobView { verify_start: false, ..kept };
            let shell = seq![ReplyView::Shell(variable)];
            let conn = spawn_start(command, cwd, env, show, verify);
            let conn_replies = smooth_replies(job, variable, env_vars, current, info);
            let wrapper = wrapper_start(command, cwd, env_vars, verify);
            let wrapper_replies = shell + placed_replies(kept, current, info);
            let register = register_start(command, execution, cwd, env_vars);
            let register_replies = placed_replies(bare, current, info);
            let well = SpawnStepView::Done { result: Ok(info) };
            &&& after(spawn_next(), conn, conn_replies) == well
            &&& requests(spawn_next(), conn, conn_replies) == smooth_requests(
                job,
                env,
                variable,
                env_vars,
                current,
                info,
            )
            &&& after(spawn_next(), wrapper, wrapper_replies) == well
            &&& requests(spawn_next(), wrapper, wrapper_replies) == seq![
                RequestView::ReadShellVariable,
            ] + placed_requests(kept, wrapped(variable, command), env_vars, current, info)
            &&& after(spawn_next(), register, register_replies) == well
            &&& requests(spawn_next(), register, register_replies) == placed_requests(
                bare,
                execution,
                env_vars,
                current,
                info,
            )
        }),
{
    let job = SpawnJobView {
        command,
        cwd,
        verify_start: verify,
        show_output: show,
        detach: true,
    };
    let kept = SpawnJobView { show_output: false, detach: false, ..job };
    let bare = SpawnJobView { verify_start: false, ..kept };
    law_spawn_with_conn_succeeds(job, env, variable, env_vars, current, info);
    law_wrapper_succeeds(kept, variable, env_vars, current, info);
    law_register_succeeds(bare, execution, env_vars, current, info);
}

} // verus!
