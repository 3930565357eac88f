//! What is known of tasks and of the processes behind them.

use vstd::prelude::*;

verus! {

/// The state of a task as it is stored.
#[derive(Clone, Copy, Debug, PartialEq, Eq, Structural)]
pub enum TaskStatus {
    Running,
    Exited,
    Killed,
    Unknown,
}

impl TaskStatus {
    /// The name of a status.
    pub open spec fn name(self) -> Seq<char> {
        match self {
            TaskStatus::Running => "running"@,
            TaskStatus::Exited => "exited"@,
            TaskStatus::Killed => "killed"@,
            TaskStatus::Unknown => "unknown"@,
        }
    }

    /// The name of a status, as users write and read it.
    pub fn as_str(&self) -> (r: &'static str)
        ensures
            r@ == self.name(),
    {
        match self {
            TaskStatus::Running => "running",
            TaskStatus::Exited => "exited",
            TaskStatus::Killed => "killed",
            TaskStatus::Unknown => "unknown",
        }
    }
}

impl DeepView for TaskStatus {
    type V = TaskStatus;

    open spec fn deep_view(&self) -> TaskStatus {
        *self
    }
}

/// A task as the store keeps it. `command` and `env` are JSON texts: a list of strings,
/// and an object whose values are strings.
#[derive(Clone, Debug, PartialEq, Eq)]
pub struct Task {
    pub id: String,
    pub pid: u32,
    pub pgid: Option<i32>,
    pub command: String,
    pub env: Option<String>,
    pub cwd: Option<String>,
    pub status: TaskStatus,
    pub exit_code: Option<i32>,
    pub started_at: i64,
    pub finished_at: Option<i64>,
    pub log_path: String,
}

/// The model of `Task`.
pub struct TaskView {
    pub id: Seq<char>,
    pub pid: u32,
    pub pgid: Option<i32>,
    pub command: Seq<char>,
    pub env: Option<Seq<char>>,
    pub cwd: Option<Seq<char>>,
    pub status: TaskStatus,
    pub exit_code: Option<i32>,
    pub started_at: i64,
    pub finished_at: Option<i64>,
    pub log_path: Seq<char>,
}

impl View for Task {
    type V = TaskView;

    open spec fn view(&self) -> TaskView {
        TaskView {
            id: self.id@,
            pid: self.pid,
            pgid: self.pgid,
            command: self.command@,
            env: self.env.deep_view(),
            cwd: self.cwd.deep_view(),
            status: self.status,
            exit_code: self.exit_code,
            started_at: self.started_at,
            finished_at: self.finished_at,
            log_path: self.log_path@,
        }
    }
}

impl DeepView for Task {
    type V = TaskView;

    open spec fn deep_view(&self) -> TaskView {
        self@
    }
}

/// A process that was just started. Paths are the bytes that the system has for them.
#[derive(Clone, Debug, PartialEq, Eq)]
pub struct ProcessInfo {
    pub id: String,
    pub pid: u32,
    pub pgid: i32,
    pub env: Vec<(String, String)>,
    pub log_path: Vec<u8>,
}

/// The model of `ProcessInfo`.
pub struct ProcessInfoView {
    pub id: Seq<char>,
    pub pid: u32,
    pub pgid: i32,
    pub env: Seq<(Seq<char>, Seq<char>)>,
    pub log_path: Seq<u8>,
}

impl View for ProcessInfo {
    type V = ProcessInfoView;

    open spec fn view(&self) -> ProcessInfoView {
        ProcessInfoView {
            id: self.id@,
            pid: self.pid,
            pgid: self.pgid,
            env: self.env.deep_view(),
            log_path: self.log_path@,
        }
    }
}

impl DeepView for ProcessInfo {
    type V = ProcessInfoView;

    open spec fn deep_view(&self) -> ProcessInfoView {
        self@
    }
}

/// A second copy of a text that may be missing.
pub fn copy_text(text: &Option<String>) -> (r: Option<String>)
    ensures
        r.deep_view() == text.deep_view(),
{
    match text {
        Some(s) => Some(s.clone()),
        None => None,
    }
}

/// A second copy of a list of texts.
pub fn copy_texts(texts: &Vec<String>) -> (r: Vec<String>)
    ensures
        r.deep_view() == texts.deep_view(),
{
    let mut r: Vec<String> = Vec::new();
    let mut i: usize = 0;
    while i < texts.len()
        invariant
            i <= texts@.len(),
            r.deep_view() =~= texts.deep_view().take(i as int),
        decreases texts@.len() - i,
    {
        let ghost before = r.deep_view();
        r.push(texts[i].clone());
        assert(r.deep_view() =~= before.push(texts.deep_view()[i as int]));
        i = i + 1;
    }
    assert(r.deep_view() =~= texts.deep_view());
    r
}

/// A second copy of a path.
pub fn copy_path(path: &Vec<u8>) -> (r: Vec<u8>)
    ensures
        r@ == path@,
{
    let r = path.clone();
    assert(r@ =~= path@);
    r
}

/// A second copy of a list of name and value pairs.
pub fn copy_pairs(pairs: &Vec<(String, String)>) -> (r: Vec<(String, String)>)
    ensures
        r.deep_view() == pairs.deep_view(),
{
    let mut r: Vec<(String, String)> = Vec::new();
    let mut i: usize = 0;
    while i < pairs.len()
        invariant
            i <= pairs@.len(),
            r.deep_view() =~= pairs.deep_view().take(i as int),
        decreases pairs@.len() - i,
    {
        let ghost before = r.deep_view();
        r.push((pairs[i].0.clone(), pairs[i].1.clone()));
        assert(r.deep_view() =~= before.push(pairs.deep_view()[i as int]));
        i = i + 1;
    }
    assert(r.deep_view() =~= pairs.deep_view());
    r
}

/// A second copy of a task.
pub fn copy_task(task: &Task) -> (r: Task)
    ensures
        r@ == task@,
{
    Task {
        id: task.id.clone(),
        pid: task.pid,
        pgid: task.pgid,
        command: task.command.clone(),
        env: copy_text(&task.env),
        cwd: copy_text(&task.cwd),
        status: task.status,
        exit_code: task.exit_code,
        started_at: task.started_at,
        finished_at: task.finished_at,
        log_path: task.log_path.clone(),
    }
}

/// A second copy of a list of tasks.
pub fn copy_tasks(tasks: &Vec<Task>) -> (r: Vec<Task>)
    ensures
        r.deep_view() == tasks.deep_view(),
{
    let mut r: Vec<Task> = Vec::new();
    let mut i: usize = 0;
    while i < tasks.len()
        invariant
            i <= tasks@.len(),
            r.deep_view() =~= tasks.deep_view().take(i as int),
        decreases tasks@.len() - i,
    {
        let ghost before = r.deep_view();
        r.push(copy_task(&tasks[i]));
        assert(r.deep_view() =~= before.push(tasks.deep_view()[i as int]));
        i = i + 1;
    }
    assert(r.deep_view() =~= tasks.deep_view());
    r
}

/// Every status has the name that users know it by, and is its own model.
pub proof fn law_status_names(status: TaskStatus)
    ensures
        status.deep_view() == status,
        TaskStatus::Running.name() == "running"@,
        TaskStatus::Exited.name() == "exited"@,
        TaskStatus::Killed.name() == "killed"@,
        TaskStatus::Unknown.name() == "unknown"@,
{
}

/// The model of a task holds all that the task holds.
pub proof fn law_task_model(task: Task)
    ensures
        task@.id == task.id@,
        task@.pid == task.pid,
        task@.pgid == task.pgid,
        task@.command == task.command@,
        task.env matches Some(env) ==> task@.env == Some(env@),
        task.env is None ==> task@.env is None,
        task.cwd matches Some(cwd) ==> task@.cwd == Some(cwd@),
        task.cwd is None ==> task@.cwd is None,
        task@.status == task.status,
        task@.exit_code == task.exit_code,
        task@.started_at == task.started_at,
        task@.finished_at == task.finished_at,
        task@.log_path == task.log_path@,
        task.deep_view() == task@,
{
}

/// The model of a process holds all that is known of the process.
pub proof fn law_process_model(info: ProcessInfo)
    ensures
        info@.id == info.id@,
        info@.pid == info.pid,
        info@.pgid == info.pgid,
        info@.env.len() == info.env@.len(),
        forall|i: int|
            0 <= i < info.env@.len() ==> #[trigger] info@.env[i] == (
                info.env@[i].0@,
                info.env@[i].1@,
            ),
        info@.log_path == info.log_path@,
        info.deep_view() == info@,
{
}

} // verus!
