//! Showing the log of a background process.

use vstd::pervasive::unreached;
use vstd::prelude::*;

use crate::error::{GhostError, GhostErrorView};
use crate::excerpt::{excerpt, law_excerpt, render_log};
use crate::lookup::{
    Lookup, LookupView, Search, first_search, get_task_by_id_or_short_id, resume_search,
    search_for, search_reply, search_request,
};
use crate::protocol::{
    Reply, ReplyView, Request, RequestView, Step, Valueless, after, answers, done, drop_value,
    failure, is_output, lemma_every_request, lemma_opened_run, lemma_second_try, requests,
    valueless, without_value,
};
use crate::task::TaskView;
use crate::text::lines;

verus! {

/// What part of a log is shown, and how.
#[derive(Clone, Copy, Debug, PartialEq, Eq)]
pub struct LogOptions {
    /// Show what is added to the log from now on.
    pub follow: bool,
    /// Show the whole log.
    pub all: bool,
    /// How many of the first lines to show.
    pub head: usize,
    /// How many of the last lines to show.
    pub tail: usize,
    /// Show anything at all.
    pub show_output: bool,
}

/// A `log_with_conn` command under way, or the one that a `log` command consists of.
pub struct LogState {
    pub task_id: String,
    pub options: LogOptions,
    pub stage: LogStage,
}

/// What such a command is waiting for.
pub enum LogStage {
    Opening,
    Finding { search: Search },
    Reading { path: String },
    Heading { path: String, content: String },
    Following { content: String },
    Printing { content: String },
}

/// The model of `LogState`.
pub struct LogView {
    pub task_id: Seq<char>,
    pub options: LogOptions,
    pub stage: LogStageView,
}

/// The model of `LogStage`.
pub enum LogStageView {
    Opening,
    Finding { search: Search },
    Reading { path: Seq<char> },
    Heading { path: Seq<char>, content: Seq<char> },
    Following { content: Seq<char> },
    Printing { content: Seq<char> },
}

impl View for LogStage {
    type V = LogStageView;

    open spec fn view(&self) -> LogStageView {
        match self {
            LogStage::Opening => LogStageView::Opening,
            LogStage::Finding { search } => LogStageView::Finding { search: *search },
            LogStage::Reading { path } => LogStageView::Reading { path: path@ },
            LogStage::Heading { path, content } => LogStageView::Heading {
                path: path@,
                content: content@,
            },
            LogStage::Following { content } => LogStageView::Following { content: content@ },
            LogStage::Printing { content } => LogStageView::Printing { content: content@ },
        }
    }
}

impl View for LogState {
    type V = LogView;

    open spec fn view(&self) -> LogView {
        LogView { task_id: self.task_id@, options: self.options, stage: self.stage@ }
    }
}

/// A step of a `log_with_conn` command.
pub type LogStep = Step<Request, LogState, Result<String, GhostError>>;

/// The model of `LogStep`.
pub type LogStepView = Step<RequestView, LogView, Result<Seq<char>, GhostErrorView>>;

/// A `log` command under way.
pub type LogCommand = Valueless<LogState>;

/// A step of a `log` command.
pub type LogCommandStep = Step<Request, LogCommand, Result<(), GhostError>>;

/// The model of `LogCommandStep`.
pub type LogCommandStepView = Step<RequestView, Valueless<LogView>, Result<(), GhostErrorView>>;

impl LogOptions {
    /// Whether the lines to show can be counted: `head + tail` must be a number that the
    /// machine has, unless it does not come to counting.
    pub open spec fn countable(self, content: Seq<char>) -> bool {
        self.follow || self.all || content.len() == 0 || self.head + self.tail <= usize::MAX
    }
}

impl LogView {
    /// The same command, waiting for something else.
    pub open spec fn at(self, stage: LogStageView) -> LogView {
        LogView { stage, ..self }
    }

    /// Goes on to search for the task.
    pub open spec fn find(self, search: Search) -> LogStepView {
        Step::Ask {
            request: search_request(search, self.task_id),
            state: self.at(LogStageView::Finding { search }),
        }
    }

    /// Goes on once the log was read.
    pub open spec fn show(self, path: Seq<char>, content: Seq<char>) -> LogStepView {
        let o = self.options;
        if o.follow {
            if o.show_output {
                Step::Ask {
                    request: RequestView::ShowFollowHeader {
                        task_id: self.task_id,
                        log_path: path,
                    },
                    state: self.at(LogStageView::Heading { path, content }),
                }
            } else {
                Step::Done { result: Ok(content) }
            }
        } else {
            let text = excerpt(content, o.all, o.head as nat, o.tail as nat);
            if o.show_output {
                Step::Ask {
                    request: RequestView::Print { text },
                    state: self.at(LogStageView::Printing { content: text }),
                }
            } else {
                Step::Done { result: Ok(text) }
            }
        }
    }

    /// Whether the command is waiting for a reply of this kind, and can go on with it.
    pub open spec fn awaits(self, reply: ReplyView) -> bool {
        match self.stage {
            LogStageView::Opening => reply is Finished,
            LogStageView::Finding { .. } => reply is Found,
            LogStageView::Reading { .. } => reply is LogText && (reply->LogText_0 matches Ok(
                content,
            ) ==> self.options.countable(content)),
            LogStageView::Heading { .. } => reply is Shown,
            LogStageView::Following { .. } => reply is Finished,
            LogStageView::Printing { .. } => reply is Shown,
        }
    }

    /// What follows from a reply. An error ends the command.
    pub open spec fn next(self, reply: ReplyView) -> LogStepView {
        match self.stage {
            LogStageView::Opening => match reply->Finished_0 {
                Err(e) => Step::Done { result: Err(e) },
                Ok(_) => self.find(first_search(self.task_id)),
            },
            LogStageView::Finding { search } => match search_reply(search, reply->Found_0) {
                LookupView::Retry => self.find(Search::Short),
                LookupView::Resolved { result: Err(e) } => Step::Done { result: Err(e) },
                LookupView::Resolved { result: Ok(task) } => Step::Ask {
                    request: RequestView::ReadLog { path: task.log_path },
                    state: self.at(LogStageView::Reading { path: task.log_path }),
                },
            },
            LogStageView::Reading { path } => match reply->LogText_0 {
                Err(said) => Step::Done {
                    result: Err(
                        GhostErrorView::InvalidArgument {
                            message: "Failed to read log file: "@ + said,
                        },
                    ),
                },
                Ok(content) => self.show(path, content),
            },
            LogStageView::Heading { path, content } => Step::Ask {
                request: RequestView::FollowLog { path },
                state: self.at(LogStageView::Following { content }),
            },
            LogStageView::Following { content } => match reply->Finished_0 {
                Err(e) => Step::Done { result: Err(e) },
                Ok(_) => Step::Done { result: Ok(content) },
            },
            LogStageView::Printing { content } => Step::Done { result: Ok(content) },
        }
    }
}

/// Whether a step can be gone on from with any reply that answers its request, as long as
/// the lines to show can be counted.
pub open spec fn log_ready(step: LogStepView) -> bool {
    step matches Step::Ask { request, state } ==> forall|r: ReplyView|
        #[trigger] answers(request, r) && (r matches ReplyView::LogText(
            Ok(content),
        ) ==> state.options.countable(content)) ==> state.awaits(r)
}

/// The same of a `log` command.
pub open spec fn log_command_ready(step: LogCommandStepView) -> bool {
    step matches Step::Ask { request, state } ==> forall|r: ReplyView|
        #[trigger] answers(request, r) && (r matches ReplyView::LogText(
            Ok(content),
        ) ==> state.command.options.countable(content)) ==> state.command.awaits(r)
}

/// The first step of `log`.
pub open spec fn log_opening(task_id: Seq<char>, options: LogOptions) -> LogCommandStepView {
    Step::Ask {
        request: RequestView::OpenDatabase,
        state: Valueless { command: LogView { task_id, options, stage: LogStageView::Opening } },
    }
}

/// The first step of `log_with_conn`.
pub open spec fn log_start(task_id: Seq<char>, options: LogOptions) -> LogStepView {
    LogView { task_id, options, stage: LogStageView::Opening }.find(first_search(task_id))
}

/// The first step of `log_with_conn`, by its arguments.
pub open spec fn log_begin(
    task_id: Seq<char>,
    follow: bool,
    all: bool,
    head: usize,
    tail: usize,
    show_output: bool,
) -> LogStepView {
    log_start(task_id, LogOptions { follow, all, head, tail, show_output })
}

/// The first step of `log`, by its arguments.
pub open spec fn log_open(
    task_id: Seq<char>,
    follow: bool,
    all: bool,
    head: usize,
    tail: usize,
) -> LogCommandStepView {
    log_opening(task_id, LogOptions { follow, all, head, tail, show_output: true })
}

/// Shows the log of a process, with a task store that is opened first. What is shown is not
/// handed back.
pub fn log(task_id: &str, follow: bool, all: bool, head: usize, tail: usize) -> (r: LogCommandStep)
    ensures
        r@ == log_opening(
            task_id@,
            LogOptions { follow, all, head, tail, show_output: true },
        ),
        r@ == log_open(task_id@, follow, all, head, tail),
        log_command_ready(r@),
{
    let options = LogOptions { follow, all, head, tail, show_output: true };
    let stage = LogStage::Opening;
    Step::Ask {
        request: Request::OpenDatabase,
        state: Valueless { command: LogState { task_id: task_id.to_owned(), options, stage } },
    }
}

/// Shows the log of a process, with a task store that is open.
pub fn log_with_conn(
    task_id: &str,
    follow: bool,
    all: bool,
    head: usize,
    tail: usize,
    show_output: bool,
) -> (r: LogStep)
    ensures
        r@ == log_start(task_id@, LogOptions { follow, all, head, tail, show_output }),
        r@ == log_begin(task_id@, follow, all, head, tail, show_output),
        log_ready(r@),
{
    let (request, search) = get_task_by_id_or_short_id(task_id);
    Step::Ask {
        request,
        state: LogState {
            task_id: task_id.to_owned(),
            options: LogOptions { follow, all, head, tail, show_output },
            stage: LogStage::Finding { search },
        },
    }
}

impl LogState {
    /// Goes on with a reply.
    pub fn resume(self, reply: Reply) -> (r: LogStep)
        requires
            self@.awaits(reply@),
        ensures
            r@ == self@.next(reply@),
            log_ready(r@),
    {
        let LogState { task_id, options, stage } = self;
        match (stage, reply) {
            (LogStage::Opening, Reply::Finished(Ok(_))) => log_with_conn(
                task_id.as_str(),
                options.follow,
                options.all,
                options.head,
                options.tail,
                options.show_output,
            ),
            (LogStage::Finding { search }, Reply::Found(result)) => match resume_search(
                search,
                result,
            ) {
                Lookup::Retry => {
                    let request = search_for(Search::Short, task_id.as_str());
                    let stage = LogStage::Finding { search: Search::Short };
                    Step::Ask { request, state: LogState { task_id, options, stage } }
                },
                Lookup::Resolved { result: Err(e) } => Step::Done { result: Err(e) },
                Lookup::Resolved { result: Ok(task) } => {
                    let request = Request::ReadLog { path: task.log_path.clone() };
                    let stage = LogStage::Reading { path: task.log_path };
                    Step::Ask { request, state: LogState { task_id, options, stage } }
                },
            },
            (LogStage::Reading { path }, Reply::LogText(Ok(content))) => show(
                task_id,
                options,
                path,
                content,
            ),
            (LogStage::Reading { .. }, Reply::LogText(Err(said))) => {
                let mut message = "Failed to read log file: ".to_owned();
                message.append(said.as_str());
                Step::Done { result: Err(GhostError::InvalidArgument { message }) }
            },
            (LogStage::Heading { path, content }, _) => {
                let request = Request::FollowLog { path };
                let stage = LogStage::Following { content };
                Step::Ask { request, state: LogState { task_id, options, stage } }
            },
            (LogStage::Following { content }, Reply::Finished(Ok(_))) => Step::Done {
                result: Ok(content),
            },
            (LogStage::Printing { content }, _) => Step::Done { result: Ok(content) },
            (_, Reply::Finished(Err(e))) => Step::Done { result: Err(e) },
            _ => unreached(),
        }
    }
}

impl Valueless<LogState> {
    /// Goes on with a reply.
    pub fn resume(self, reply: Reply) -> (r: LogCommandStep)
        requires
            self@.command.awaits(reply@),
        ensures
            r@ == without_value(self@.command.next(reply@)),
            log_command_ready(r@),
    {
        drop_value(self.command.resume(reply))
    }
}

/// See `LogView::show`.
fn show(task_id: String, options: LogOptions, path: String, content: String) -> (r: LogStep)
    requires
        options.countable(content@),
    ensures
        r@ == (LogView { task_id: task_id@, options, stage: LogStageView::Opening }).show(
            path@,
            content@,
        ),
        log_ready(r@),
{
    if options.follow {
        if options.show_output {
            let request = Request::ShowFollowHeader {
                task_id: task_id.clone(),
                log_path: path.clone(),
            };
            let stage = LogStage::Heading { path, content };
            Step::Ask { request, state: LogState { task_id, options, stage } }
        } else {
            Step::Done { result: Ok(content) }
        }
    } else {
        let text = render_log(content.as_str(), options.all, options.head, options.tail);
        if options.show_output {
            let request = Request::Print { text: text.clone() };
            let stage = LogStage::Printing { content: text };
            Step::Ask { request, state: LogState { task_id, options, stage } }
        } else {
            Step::Done { result: Ok(text) }
        }
    }
}

/// The steps of a `log_with_conn` command as a function.
pub open spec fn log_next() -> spec_fn(LogView, ReplyView) -> LogStepView {
    |s: LogView, r: ReplyView| s.next(r)
}

/// `log` opens the task store and is then `log_with_conn`, but for the text, which is not its
/// result.
pub proof fn law_log_opens(task_id: Seq<char>, options: LogOptions, replies: Seq<ReplyView>)
    ensures
        ({
            let step = log_opening(task_id, options);
            let start = log_start(task_id, options);
            let all = seq![done()] + replies;
            &&& after(valueless(log_next()), step, all) == without_value(
                after(log_next(), start, replies),
            )
            &&& requests(valueless(log_next()), step, all) == seq![RequestView::OpenDatabase]
                + requests(log_next(), start, replies)
        }),
{
    lemma_opened_run(
        log_next(),
        log_opening(task_id, options)->state.command,
        log_start(task_id, options),
        replies,
    );
}

/// A log that is not followed: the excerpt is the result, and it is printed as it is if and
/// only if output was asked for.
pub proof fn law_log_succeeds(
    task_id: Seq<char>,
    options: LogOptions,
    task: TaskView,
    content: Seq<char>,
)
    requires
        !options.follow,
        options.countable(content),
    ensures
        ({
            let step = log_start(task_id, options);
            let text = excerpt(content, options.all, options.head as nat, options.tail as nat);
            let replies = seq![
                ReplyView::Found(Ok(task)),
                ReplyView::LogText(Ok(content)),
                ReplyView::Shown,
            ];
            let quiet = seq![
                search_request(first_search(task_id), task_id),
                RequestView::ReadLog { path: task.log_path },
            ];
            &&& after(log_next(), step, replies) == (LogStepView::Done { result: Ok(text) })
            &&& requests(log_next(), step, replies) == if options.show_output {
                quiet.push(RequestView::Print { text })
            } else {
                quiet
            }
        }),
{
    reveal_with_fuel(after, 5);
    reveal_with_fuel(requests, 5);
}

/// A log that is followed: the result is the whole log as it was when it was read, and it is
/// followed only if output was asked for, under a header.
pub proof fn law_log_follows(
    task_id: Seq<char>,
    options: LogOptions,
    task: TaskView,
    content: Seq<char>,
)
    requires
        options.follow,
    ensures
        ({
            let step = log_start(task_id, options);
            let replies = seq![
                ReplyView::Found(Ok(task)),
                ReplyView::LogText(Ok(content)),
                ReplyView::Shown,
                done(),
            ];
            let quiet = seq![
                search_request(first_search(task_id), task_id),
                RequestView::ReadLog { path: task.log_path },
            ];
            &&& after(log_next(), step, replies) == (LogStepView::Done { result: Ok(content) })
            &&& requests(log_next(), step, replies) == if options.show_output {
                quiet + seq![
                    RequestView::ShowFollowHeader { task_id, log_path: task.log_path },
                    RequestView::FollowLog { path: task.log_path },
                ]
            } else {
                quiet
            }
        }),
{
    reveal_with_fuel(after, 6);
    reveal_with_fuel(requests, 6);
}

/// A full id that was not found is searched for again, as the beginning of one. If that finds
/// the task, all goes on as if it had been found at first; only one request more is made.
pub proof fn law_log_retries(
    state: LogView,
    missed: GhostErrorView,
    task: TaskView,
    replies: Seq<ReplyView>,
)
    requires
        missed is TaskNotFound,
    ensures
        ({
            let step = state.find(Search::Full);
            let again = step->state.next(ReplyView::Found(Err(missed)));
            let found = ReplyView::Found(Ok(task));
            let once = seq![found] + replies;
            let twice = seq![ReplyView::Found(Err(missed)), found] + replies;
            &&& again == state.find(Search::Short)
            &&& again->state.next(found) == step->state.next(found)
            &&& after(log_next(), step, twice) == after(log_next(), step, once)
            &&& requests(log_next(), step, twice) == seq![
                RequestView::GetTask { id: state.task_id },
                RequestView::GetTaskByShortId { id: state.task_id },
            ] + requests(log_next(), step, once).drop_first()
        }),
{
    let step = state.find(Search::Full);
    let missing = ReplyView::Found(Err(missed));
    let found = ReplyView::Found(Ok(task));
    lemma_second_try(log_next(), step, missing, found, replies);
    let once = requests(log_next(), step, seq![found] + replies);
    let rest = requests(log_next(), step->state.next(found), replies);
    assert(once.drop_first() =~= rest);
}

/// Whether output is asked for changes neither the result of a log that could be read nor, if
/// it is not followed, the text: what is printed is what is returned. Where a log is followed
/// the result is the same if the following ends well.
pub proof fn law_log_output_changes_nothing(
    task_id: Seq<char>,
    options: LogOptions,
    task: TaskView,
    content: Seq<char>,
)
    requires
        options.countable(content),
    ensures
        ({
            let found = seq![ReplyView::Found(Ok(task)), ReplyView::LogText(Ok(content))];
            let shown = found + if options.follow {
                seq![ReplyView::Shown, done()]
            } else {
                seq![ReplyView::Shown]
            };
            let loud = log_start(task_id, LogOptions { show_output: true, ..options });
            let quiet = log_start(task_id, LogOptions { show_output: false, ..options });
            let made = requests(log_next(), loud, shown);
            &&& after(log_next(), loud, shown) is Done
            &&& after(log_next(), loud, shown)->result is Ok
            &&& after(log_next(), loud, shown)->result == after(log_next(), quiet, found)->result
            &&& after(log_next(), quiet, found) is Done
            &&& !options.follow ==> made.last() == RequestView::Print {
                text: after(log_next(), quiet, found)->result->Ok_0,
            }
        }),
{
    let found = seq![ReplyView::Found(Ok(task)), ReplyView::LogText(Ok(content))];
    if options.follow {
        assert(found + seq![ReplyView::Shown, done()] =~= seq![
            ReplyView::Found(Ok(task)),
            ReplyView::LogText(Ok(content)),
            ReplyView::Shown,
            done(),
        ]);
    } else {
        assert(found + seq![ReplyView::Shown] =~= seq![
            ReplyView::Found(Ok(task)),
            ReplyView::LogText(Ok(content)),
            ReplyView::Shown,
        ]);
    }
    reveal_with_fuel(after, 6);
    reveal_with_fuel(requests, 6);
}

/// Without output, nothing is shown, and nothing is followed.
pub proof fn law_log_quiet(task_id: Seq<char>, options: LogOptions, replies: Seq<ReplyView>)
    requires
        !options.show_output,
    ensures
        ({
            let made = requests(log_next(), log_start(task_id, options), replies);
            forall|i: int| 0 <= i < made.len() ==> !is_output(#[trigger] made[i])
        }),
{
    lemma_every_request(
        log_next(),
        |s: LogView| !s.options.show_output && !(s.stage is Heading),
        |q: RequestView| !is_output(q),
        log_start(task_id, options),
        replies,
    );
}

/// Any failure ends the command, and is its result, except that a full id that was not
/// found is searched for again.
pub proof fn law_log_fails(state: LogView, reply: ReplyView)
    requires
        state.awaits(reply),
        failure(reply) is Some,
        !(state.stage == (LogStageView::Finding { search: Search::Full })
            && failure(reply)->0 is TaskNotFound),
    ensures
        state.next(reply) == (LogStepView::Done { result: Err(failure(reply)->0) }),
{
}

/// A log that has no more than `head + tail` lines, and any log if all of it was asked for, is
/// shown and handed back as it is, character by character.
pub proof fn law_log_whole(
    task_id: Seq<char>,
    options: LogOptions,
    task: TaskView,
    content: Seq<char>,
)
    requires
        !options.follow,
        options.all || lines(content).len() <= options.head + options.tail,
        options.countable(content),
    ensures
        ({
            let step = log_start(task_id, options);
            let replies = seq![
                ReplyView::Found(Ok(task)),
                ReplyView::LogText(Ok(content)),
                ReplyView::Shown,
            ];
            let made = requests(log_next(), step, replies);
            &&& after(log_next(), step, replies) == (LogStepView::Done { result: Ok(content) })
            &&& options.show_output ==> made.last() == RequestView::Print { text: content }
        }),
{
    law_excerpt(content, options.all, options.head as nat, options.tail as nat);
    law_log_succeeds(task_id, options, task, content);
}

/// A log that cannot be read is an error that says why.
pub proof fn law_log_unreadable(
    task_id: Seq<char>,
    options: LogOptions,
    task: TaskView,
    said: Seq<char>,
)
    ensures
        ({
            let replies = seq![ReplyView::Found(Ok(task)), ReplyView::LogText(Err(said))];
            after(log_next(), log_start(task_id, options), replies) == (LogStepView::Done {
                result: Err(
                    GhostErrorView::InvalidArgument {
                        message: "Failed to read log file: "@ + said,
                    },
                ),
            })
        }),
{
    reveal_with_fuel(after, 4);
}

/// A log that was read can always be gone on with, unless its lines are to be counted and
/// `head + tail` is no number that the machine has.
pub proof fn law_log_goes_on(state: LogView, content: Seq<char>)
    requires
        state.stage is Reading,
        state.options.follow || state.options.all || content.len() == 0 || state.options.head
            + state.options.tail <= usize::MAX,
    ensures
        state.options.countable(content),
        state.awaits(ReplyView::LogText(Ok(content))),
{
}

/// What comes of a log that could be read, told by the arguments: what is handed back is all of
/// it if it is followed, and else the excerpt by the very numbers that were given; and that is
/// what is printed, if anything. `log` is the same with output, but hands nothing back.
pub proof fn law_log_by_arguments(
    task_id: Seq<char>,
    follow: bool,
    all: bool,
    head: usize,
    tail: usize,
    show_output: bool,
    task: TaskView,
    content: Seq<char>,
    replies: Seq<ReplyView>,
)
    requires
        follow || all || content.len() == 0 || head + tail <= usize::MAX,
    ensures
        ({
            let step = log_begin(task_id, follow, all, head, tail, show_output);
            let well = seq![
                ReplyView::Found(Ok(task)),
                ReplyView::LogText(Ok(content)),
                ReplyView::Shown,
                done(),
            ];
            let text = excerpt(content, all, head as nat, tail as nat);
            let made = requests(log_next(), step, well);
            &&& follow ==> after(log_next(), step, well) == (LogStepView::Done {
                result: Ok(content),
            })
            &&& !follow ==> after(log_next(), step, well) == (LogStepView::Done {
                result: Ok(text),
            })
            &&& made.contains(RequestView::FollowLog { path: task.log_path }) <==> follow
                && show_output
            &&& made.contains(RequestView::Print { text }) <==> !follow && show_output
        }),
        ({
            let step = log_open(task_id, follow, all, head, tail);
            let start = log_begin(task_id, follow, all, head, tail, true);
            let opened = seq![done()] + replies;
            &&& after(valueless(log_next()), step, opened) == without_value(
                after(log_next(), start, replies),
            )
            &&& requests(valueless(log_next()), step, opened) == seq![RequestView::OpenDatabase]
                + requests(log_next(), start, replies)
        }),
{
    let options = LogOptions { follow, all, head, tail, show_output };
    let step = log_begin(task_id, follow, all, head, tail, show_output);
    let well = seq![
        ReplyView::Found(Ok(task)),
        ReplyView::LogText(Ok(content)),
        ReplyView::Shown,
        done(),
    ];
    let text = excerpt(content, all, head as nat, tail as nat);
    reveal_with_fuel(after, 6);
    reveal_with_fuel(requests, 6);
    let made = requests(log_next(), step, well);
    if show_output {
        if follow {
            assert(made[3] == RequestView::FollowLog { path: task.log_path });
        } else {
            assert(made[2] == RequestView::Print { text });
        }
    }
    law_log_opens(task_id, LogOptions { show_output: true, ..options }, replies);
}

} // verus!
