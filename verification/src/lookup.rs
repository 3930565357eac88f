//! Finding the task that the user named, by its full id or by the beginning of it.

use vstd::prelude::*;

use vstd::utf8::encode_utf8;

use crate::error::{GhostError, GhostErrorView, result_view};
use crate::protocol::{Request, RequestView};
use crate::task::{Task, TaskView};

verus! {

/// Which search is under way.
#[derive(Clone, Copy, Debug, PartialEq, Eq, Structural)]
pub enum Search {
    Full,
    Short,
}

/// Where a search has come to.
pub enum Lookup {
    /// Search again, by the beginning of the id.
    Retry,
    /// The search is over.
    Resolved { result: Result<Task, GhostError> },
}

/// The model of `Lookup`.
pub enum LookupView {
    Retry,
    Resolved { result: Result<TaskView, GhostErrorView> },
}

impl View for Lookup {
    type V = LookupView;

    open spec fn view(&self) -> LookupView {
        match self {
            Lookup::Retry => LookupView::Retry,
            Lookup::Resolved { result } => LookupView::Resolved { result: result_view(*result) },
        }
    }
}

/// Whether an id has the looks of a full one: 36 bytes, a hyphen among them.
pub open spec fn looks_full(task_id: Seq<char>) -> bool {
    encode_utf8(task_id).len() == 36 && task_id.contains('-')
}

/// The search that an id begins with.
pub open spec fn first_search(task_id: Seq<char>) -> Search {
    if looks_full(task_id) {
        Search::Full
    } else {
        Search::Short
    }
}

/// The request that a search makes.
pub open spec fn search_request(search: Search, task_id: Seq<char>) -> RequestView {
    match search {
        Search::Full => RequestView::GetTask { id: task_id },
        Search::Short => RequestView::GetTaskByShortId { id: task_id },
    }
}

/// What follows from the reply to a search: only a full search that found nothing is
/// repeated.
pub open spec fn search_reply(
    search: Search,
    result: Result<TaskView, GhostErrorView>,
) -> LookupView {
    if search == Search::Full && result is Err && result->Err_0 is TaskNotFound {
        LookupView::Retry
    } else {
        LookupView::Resolved { result }
    }
}

/// Whether an id has the looks of a full one.
pub fn is_full_id(task_id: &str) -> (r: bool)
    ensures
        r == looks_full(task_id@),
{
    if task_id.as_bytes().len() != 36 {
        return false;
    }
    for c in it: task_id.chars()
        invariant
            it.seq() == task_id@,
            encode_utf8(task_id@).len() == 36,
            forall|j: int| 0 <= j < it.index() ==> task_id@[j] != '-',
    {
        if c == '-' {
            assert(task_id@[it.index()] == '-');
            return true;
        }
    }
    false
}

/// Starts the search for a task by its id, which may be a full one or the beginning of one.
pub fn get_task_by_id_or_short_id(task_id: &str) -> (r: (Request, Search))
    ensures
        r.1 == first_search(task_id@),
        r.0@ == search_request(r.1, task_id@),
{
    let search = if is_full_id(task_id) {
        Search::Full
    } else {
        Search::Short
    };
    (search_for(search, task_id), search)
}

/// The request of a search.
pub fn search_for(search: Search, task_id: &str) -> (r: Request)
    ensures
        r@ == search_request(search, task_id@),
{
    match search {
        Search::Full => Request::GetTask { id: task_id.to_owned() },
        Search::Short => Request::GetTaskByShortId { id: task_id.to_owned() },
    }
}

/// Goes on with a search once its reply is there.
pub fn resume_search(search: Search, result: Result<Task, GhostError>) -> (r: Lookup)
    ensures
        r@ == search_reply(search, result_view(result)),
{
    match (search, result) {
        (Search::Full, Err(GhostError::TaskNotFound { task_id: _ })) => Lookup::Retry,
        (_, result) => Lookup::Resolved { result },
    }
}

/// What the search for a task comes to, given what a search by the full id and one by the
/// beginning of it would find.
pub open spec fn lookup_result(
    task_id: Seq<char>,
    by_full_id: Result<TaskView, GhostErrorView>,
    by_short_id: Result<TaskView, GhostErrorView>,
) -> Result<TaskView, GhostErrorView> {
    let not_found = by_full_id is Err && by_full_id->Err_0 is TaskNotFound;
    if looks_full(task_id) && !not_found {
        by_full_id
    } else {
        by_short_id
    }
}

/// Both full ids and the beginnings of ids are supported: an id that looks full is searched
/// for as one, and as the beginning of one only if there is no such task; any other id is
/// searched for as the beginning of one only.
pub proof fn law_lookup(
    task_id: Seq<char>,
    by_full_id: Result<TaskView, GhostErrorView>,
    by_short_id: Result<TaskView, GhostErrorView>,
)
    ensures
        ({
            let found = |search: Search|
                match search {
                    Search::Full => by_full_id,
                    Search::Short => by_short_id,
                };
            let first = search_reply(first_search(task_id), found(first_search(task_id)));
            let last = match first {
                LookupView::Retry => search_reply(Search::Short, found(Search::Short)),
                LookupView::Resolved { .. } => first,
            };
            last == LookupView::Resolved {
                result: lookup_result(task_id, by_full_id, by_short_id),
            }
        }),
{
}

/// How a search begins, told by the id alone: by the full id if it is 36 bytes long and there
/// is a hyphen in it, else by the beginning of an id; and by the id as it was given.
pub proof fn law_search_begins(task_id: Seq<char>)
    ensures
        looks_full(task_id) <==> encode_utf8(task_id).len() == 36 && exists|i: int|
            0 <= i < task_id.len() && task_id[i] == '-',
        looks_full(task_id) ==> first_search(task_id) == Search::Full && search_request(
            first_search(task_id),
            task_id,
        ) == (RequestView::GetTask { id: task_id }),
        !looks_full(task_id) ==> first_search(task_id) == Search::Short && search_request(
            first_search(task_id),
            task_id,
        ) == (RequestView::GetTaskByShortId { id: task_id }),
        search_request(Search::Short, task_id) == (RequestView::GetTaskByShortId { id: task_id }),
        search_request(Search::Full, task_id) == (RequestView::GetTask { id: task_id }),
{
}

/// How a search ends: a task that was found is the result as it is, and so is any error, but
/// that a full id of which there is no task is searched for once more. The second search is
/// the last one.
pub proof fn law_search_ends(task: TaskView, error: GhostErrorView)
    ensures
        forall|search: Search| #[trigger]
            search_reply(search, Ok(task)) == (LookupView::Resolved { result: Ok(task) }),
        search_reply(Search::Short, Err(error)) == (LookupView::Resolved { result: Err(error) }),
        error is TaskNotFound ==> search_reply(Search::Full, Err(error)) == LookupView::Retry,
        !(error is TaskNotFound) ==> search_reply(Search::Full, Err(error))
            == (LookupView::Resolved { result: Err(error) }),
{
}

} // verus!
