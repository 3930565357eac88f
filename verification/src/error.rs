//! The errors that commands end with.

use vstd::prelude::*;

verus! {

/// Why a command failed.
#[derive(Clone, Debug, PartialEq, Eq)]
pub enum GhostError {
    /// No stored task has the given id.
    TaskNotFound { task_id: String },
    /// The command cannot be carried out as it was given.
    InvalidArgument { message: String },
    /// A process could not be brought up.
    ProcessSpawn { message: String },
    /// Input or output failed; the text is what the system said.
    Io { source: String },
    /// Any other failure that the task store or the process layer reports.
    Other { message: String },
}

/// The model of `GhostError`.
pub enum GhostErrorView {
    TaskNotFound { task_id: Seq<char> },
    InvalidArgument { message: Seq<char> },
    ProcessSpawn { message: Seq<char> },
    Io { source: Seq<char> },
    Other { message: Seq<char> },
}

impl View for GhostError {
    type V = GhostErrorView;

    open spec fn view(&self) -> GhostErrorView {
        match self {
            GhostError::TaskNotFound { task_id } => GhostErrorView::TaskNotFound {
                task_id: task_id@,
            },
            GhostError::InvalidArgument { message } => GhostErrorView::InvalidArgument {
                message: message@,
            },
            GhostError::ProcessSpawn { message } => GhostErrorView::ProcessSpawn {
                message: message@,
            },
            GhostError::Io { source } => GhostErrorView::Io { source: source@ },
            GhostError::Other { message } => GhostErrorView::Other { message: message@ },
        }
    }
}

/// The model of a result: the value and the error, each by its own model.
pub open spec fn result_view<T: DeepView>(r: Result<T, GhostError>) -> Result<
    T::V,
    GhostErrorView,
> {
    match r {
        Ok(value) => Ok(value.deep_view()),
        Err(e) => Err(e@),
    }
}

/// An error about an argument, with a fixed message.
pub fn invalid_argument(message: &str) -> (e: GhostError)
    ensures
        e@ == (GhostErrorView::InvalidArgument { message: message@ }),
{
    GhostError::InvalidArgument { message: message.to_owned() }
}

/// The model of an error has its kind and its text, and the model of a result is that of its
/// value or of its error.
pub proof fn law_error_model<T: DeepView>(text: String, value: T, error: GhostError)
    ensures
        (GhostError::TaskNotFound { task_id: text })@ == (GhostErrorView::TaskNotFound {
            task_id: text@,
        }),
        (GhostError::InvalidArgument { message: text })@ == (GhostErrorView::InvalidArgument {
            message: text@,
        }),
        (GhostError::ProcessSpawn { message: text })@ == (GhostErrorView::ProcessSpawn {
            message: text@,
        }),
        (GhostError::Io { source: text })@ == (GhostErrorView::Io { source: text@ }),
        (GhostError::Other { message: text })@ == (GhostErrorView::Other { message: text@ }),
        result_view(Ok::<T, GhostError>(value)) == Ok::<T::V, GhostErrorView>(value.deep_view()),
        result_view(Err::<T, GhostError>(error)) == Err::<T::V, GhostErrorView>(error@),
{
}

} // verus!
