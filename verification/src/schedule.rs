//! When an object is looked at again.
use crate::errors;
use crate::errors::ControllerError;
use vstd::prelude::*;

verus! {

/// When an object is looked at again.
#[derive(Clone, Copy, Debug, PartialEq, Eq, Structural)]
pub enum Schedule {
    /// After so many seconds.
    Requeue(u64),
    /// When it changes.
    AwaitChange,
}

/// The seconds after which a passing error is tried again.
pub const TEMPORARY_ERROR_SECONDS: u64 = 30;

/// The seconds after which any other error is tried again.
pub const LASTING_ERROR_SECONDS: u64 = 300;

/// When an object is looked at again after an error.
pub open spec fn after_error(e: errors::ControllerErrorView) -> Schedule {
    if e is ClusterScopedResource {
        Schedule::Requeue(LASTING_ERROR_SECONDS)
    } else {
        Schedule::Requeue(TEMPORARY_ERROR_SECONDS)
    }
}

/// When an object is looked at again after an error.
pub fn schedule_after_error(error: &ControllerError) -> (res: Schedule)
    ensures
        res == after_error(error@),
{
    if error.is_temporary() {
        Schedule::Requeue(TEMPORARY_ERROR_SECONDS)
    } else {
        Schedule::Requeue(LASTING_ERROR_SECONDS)
    }
}

/// What a controller reports of a reconciliation that it could not finish.
#[derive(Clone, Copy, Debug, PartialEq, Eq, Structural)]
pub enum RunError {
    /// Its queue of objects failed, as it does without the resource or without
    /// the permission to watch it.
    Queue,
    /// The object is gone.
    ObjectNotFound,
    /// Anything else.
    Other,
}

/// What follows on a [`RunError`].
#[derive(Clone, Copy, Debug, PartialEq, Eq)]
pub struct RunReaction {
    /// Whether the error is counted.
    pub counted: bool,
    /// For how many seconds the controller pauses.
    pub pause_seconds: u64,
}

/// What follows on an error: those of the queue slow the controller down, and an
/// object that is gone is no error at all.
pub fn run_reaction(error: RunError) -> (res: RunReaction)
    ensures
        res.counted == !(error is ObjectNotFound),
        res.pause_seconds == (if error is Queue {
            TEMPORARY_ERROR_SECONDS
        } else {
            0
        }),
{
    match error {
        RunError::Queue => RunReaction { counted: true, pause_seconds: TEMPORARY_ERROR_SECONDS },
        RunError::ObjectNotFound => RunReaction { counted: false, pause_seconds: 0 },
        RunError::Other => RunReaction { counted: true, pause_seconds: 0 },
    }
}

/// A passing error is tried again after half a minute, and a resource that cannot
/// be synchronized at all after five minutes.
pub proof fn law_errors_are_tried_again(e: errors::ControllerErrorView)
    ensures
        after_error(e) == match e {
            errors::ControllerErrorView::ClusterScopedResource(_) => Schedule::Requeue(300),
            _ => Schedule::Requeue(30),
        },
        TEMPORARY_ERROR_SECONDS == 30,
{
}

/// After a passing error an object is looked at again in half a minute, after another
/// one in five minutes. An error of the controller itself is counted unless the
/// object is gone, and only an error of the queue makes it pause.
pub proof fn law_pauses_after_errors(
    error: &ControllerError,
    after: Schedule,
    run: RunError,
    reaction: RunReaction,
)
    requires
        call_ensures(schedule_after_error, (error,), after),
        call_ensures(run_reaction, (run,), reaction),
    ensures
        after == if error is ClusterScopedResource {
            Schedule::Requeue(300)
        } else {
            Schedule::Requeue(30)
        },
        reaction.counted <==> !(run is ObjectNotFound),
        reaction.pause_seconds == if run is Queue {
            30
        } else {
            0int
        },
{
}

} // verus!
