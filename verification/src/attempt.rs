//! What one attempt on the native channel can report.

use vstd::prelude::*;

verus! {

/// The class of a failure that the native channel reported.
#[derive(Clone, Copy, Debug, PartialEq, Eq)]
pub enum ErrorKind {
    /// A signal arrived before the operation could move any data. Nothing was
    /// lost, and the operation may be repeated at once.
    Interrupted,
    /// The endpoint does not exist.
    NotFound,
    /// The caller may not use the endpoint.
    PermissionDenied,
    /// The endpoint is in use.
    ResourceBusy,
    /// The peer no longer reads what is written.
    BrokenPipe,
    /// The peer reset the connection.
    ConnectionReset,
    /// The channel refused an argument.
    InvalidInput,
    /// Any other failure.
    Other,
}

impl ErrorKind {
    /// Whether this is the one class of failure that is repeated instead of
    /// reported.
    pub open spec fn interrupted(self) -> bool {
        self is Interrupted
    }

    /// Tests for [`ErrorKind::Interrupted`].
    pub fn is_interrupted(&self) -> (b: bool)
        ensures
            b == self.interrupted(),
    {
        match self {
            ErrorKind::Interrupted => true,
            _ => false,
        }
    }
}

/// The report of one non-blocking attempt to read, write, flush or shut down.
///
/// `T` is what a completed attempt yields: the number of bytes moved, or nothing
/// where the operation moves none or the caller's buffer keeps the count.
#[derive(Clone, Copy, Debug, PartialEq, Eq)]
pub enum Attempt<T> {
    /// The operation completed.
    Ready(T),
    /// The operation failed.
    Failed(ErrorKind),
    /// The operation would block. The channel has arranged for the task to be
    /// woken when progress is possible.
    Pending,
}

impl<T> Attempt<T> {
    /// Whether the attempt failed because a signal interrupted it.
    pub open spec fn interrupted(self) -> bool {
        self matches Attempt::Failed(kind) && kind.interrupted()
    }

    /// Tests whether the attempt failed because a signal interrupted it.
    pub fn is_interrupted(&self) -> (b: bool)
        ensures
            b == self.interrupted(),
    {
        match self {
            Attempt::Failed(kind) => kind.is_interrupted(),
            _ => false,
        }
    }
}

} // verus!
