//! The rule applied to every report of the native channel.
//!
//! The stream's driver makes one attempt, hands the report to [`next_step`] and
//! does what the answer says: attempt again, or return. The rule is the same for
//! all four operations, and it keeps no state between attempts. It sets no limit
//! on how often an attempt is repeated: as long as the channel keeps reporting an
//! interruption, the answer stays [`Step::Retry`].

use vstd::prelude::*;
use crate::attempt::Attempt;

verus! {

/// What the driver does after an attempt.
#[derive(Clone, Copy, Debug, PartialEq, Eq)]
pub enum Step<T> {
    /// Make the same attempt again, now, without returning to the caller and
    /// without yielding to the scheduler.
    Retry,
    /// Return this outcome to the caller.
    Return(Attempt<T>),
}

/// The step that follows a report: an interrupted attempt is repeated, and every
/// other report is returned as it is.
pub open spec fn step_of<T>(attempt: Attempt<T>) -> Step<T> {
    if attempt.interrupted() {
        Step::Retry
    } else {
        Step::Return(attempt)
    }
}

/// Decides what follows one attempt.
///
/// The answer is [`Step::Retry`] exactly when the attempt was interrupted by a
/// signal. A completed attempt, a pending one and any other failure are handed
/// back unchanged inside [`Step::Return`], so no outcome that is returned is an
/// interruption.
pub fn next_step<T>(attempt: Attempt<T>) -> (step: Step<T>)
    ensures
        step == step_of(attempt),
        step is Retry <==> attempt.interrupted(),
        step matches Step::Return(outcome) ==> outcome == attempt && !outcome.interrupted(),
{
    if attempt.is_interrupted() {
        Step::Retry
    } else {
        Step::Return(attempt)
    }
}

} // verus!
