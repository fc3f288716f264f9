//! Poll calls against a channel whose reports are known in advance.
//!
//! A trace is the sequence of reports that the native channel gives, one for
//! each attempt made on it, in the order of the attempts. The functions here say
//! what a driver that obeys [`step_of`] returns to its caller for a given trace,
//! and the proofs state what the caller can rely on.

use vstd::prelude::*;
use crate::attempt::{Attempt, ErrorKind};
use crate::policy::{step_of, Step};

verus! {

/// The outcome of one poll call whose attempts are answered by `reports`, in
/// order: the first report that the rule returns. `None` when the reports end
/// before any is returned, that is, when the call is still repeating its attempt.
pub open spec fn settle<T>(reports: Seq<Attempt<T>>) -> Option<Attempt<T>>
    decreases reports.len(),
{
    if reports.len() == 0 {
        None
    } else {
        match step_of(reports[0]) {
            Step::Retry => settle(reports.drop_first()),
            Step::Return(outcome) => Some(outcome),
        }
    }
}

/// The number of attempts which that poll call makes: every report up to and
/// including the one it returns, or all of them when none is returned.
pub open spec fn attempts<T>(reports: Seq<Attempt<T>>) -> nat
    decreases reports.len(),
{
    if reports.len() == 0 {
        0
    } else {
        match step_of(reports[0]) {
            Step::Retry => 1 + attempts(reports.drop_first()),
            Step::Return(_) => 1,
        }
    }
}

/// What the caller sees over successive poll calls while the channel gives
/// `trace`: the outcome of each call, in order. A report that is retried leaves
/// nothing behind; a report that is returned ends one call.
pub open spec fn observe<T>(trace: Seq<Attempt<T>>) -> Seq<Attempt<T>>
    decreases trace.len(),
{
    if trace.len() == 0 {
        Seq::empty()
    } else {
        match step_of(trace[0]) {
            Step::Retry => observe(trace.drop_first()),
            Step::Return(outcome) => seq![outcome] + observe(trace.drop_first()),
        }
    }
}

/// Retry transparency: when the channel reports an interruption `n` times and
/// then anything else, the poll call returns that report, the one its attempt
/// number `n + 1` received, after exactly `n + 1` attempts.
pub proof fn lemma_settle_skips_interruptions<T>(reports: Seq<Attempt<T>>, n: int)
    requires
        0 <= n < reports.len(),
        forall|i: int| 0 <= i < n ==> reports[i].interrupted(),
        !reports[n].interrupted(),
    ensures
        settle(reports) == Some(reports[n]),
        attempts(reports) == n + 1,
    decreases n,
{
    if n > 0 {
        let rest = reports.drop_first();
        assert forall|i: int| 0 <= i < n - 1 implies rest[i].interrupted() by {
            assert(rest[i] == reports[i + 1]);
        }
        lemma_settle_skips_interruptions(rest, n - 1);
    }
}

/// Absorption: a poll call never returns an interruption. It returns one of the
/// channel's reports, and it is still under way exactly when every report so far
/// was an interruption.
pub proof fn lemma_settle_absorbs_interruptions<T>(reports: Seq<Attempt<T>>)
    ensures
        settle(reports) matches Some(outcome) ==> {
            &&& !outcome.interrupted()
            &&& 1 <= attempts(reports) <= reports.len()
            &&& outcome == reports[attempts(reports) - 1]
        },
        settle(reports) is None <==> forall|i: int|
            0 <= i < reports.len() ==> reports[i].interrupted(),
        settle(reports) is None ==> attempts(reports) == reports.len(),
    decreases reports.len(),
{
    if reports.len() > 0 {
        let rest = reports.drop_first();
        lemma_settle_absorbs_interruptions(rest);
        if reports[0].interrupted() && settle(rest) is None {
            assert forall|i: int| 0 <= i < reports.len() implies reports[i].interrupted() by {
                if i > 0 {
                    assert(rest[i - 1] == reports[i]);
                }
            }
        }
    }
}

/// A failure of the channel that is not an interruption is what the poll call
/// returns: the stream neither repeats the attempt nor reports the operation as
/// completed. So a write that the channel refuses after a shutdown fails for the
/// caller too.
pub proof fn lemma_genuine_failure_is_returned<T>(reports: Seq<Attempt<T>>, n: int, kind: ErrorKind)
    requires
        0 <= n < reports.len(),
        forall|i: int| 0 <= i < n ==> reports[i].interrupted(),
        reports[n] == Attempt::<T>::Failed(kind),
        !kind.interrupted(),
    ensures
        settle(reports) == Some(Attempt::<T>::Failed(kind)),
        attempts(reports) == n + 1,
{
    lemma_settle_skips_interruptions(reports, n);
}

/// No busy wait: when the channel reports that the operation would block, the
/// poll call returns `Pending` after that one attempt.
pub proof fn lemma_pending_returns_at_once<T>(reports: Seq<Attempt<T>>)
    requires
        reports.len() > 0,
        reports[0] is Pending,
    ensures
        settle(reports) == Some(Attempt::<T>::Pending),
        attempts(reports) == 1,
{
}

/// What the caller sees is the trace without its interruptions, in the same
/// order.
pub proof fn lemma_observe_drops_interruptions<T>(trace: Seq<Attempt<T>>)
    ensures
        observe(trace) == trace.filter(|report: Attempt<T>| !report.interrupted()),
        forall|i: int| 0 <= i < observe(trace).len() ==> !(#[trigger] observe(trace)[i]).interrupted(),
    decreases trace.len(),
{
    let kept = |report: Attempt<T>| !report.interrupted();
    if trace.len() > 0 {
        let rest = trace.drop_first();
        lemma_observe_drops_interruptions(rest);
        rest.lemma_filter_prepend(trace[0], kept);
        assert(seq![trace[0]] + rest == trace);
        assert(Seq::<Attempt<T>>::empty() + rest.filter(kept) == rest.filter(kept));
    }
    assert forall|i: int| 0 <= i < observe(trace).len() implies !(#[trigger] observe(
        trace,
    )[i]).interrupted() by {
        trace.lemma_filter_pred(kept, i);
    }
}

/// Pass-through: while the channel never reports an interruption, the caller
/// sees exactly what it would see on the channel itself. Every poll call makes
/// one attempt and returns that attempt's report.
pub proof fn lemma_pass_through<T>(trace: Seq<Attempt<T>>)
    requires
        forall|i: int| 0 <= i < trace.len() ==> !trace[i].interrupted(),
    ensures
        observe(trace) == trace,
        forall|k: int|
            0 <= k < trace.len() ==> {
                &&& settle(#[trigger] trace.skip(k)) == Some(trace[k])
                &&& attempts(trace.skip(k)) == 1
            },
    decreases trace.len(),
{
    if trace.len() > 0 {
        let rest = trace.drop_first();
        assert forall|i: int| 0 <= i < rest.len() implies !rest[i].interrupted() by {
            assert(rest[i] == trace[i + 1]);
        }
        lemma_pass_through(rest);
        assert(seq![trace[0]] + rest == trace);
    }
    assert forall|k: int| 0 <= k < trace.len() implies {
        &&& settle(#[trigger] trace.skip(k)) == Some(trace[k])
        &&& attempts(trace.skip(k)) == 1
    } by {
        assert(trace.skip(k)[0] == trace[k]);
    }
}

/// The first outcome the caller sees is that of the first poll call, and the
/// later ones are those of the calls made on what the channel gives after it.
pub proof fn lemma_observe_poll_by_poll<T>(trace: Seq<Attempt<T>>)
    ensures
        settle(trace) is None ==> observe(trace).len() == 0,
        settle(trace) matches Some(outcome) ==> observe(trace) == seq![outcome] + observe(
            trace.skip(attempts(trace) as int),
        ),
    decreases trace.len(),
{
    if trace.len() > 0 {
        let rest = trace.drop_first();
        lemma_observe_poll_by_poll(rest);
        if trace[0].interrupted() {
            lemma_settle_absorbs_interruptions(rest);
            assert(trace.skip(attempts(trace) as int) == rest.skip(attempts(rest) as int));
        } else {
            assert(trace.skip(1) == rest);
        }
    }
}

} // verus!
