//! A model of a whole search, and what holds of every run of it.
//!
//! The model puts the pieces together that a program runs in parallel: a
//! shared counter that hands out each value once, any number of workers that
//! follow [`worker_decision`], a channel that keeps the order of what was sent,
//! and a collector that follows [`CoordinatorView::after_delivery`]. A run is
//! any sequence of [`Step`]s, one piece moving at a time; a claim is a single
//! step, as a fetch-and-add on the counter is.

use crate::config::Args;
use crate::coordinator::{CoordinatorView, CLAIM_STEP, FIRST_CANDIDATE};
use crate::evaluator::digest_text;
use crate::worker::{is_match, worker_decision, WorkerEvent, WorkerActionView};
use vstd::prelude::*;

verus! {

/// The count of values a 64-bit counter takes before it starts again.
pub open spec fn counter_period() -> nat {
    0x1_0000_0000_0000_0000
}

/// The state of a search.
pub struct SearchState {
    /// The value that the shared counter hands out next.
    pub counter: u64,
    /// The values that the counter has handed out, in the order of the claims.
    pub claimed: Seq<u64>,
    /// What each worker is about to do.
    pub pending: Seq<WorkerActionView>,
    /// The candidates sent and not yet received, oldest first.
    pub channel: Seq<u64>,
    /// The candidates reported, in the order of their delivery.
    pub reported: Seq<u64>,
    /// The collector.
    pub collector: CoordinatorView,
}

/// One move of one piece of a search.
pub enum Step {
    /// A worker performs its pending action. For a send, `delivered` says
    /// whether the channel took the match.
    Work { worker: nat, delivered: bool },
    /// The collector takes the oldest match from the channel.
    Receive,
    /// The collector finds the channel closed.
    Close,
}

/// The value of the counter after one more claim: it wraps at 64 bits.
pub open spec fn counter_after(counter: u64) -> u64 {
    ((counter + CLAIM_STEP) % (counter_period() as int)) as u64
}

/// The search as it begins: the counter at its first value, every worker
/// about to make its first decision, nothing sent and nothing reported.
pub open spec fn init(args: Args, workers: nat) -> SearchState {
    SearchState {
        counter: FIRST_CANDIDATE,
        claimed: Seq::empty(),
        pending: Seq::new(
            workers,
            |w: int| worker_decision(WorkerEvent::Started, args.zeros_amount as nat),
        ),
        channel: Seq::empty(),
        reported: Seq::empty(),
        collector: CoordinatorView::initial(args, workers),
    }
}

/// A worker performs its pending action. A claim takes the counter's value
/// and moves the counter on, in one step. A send that is delivered puts the
/// candidate at the end of the channel; a send can fail only once the
/// collector is done. A worker that has left does nothing more.
pub open spec fn work(s: SearchState, worker: int, delivered: bool) -> SearchState
    recommends
        0 <= worker < s.pending.len(),
{
    let zeros: nat = s.collector.zeros_amount;
    match s.pending[worker] {
        WorkerActionView::Claim => SearchState {
            counter: counter_after(s.counter),
            claimed: s.claimed.push(s.counter),
            pending: s.pending.update(worker, worker_decision(WorkerEvent::Claimed(s.counter), zeros)),
            ..s
        },
        WorkerActionView::Send(candidate, _) => if delivered {
            SearchState {
                channel: s.channel.push(candidate),
                pending: s.pending.update(worker, worker_decision(WorkerEvent::Delivered, zeros)),
                ..s
            }
        } else if s.collector.completed {
            SearchState {
                pending: s.pending.update(worker, worker_decision(WorkerEvent::Disconnected, zeros)),
                ..s
            }
        } else {
            s
        },
        WorkerActionView::Exit => s,
    }
}

/// The collector, while it is not done, takes the oldest match from the
/// channel and reports it.
pub open spec fn receive(s: SearchState) -> SearchState {
    if !s.collector.completed && s.channel.len() > 0 {
        SearchState {
            channel: s.channel.drop_first(),
            reported: s.reported.push(s.channel[0]),
            collector: s.collector.after_delivery(),
            ..s
        }
    } else {
        s
    }
}

/// Whether every worker has left.
pub open spec fn all_left(s: SearchState) -> bool {
    forall|w: int| 0 <= w < s.pending.len() ==> #[trigger] s.pending[w] == WorkerActionView::Exit
}

/// The collector finds the channel closed, which takes every worker to have left.
pub open spec fn close(s: SearchState) -> SearchState {
    if all_left(s) {
        SearchState { collector: s.collector.after_close(), ..s }
    } else {
        s
    }
}

/// The state after `step`. A step that cannot be taken leaves the state as it is.
pub open spec fn next(s: SearchState, step: Step) -> SearchState {
    match step {
        Step::Work { worker, delivered } => if worker < s.pending.len() {
            work(s, worker as int, delivered)
        } else {
            s
        },
        Step::Receive => receive(s),
        Step::Close => close(s),
    }
}

/// The state after all of `steps`, taken in order from `s`.
pub open spec fn run(s: SearchState, steps: Seq<Step>) -> SearchState
    decreases steps.len(),
{
    if steps.len() == 0 {
        s
    } else {
        next(run(s, steps.drop_last()), steps.last())
    }
}

/// The value that claim `k` hands out, counted from zero: the counter
/// begins at its first value, moves on by one step with each claim, and wraps.
pub open spec fn claim_value(k: nat) -> u64 {
    ((FIRST_CANDIDATE + k * CLAIM_STEP) % (counter_period() as int)) as u64
}

/// The place of a candidate among the claims: which claim, counted from
/// zero, hands it out first.
pub open spec fn claim_index(candidate: u64) -> nat {
    if candidate == 0 {
        (counter_period() - 1) as nat
    } else {
        (candidate - 1) as nat
    }
}

/// The claims are made in the counter's order, without a gap.
pub open spec fn claims_in_order(s: SearchState) -> bool {
    forall|k: int| 0 <= k < s.claimed.len() ==> #[trigger] s.claimed[k] == claim_value(k as nat)
}

/// The candidate that a worker is about to send, if it is about to send one.
pub open spec fn sent(step: WorkerActionView) -> Option<u64> {
    match step {
        WorkerActionView::Send(candidate, _) => Some(candidate),
        _ => None,
    }
}

/// Every candidate that the search holds, with a worker, in the channel or
/// among the reports, is a match.
pub open spec fn holds_matches_only(s: SearchState) -> bool {
    let zeros: nat = s.collector.zeros_amount;
    &&& forall|w: int|
        0 <= w < s.pending.len() ==> (#[trigger] s.pending[w] matches WorkerActionView::Send(c, d)
            ==> is_match(c, zeros) && d == digest_text(c as nat))
    &&& forall|i: int| 0 <= i < s.channel.len() ==> is_match(#[trigger] s.channel[i], zeros)
    &&& forall|i: int| 0 <= i < s.reported.len() ==> is_match(#[trigger] s.reported[i], zeros)
}

/// Every candidate that the search holds was handed out by a claim already made.
pub open spec fn holds_claimed_only(s: SearchState) -> bool {
    &&& forall|w: int|
        0 <= w < s.pending.len() ==> (#[trigger] s.pending[w] matches WorkerActionView::Send(c, _)
            ==> claim_index(c) < s.claimed.len())
    &&& forall|i: int| 0 <= i < s.channel.len() ==> claim_index(#[trigger] s.channel[i]) < s.claimed.len()
    &&& forall|i: int|
        0 <= i < s.reported.len() ==> claim_index(#[trigger] s.reported[i]) < s.claimed.len()
}

/// No candidate is held twice: not by two workers, not twice in the channel
/// or among the reports, and not in two of these places.
pub open spec fn holds_each_once(s: SearchState) -> bool {
    &&& forall|v: int, w: int|
        0 <= v < w < s.pending.len() && sent(#[trigger] s.pending[v]) is Some ==> sent(
            s.pending[v],
        ) != sent(#[trigger] s.pending[w])
    &&& forall|w: int, i: int|
        0 <= w < s.pending.len() && 0 <= i < s.channel.len() ==> sent(#[trigger] s.pending[w])
            != Some(#[trigger] s.channel[i])
    &&& forall|w: int, i: int|
        0 <= w < s.pending.len() && 0 <= i < s.reported.len() ==> sent(#[trigger] s.pending[w])
            != Some(#[trigger] s.reported[i])
    &&& forall|i: int, j: int|
        0 <= i < j < s.channel.len() ==> #[trigger] s.channel[i] != #[trigger] s.channel[j]
    &&& forall|i: int, j: int|
        0 <= i < s.channel.len() && 0 <= j < s.reported.len() ==> #[trigger] s.channel[i]
            != #[trigger] s.reported[j]
    &&& forall|i: int, j: int|
        0 <= i < j < s.reported.len() ==> #[trigger] s.reported[i] != #[trigger] s.reported[j]
}

/// A worker has left only if the search is over.
pub open spec fn leaves_when_over(s: SearchState) -> bool {
    forall|w: int|
        0 <= w < s.pending.len() && #[trigger] s.pending[w] == WorkerActionView::Exit
            ==> s.collector.completed
}

/// What holds of every state that a search reaches.
pub open spec fn inv(s: SearchState) -> bool {
    &&& s.collector.wf()
    &&& leaves_when_over(s)
    &&& s.reported.len() == s.collector.found
    &&& s.counter == claim_value(s.claimed.len())
    &&& claims_in_order(s)
    &&& holds_matches_only(s)
    &&& s.claimed.len() <= counter_period() ==> holds_claimed_only(s) && holds_each_once(s)
}

/// A search begins in a state that satisfies the invariant.
pub proof fn lemma_init_inv(args: Args, workers: nat)
    requires
        args.valid(),
    ensures
        inv(init(args, workers)),
{
    assert(claim_value(0) == FIRST_CANDIDATE);
}

/// Every step keeps the invariant and the configuration, and takes no claim back.
pub proof fn lemma_next_inv(s: SearchState, step: Step)
    requires
        inv(s),
    ensures
        inv(next(s, step)),
        next(s, step).collector.zeros_amount == s.collector.zeros_amount,
        next(s, step).collector.results_count == s.collector.results_count,
        next(s, step).claimed.len() >= s.claimed.len(),
{
    if s.claimed.len() < counter_period() {
        assert(claim_index(s.counter) == s.claimed.len());
    }
}

/// Every run from the start of a search ends in a state that satisfies the
/// invariant, with the configuration it began with.
pub proof fn lemma_run_inv(args: Args, workers: nat, steps: Seq<Step>)
    requires
        args.valid(),
    ensures
        inv(run(init(args, workers), steps)),
        run(init(args, workers), steps).collector.zeros_amount == args.zeros_amount,
        run(init(args, workers), steps).collector.results_count == args.results_count,
    decreases steps.len(),
{
    if steps.len() == 0 {
        lemma_init_inv(args, workers);
    } else {
        lemma_run_inv(args, workers, steps.drop_last());
        lemma_next_inv(run(init(args, workers), steps.drop_last()), steps.last());
    }
}

/// Whatever the size of the worker pool and however the workers and the
/// collector take turns: no more matches are reported than were asked for,
/// every reported candidate is a match, the search is over as soon as the
/// required count is reported, and no worker leaves before that.
pub proof fn lemma_reports_are_bounded_matches(args: Args, workers: nat, steps: Seq<Step>)
    requires
        args.valid(),
    ensures
        ({
            let end = run(init(args, workers), steps);
            &&& end.reported.len() <= args.results_count
            &&& end.reported.len() == args.results_count ==> end.collector.completed
            &&& forall|i: int|
                0 <= i < end.reported.len() ==> is_match(
                    #[trigger] end.reported[i],
                    args.zeros_amount as nat,
                )
            &&& forall|w: int|
                0 <= w < end.pending.len() && #[trigger] end.pending[w] == WorkerActionView::Exit
                    ==> end.collector.completed
        }),
{
    lemma_run_inv(args, workers, steps);
}

/// Once the search is over it stays over, and nothing more is reported,
/// whatever is still sent or waits in the channel.
pub proof fn lemma_nothing_reported_when_over(s: SearchState, step: Step)
    requires
        s.collector.completed,
    ensures
        next(s, step).collector.completed,
        next(s, step).reported == s.reported,
{
}

/// Whatever the size of the worker pool and however the workers take turns:
/// the claims hand out the counter's values in order and without a gap, so
/// that two claims fewer than a counter's period apart never hand out the
/// same candidate.
pub proof fn lemma_claims_are_distinct(args: Args, workers: nat, steps: Seq<Step>)
    requires
        args.valid(),
    ensures
        ({
            let end = run(init(args, workers), steps);
            &&& forall|k: int|
                0 <= k < end.claimed.len() ==> #[trigger] end.claimed[k] == claim_value(k as nat)
            &&& forall|i: int, j: int|
                0 <= i < j < end.claimed.len() && j - i < counter_period()
                    ==> #[trigger] end.claimed[i] != #[trigger] end.claimed[j]
        }),
{
    lemma_run_inv(args, workers, steps);
}

/// Whatever the size of the worker pool and however the workers and the
/// collector take turns: as long as the counter has not handed out more
/// values than it has, no candidate is reported twice.
pub proof fn lemma_reports_are_distinct(args: Args, workers: nat, steps: Seq<Step>)
    requires
        args.valid(),
        run(init(args, workers), steps).claimed.len() <= counter_period(),
    ensures
        ({
            let end = run(init(args, workers), steps);
            forall|i: int, j: int|
                0 <= i < j < end.reported.len() ==> #[trigger] end.reported[i]
                    != #[trigger] end.reported[j]
        }),
{
    lemma_run_inv(args, workers, steps);
}

} // verus!
