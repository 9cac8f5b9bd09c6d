//! The decisions of one search worker.
//!
//! A worker alternates between the shared counter, the evaluator and the
//! result channel. The counter and the channel belong to the caller, which
//! performs each [`WorkerAction`] and reports what came of it as the next
//! [`WorkerEvent`].

use crate::evaluator::{calculate_hash, digest_text, ends_with_zeros, has_required_zeros};
use vstd::prelude::*;

verus! {

/// What happened to a worker since its last decision.
#[derive(Debug, Clone, Copy, PartialEq, Eq, Structural)]
pub enum WorkerEvent {
    /// The worker has just been spawned.
    Started,
    /// The shared counter handed out this candidate.
    Claimed(u64),
    /// The channel took the match that was sent.
    Delivered,
    /// The channel has no receiver any more.
    Disconnected,
}

/// What a worker does next.
#[derive(Debug, PartialEq, Eq)]
pub enum WorkerAction {
    /// Claim the next candidate from the shared counter.
    Claim,
    /// Send this candidate and its digest on the channel.
    Send(u64, String),
    /// Leave the loop.
    Exit,
}

/// What a worker does next, as plain values.
pub enum WorkerActionView {
    /// Claim the next candidate.
    Claim,
    /// Send this candidate and the text of its digest.
    Send(u64, Seq<char>),
    /// Leave the loop.
    Exit,
}

impl View for WorkerAction {
    type V = WorkerActionView;

    open spec fn view(&self) -> WorkerActionView {
        match self {
            WorkerAction::Claim => WorkerActionView::Claim,
            WorkerAction::Send(candidate, digest) => WorkerActionView::Send(*candidate, digest@),
            WorkerAction::Exit => WorkerActionView::Exit,
        }
    }
}

/// Whether a candidate is a match: its digest ends in at least `zeros` zeros.
pub open spec fn is_match(candidate: u64, zeros: nat) -> bool {
    ends_with_zeros(digest_text(candidate as nat), zeros)
}

/// The rule of the worker loop: a claimed candidate is sent with its digest
/// if it is a match and passed over if not; after a start, a pass or a
/// delivery the next candidate is claimed; a closed channel ends the loop.
pub open spec fn worker_decision(event: WorkerEvent, zeros: nat) -> WorkerActionView {
    match event {
        WorkerEvent::Started => WorkerActionView::Claim,
        WorkerEvent::Claimed(candidate) => if is_match(candidate, zeros) {
            WorkerActionView::Send(candidate, digest_text(candidate as nat))
        } else {
            WorkerActionView::Claim
        },
        WorkerEvent::Delivered => WorkerActionView::Claim,
        WorkerEvent::Disconnected => WorkerActionView::Exit,
    }
}

/// Decides what a worker does after `event`, computing the digest of a
/// candidate that was claimed.
pub fn hash_worker(event: WorkerEvent, zeros_amount: usize) -> (action: WorkerAction)
    ensures
        action@ == worker_decision(event, zeros_amount as nat),
{
    match event {
        WorkerEvent::Started => WorkerAction::Claim,
        WorkerEvent::Claimed(candidate) => {
            let hash_hex = calculate_hash(candidate);
            if has_required_zeros(hash_hex.as_str(), zeros_amount) {
                WorkerAction::Send(candidate, hash_hex)
            } else {
                WorkerAction::Claim
            }
        },
        WorkerEvent::Delivered => WorkerAction::Claim,
        WorkerEvent::Disconnected => WorkerAction::Exit,
    }
}

/// A worker sends nothing but the candidate it was handed, with that
/// candidate's digest, and only if it is a match; it leaves only when the
/// channel is closed.
pub proof fn lemma_worker_sends_matches_only(event: WorkerEvent, zeros: nat)
    ensures
        match worker_decision(event, zeros) {
            WorkerActionView::Send(candidate, digest) => event == WorkerEvent::Claimed(candidate)
                && is_match(candidate, zeros) && digest == digest_text(candidate as nat),
            WorkerActionView::Exit => event == WorkerEvent::Disconnected,
            WorkerActionView::Claim => true,
        },
{
}

} // verus!
