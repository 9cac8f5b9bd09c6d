//! The decisions of the search coordinator.
//!
//! A coordinator is made from a valid configuration and then counts the
//! matches that the channel delivers. It hands back the line to print for
//! each, and is complete once it has reported as many as were asked for, or
//! once the channel has closed.

use crate::config::{validate_args, Args, MAX_ZEROS};
use crate::encoding::{decimal_text, push_decimal};
use vstd::prelude::*;
use vstd::string::*;

verus! {

/// The candidate that the shared counter hands out first.
pub const FIRST_CANDIDATE: u64 = 1;

/// By how much a claim moves the shared counter on.
pub const CLAIM_STEP: u64 = 1;

/// The state of a coordinator as plain values.
pub struct CoordinatorView {
    /// The required count of trailing zeros.
    pub zeros_amount: nat,
    /// The count of matches to report.
    pub results_count: nat,
    /// The size of the worker pool.
    pub workers: nat,
    /// The count of matches reported so far.
    pub found: nat,
    /// Whether the search is over.
    pub completed: bool,
}

impl CoordinatorView {
    /// A coordinator that has just begun to search.
    pub open spec fn initial(args: Args, workers: nat) -> CoordinatorView {
        CoordinatorView {
            zeros_amount: args.zeros_amount as nat,
            results_count: args.results_count as nat,
            workers,
            found: 0,
            completed: false,
        }
    }

    /// What every coordinator satisfies: a valid configuration, no more
    /// matches reported than were asked for, and completion as soon as that
    /// many have been reported.
    pub open spec fn wf(self) -> bool {
        &&& self.zeros_amount <= MAX_ZEROS
        &&& self.results_count >= 1
        &&& self.found <= self.results_count
        &&& self.found == self.results_count ==> self.completed
    }

    /// The state after a match was delivered: it is counted while the search
    /// goes on, and the search is over once the count is reached; after that
    /// a match is discarded.
    pub open spec fn after_delivery(self) -> CoordinatorView {
        if self.completed {
            self
        } else {
            CoordinatorView {
                found: self.found + 1,
                completed: self.found + 1 >= self.results_count,
                ..self
            }
        }
    }

    /// The state after the channel closed.
    pub open spec fn after_close(self) -> CoordinatorView {
        CoordinatorView { completed: true, ..self }
    }
}

/// The line that announces a search.
pub open spec fn banner_text(workers: nat, results_count: nat, zeros_amount: nat) -> Seq<char> {
    "Using "@ + decimal_text(workers) + " threads to find "@ + decimal_text(results_count)
        + " hashes ending with "@ + decimal_text(zeros_amount) + " zeros..."@
}

/// The line that reports a match: the candidate in decimal, a comma and a
/// space, and the digest in double quotes.
pub open spec fn match_line(candidate: u64, digest: Seq<char>) -> Seq<char> {
    decimal_text(candidate as nat) + ", \""@ + digest + "\""@
}

/// The line that closes a search.
pub open spec fn summary_text(found: nat) -> Seq<char> {
    "Successfully found "@ + decimal_text(found) + " results."@
}

/// Calls `num_cpus::get`, the number of logical CPUs that the current
/// process may run on. Trusted: the count is at least 1, as the function's
/// documentation promises; nothing else is known of it.
#[verifier::external_body]
fn logical_cpus() -> (count: usize)
    ensures
        count >= 1,
{
    num_cpus::get()
}

/// The collector of a running search.
pub struct Coordinator {
    zeros_amount: usize,
    results_count: usize,
    workers: usize,
    found: usize,
    completed: bool,
}

impl View for Coordinator {
    type V = CoordinatorView;

    closed spec fn view(&self) -> CoordinatorView {
        CoordinatorView {
            zeros_amount: self.zeros_amount as nat,
            results_count: self.results_count as nat,
            workers: self.workers as nat,
            found: self.found as nat,
            completed: self.completed,
        }
    }
}

impl Coordinator {
    #[verifier::type_invariant]
    spec fn inv(self) -> bool {
        self@.wf()
    }

    /// Begins a search with one worker for each logical CPU.
    pub fn start(args: Args) -> (result: Result<Coordinator, String>)
        ensures
            result is Ok <==> args.valid(),
            match result {
                Ok(coordinator) => coordinator@.workers >= 1 && coordinator@
                    == CoordinatorView::initial(args, coordinator@.workers),
                Err(message) => args.refusal() == Some(message@),
            },
    {
        match validate_args(&args) {
            Err(message) => Err(message),
            Ok(_) => Ok(Coordinator::searching(args, logical_cpus())),
        }
    }

    /// Begins a search with a pool of `workers` workers, or refuses the
    /// configuration as `validate_args` does.
    pub fn with_workers(args: Args, workers: usize) -> (result: Result<Coordinator, String>)
        ensures
            result is Ok <==> args.valid(),
            match result {
                Ok(coordinator) => coordinator@ == CoordinatorView::initial(args, workers as nat),
                Err(message) => args.refusal() == Some(message@),
            },
    {
        match validate_args(&args) {
            Err(message) => Err(message),
            Ok(_) => Ok(Coordinator::searching(args, workers)),
        }
    }

    /// A coordinator that has just begun to search.
    fn searching(args: Args, workers: usize) -> (coordinator: Coordinator)
        requires
            args.valid(),
        ensures
            coordinator@ == CoordinatorView::initial(args, workers as nat),
    {
        Coordinator {
            zeros_amount: args.zeros_amount,
            results_count: args.results_count,
            workers,
            found: 0,
            completed: false,
        }
    }

    /// The required count of trailing zeros.
    pub fn zeros_amount(&self) -> (zeros: usize)
        ensures
            zeros == self@.zeros_amount,
            zeros <= 64,
    {
        proof {
            use_type_invariant(self);
        }
        self.zeros_amount
    }

    /// The count of matches to report.
    pub fn results_count(&self) -> (count: usize)
        ensures
            count == self@.results_count,
            count >= 1,
    {
        proof {
            use_type_invariant(self);
        }
        self.results_count
    }

    /// The size of the worker pool.
    pub fn workers(&self) -> (count: usize)
        ensures
            count == self@.workers,
    {
        self.workers
    }

    /// The count of matches reported so far: never more than were asked for.
    pub fn results_found(&self) -> (found: usize)
        ensures
            found == self@.found,
            found <= self@.results_count,
    {
        proof {
            use_type_invariant(self);
        }
        self.found
    }

    /// Whether the search is over.
    pub fn is_complete(&self) -> (complete: bool)
        ensures
            complete == self@.completed,
    {
        self.completed
    }

    /// The line that announces the search.
    pub fn banner(&self) -> (line: String)
        ensures
            line@ == banner_text(self@.workers, self@.results_count, self@.zeros_amount),
    {
        let mut line = String::from_str("Using ");
        push_decimal(&mut line, self.workers as u64);
        line.append(" threads to find ");
        push_decimal(&mut line, self.results_count as u64);
        line.append(" hashes ending with ");
        push_decimal(&mut line, self.zeros_amount as u64);
        line.append(" zeros...");
        line
    }

    /// Takes a match from the channel. While the search goes on the match is
    /// counted and its line is handed back; once the search is over the match
    /// is discarded.
    pub fn deliver(&mut self, candidate: u64, digest: &str) -> (line: Option<String>)
        ensures
            final(self)@ == old(self)@.after_delivery(),
            match line {
                Some(text) => !old(self)@.completed && text@ == match_line(candidate, digest@),
                None => old(self)@.completed,
            },
    {
        proof {
            use_type_invariant(&*self);
        }
        if self.completed {
            return None;
        }
        let found: usize = self.found + 1;
        self.completed = found >= self.results_count;
        self.found = found;
        let mut text = String::new();
        push_decimal(&mut text, candidate);
        text.append(", \"");
        text.append(digest);
        text.append("\"");
        assert(text@ =~= match_line(candidate, digest@));
        Some(text)
    }

    /// Notes that the channel closed: the search is over.
    pub fn close(&mut self)
        ensures
            final(self)@ == old(self)@.after_close(),
    {
        proof {
            use_type_invariant(&*self);
        }
        self.completed = true;
    }

    /// The line that closes the search.
    pub fn summary(&self) -> (line: String)
        ensures
            line@ == summary_text(self@.found),
    {
        let mut line = String::from_str("Successfully found ");
        push_decimal(&mut line, self.found as u64);
        line.append(" results.");
        line
    }
}

/// Well-formedness holds at the start and is kept by every delivery and by
/// the closing of the channel, so that no more matches are ever reported
/// than were asked for.
pub proof fn lemma_coordinator_steps_keep_wf(args: Args, workers: nat, state: CoordinatorView)
    requires
        args.valid(),
        state.wf(),
    ensures
        CoordinatorView::initial(args, workers).wf(),
        state.after_delivery().wf(),
        state.after_close().wf(),
        state.after_delivery().found <= state.results_count,
{
}

} // verus!
