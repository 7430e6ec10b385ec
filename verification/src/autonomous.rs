//! The decisions of the autonomous paper-trading loop: when to stop before
//! a cycle (a stop file, an iteration limit), and what a cycle's outcome
//! does to the consecutive-error circuit breaker. The caller runs the
//! cycles, checks the stop file and sleeps between iterations.

use vstd::prelude::*;
use crate::text::{concat, int_to_text, nat_text};

verus! {

/// The loop's counters and limits.
pub struct AutonomousLoop {
    iteration: u32,
    consecutive_errors: u32,
    max_iterations: Option<u32>,
    max_consecutive_errors: u32,
}

/// The loop as mathematical values.
pub struct LoopView {
    /// Cycles completed so far.
    pub iteration: nat,
    /// Hard errors since the last cycle that completed.
    pub consecutive_errors: nat,
    pub max_iterations: Option<nat>,
    /// Hard errors in a row that halt the loop (at least one).
    pub max_consecutive_errors: nat,
}

impl View for AutonomousLoop {
    type V = LoopView;

    closed spec fn view(&self) -> LoopView {
        LoopView {
            iteration: self.iteration as nat,
            consecutive_errors: self.consecutive_errors as nat,
            max_iterations: match self.max_iterations {
                Some(m) => Some(m as nat),
                None => None,
            },
            max_consecutive_errors: self.max_consecutive_errors as nat,
        }
    }
}

/// What happens before a cycle.
#[derive(Debug, PartialEq, Eq, Structural)]
pub enum LoopStart {
    /// The stop file is present: halt.
    StopFile,
    /// `--max-iterations` cycles have run: halt.
    IterationLimit,
    RunCycle,
}

/// What a cycle's outcome leads to.
#[derive(Debug, PartialEq, Eq, Structural)]
pub enum CycleVerdict {
    /// The cycle completed (a fill, a rejection by the guard, or no trade
    /// proposed): go on.
    Next,
    /// A hard error, below the limit: go on.
    Retry { consecutive_errors: u32 },
    /// A hard error that reaches the limit: halt with an error.
    Halt { consecutive_errors: u32 },
}

/// The decision before a cycle: the stop file first, then the iteration
/// limit.
pub open spec fn start_of(v: LoopView, stop_file_present: bool) -> LoopStart {
    if stop_file_present {
        LoopStart::StopFile
    } else if v.max_iterations matches Some(m) && v.iteration >= m {
        LoopStart::IterationLimit
    } else {
        LoopStart::RunCycle
    }
}

/// Whether a cycle with this outcome trips the circuit breaker.
pub open spec fn trips(v: LoopView, cycle_ok: bool) -> bool {
    !cycle_ok && v.consecutive_errors + 1 >= v.max_consecutive_errors
}

/// The loop after a cycle that did not trip the breaker.
pub open spec fn step(v: LoopView, cycle_ok: bool) -> LoopView {
    LoopView {
        iteration: v.iteration + 1,
        consecutive_errors: if cycle_ok { 0 } else { v.consecutive_errors + 1 },
        ..v
    }
}

/// The number of hard errors (`false`) at the end of `outcomes`.
pub open spec fn trailing_errors(outcomes: Seq<bool>) -> nat
    decreases outcomes.len(),
{
    if outcomes.len() == 0 {
        0
    } else if outcomes.last() {
        0
    } else {
        trailing_errors(outcomes.drop_last()) + 1
    }
}

/// The loop after cycles with these outcomes (`false` for a hard error),
/// taken one after another.
pub open spec fn replay(v: LoopView, outcomes: Seq<bool>) -> LoopView
    decreases outcomes.len(),
{
    if outcomes.len() == 0 {
        v
    } else {
        step(replay(v, outcomes.drop_last()), outcomes.last())
    }
}

/// From a loop with no pending error, the circuit breaker counts exactly
/// the hard errors since the last cycle that completed (a fill, a guard
/// rejection, or no trade proposed), and trips on the first hard error
/// that makes `max_consecutive_errors` of them in a row. Every cycle
/// before that moves the iteration count on by one, and the limits stay
/// as they were.
pub proof fn law_breaker_trips_on_errors_in_a_row(v: LoopView, outcomes: Seq<bool>)
    requires
        v.consecutive_errors == 0,
        v.max_consecutive_errors >= 1,
        forall|i: int| 0 < i <= outcomes.len() ==> trailing_errors(#[trigger] outcomes.take(i)) < v.max_consecutive_errors,
    ensures
        replay(v, outcomes).consecutive_errors == trailing_errors(outcomes),
        replay(v, outcomes).iteration == v.iteration + outcomes.len(),
        replay(v, outcomes).max_iterations == v.max_iterations,
        replay(v, outcomes).max_consecutive_errors == v.max_consecutive_errors,
        forall|ok: bool| trips(replay(v, outcomes), ok) <==> trailing_errors(#[trigger] outcomes.push(ok)) >= v.max_consecutive_errors,
    decreases outcomes.len(),
{
    assert forall|ok: bool| #[trigger] outcomes.push(ok).drop_last() == outcomes && outcomes.push(ok).last() == ok by {
        assert(outcomes.push(ok).drop_last() =~= outcomes);
    }
    if outcomes.len() > 0 {
        let p = outcomes.drop_last();
        assert forall|i: int| 0 < i <= p.len() implies trailing_errors(#[trigger] p.take(i)) < v.max_consecutive_errors by {
            assert(p.take(i) =~= outcomes.take(i));
        }
        law_breaker_trips_on_errors_in_a_row(v, p);
        assert(outcomes.take(outcomes.len() as int) =~= outcomes);
    }
}

/// With `--max-iterations` set to `n`, a loop that starts at iteration
/// zero runs at most `n` cycles, whatever their outcomes: once `n` cycles
/// have completed, the decision before the next one is to halt.
pub proof fn law_iteration_limit_bounds_cycles(v: LoopView, outcomes: Seq<bool>, stop_file_present: bool)
    requires
        v.iteration == 0,
        v.max_iterations is Some,
        start_of(replay(v, outcomes), stop_file_present) == LoopStart::RunCycle,
    ensures
        outcomes.len() < v.max_iterations->Some_0,
{
    lemma_replay_counts(v, outcomes);
}

proof fn lemma_replay_counts(v: LoopView, outcomes: Seq<bool>)
    ensures
        replay(v, outcomes).iteration == v.iteration + outcomes.len(),
        replay(v, outcomes).max_iterations == v.max_iterations,
    decreases outcomes.len(),
{
    if outcomes.len() > 0 {
        lemma_replay_counts(v, outcomes.drop_last());
    }
}

impl AutonomousLoop {
    #[verifier::type_invariant]
    spec fn counters_fit(self) -> bool {
        &&& 1 <= self.max_consecutive_errors
        &&& self.consecutive_errors < self.max_consecutive_errors
    }

    /// A loop that has run nothing yet. A limit of zero consecutive errors
    /// is taken as one.
    pub fn new(max_iterations: Option<u32>, max_consecutive_errors: u32) -> (r: Self)
        ensures
            r@ == (LoopView {
                iteration: 0,
                consecutive_errors: 0,
                max_iterations: match max_iterations {
                    Some(m) => Some(m as nat),
                    None => None,
                },
                max_consecutive_errors: if max_consecutive_errors == 0 { 1 } else { max_consecutive_errors as nat },
            }),
    {
        let limit = if max_consecutive_errors == 0 { 1 } else { max_consecutive_errors };
        AutonomousLoop { iteration: 0, consecutive_errors: 0, max_iterations, max_consecutive_errors: limit }
    }

    /// Cycles completed so far.
    pub fn iteration(&self) -> (r: u32)
        ensures
            r == self@.iteration,
    {
        self.iteration
    }

    /// Hard errors since the last cycle that completed.
    pub fn consecutive_errors(&self) -> (r: u32)
        ensures
            r == self@.consecutive_errors,
    {
        self.consecutive_errors
    }

    /// The number of hard errors in a row that halts the loop.
    pub fn max_consecutive_errors(&self) -> (r: u32)
        ensures
            r == self@.max_consecutive_errors,
            r >= 1,
    {
        proof {
            use_type_invariant(self);
        }
        self.max_consecutive_errors
    }

    /// What to do before the next cycle.
    pub fn before_cycle(&self, stop_file_present: bool) -> (r: LoopStart)
        ensures
            r == start_of(self@, stop_file_present),
    {
        if stop_file_present {
            LoopStart::StopFile
        } else {
            match self.max_iterations {
                Some(m) => if self.iteration >= m {
                    LoopStart::IterationLimit
                } else {
                    LoopStart::RunCycle
                },
                None => LoopStart::RunCycle,
            }
        }
    }

    /// Records the outcome of a cycle (`cycle_ok` is false for a hard
    /// error) and says whether the loop goes on.
    pub fn after_cycle(&mut self, cycle_ok: bool) -> (r: CycleVerdict)
        requires
            old(self)@.iteration < u32::MAX || trips(old(self)@, cycle_ok),
        ensures
            trips(old(self)@, cycle_ok) ==> final(self)@ == old(self)@ && r == (CycleVerdict::Halt {
                consecutive_errors: (old(self)@.consecutive_errors + 1) as u32,
            }),
            !trips(old(self)@, cycle_ok) ==> final(self)@ == step(old(self)@, cycle_ok),
            !trips(old(self)@, cycle_ok) && cycle_ok ==> r == CycleVerdict::Next,
            !trips(old(self)@, cycle_ok) && !cycle_ok ==> r == (CycleVerdict::Retry {
                consecutive_errors: (old(self)@.consecutive_errors + 1) as u32,
            }),
    {
        proof {
            use_type_invariant(&*self);
        }
        if cycle_ok {
            self.consecutive_errors = 0;
            self.iteration = self.iteration + 1;
            CycleVerdict::Next
        } else {
            let errors = self.consecutive_errors + 1;
            if errors >= self.max_consecutive_errors {
                CycleVerdict::Halt { consecutive_errors: errors }
            } else {
                self.consecutive_errors = errors;
                self.iteration = self.iteration + 1;
                CycleVerdict::Retry { consecutive_errors: errors }
            }
        }
    }
}

// ---------------------------------------------------------------------------
// What the loop prints
// ---------------------------------------------------------------------------

pub(crate) fn count_text(n: u32) -> (r: String)
    ensures
        r@ == nat_text(n as nat),
{
    int_to_text(n as i64)
}

/// The line printed when the stop file halts the loop.
pub fn stop_file_line(path: &str, iteration: u32) -> (r: String)
    ensures
        r@ == "stop file "@ + path@ + " present -- halting after "@ + nat_text(iteration as nat)
            + " iteration(s)"@,
{
    let a = concat("stop file ", path);
    let b = concat(a.as_str(), " present -- halting after ");
    let c = concat(b.as_str(), count_text(iteration).as_str());
    concat(c.as_str(), " iteration(s)")
}

/// The line printed when the iteration limit halts the loop.
pub fn iteration_limit_line(max_iterations: u32) -> (r: String)
    ensures
        r@ == "reached --max-iterations="@ + nat_text(max_iterations as nat) + " -- halting"@,
{
    let a = concat("reached --max-iterations=", count_text(max_iterations).as_str());
    concat(a.as_str(), " -- halting")
}

/// The line printed for a hard error in a cycle.
pub fn cycle_error_line(iteration: u32, consecutive_errors: u32, max_consecutive_errors: u32, error: &str) -> (r: String)
    ensures
        r@ == "iteration "@ + nat_text(iteration as nat) + ": error ("@ + nat_text(consecutive_errors as nat) + "/"@
            + nat_text(max_consecutive_errors as nat) + " consecutive): "@ + error@,
{
    let a = concat("iteration ", count_text(iteration).as_str());
    let b = concat(a.as_str(), ": error (");
    let c = concat(b.as_str(), count_text(consecutive_errors).as_str());
    let d = concat(c.as_str(), "/");
    let e = concat(d.as_str(), count_text(max_consecutive_errors).as_str());
    let f = concat(e.as_str(), " consecutive): ");
    concat(f.as_str(), error)
}

/// The message of the error that the tripped circuit breaker ends the
/// loop with.
pub fn breaker_message(consecutive_errors: u32, max_consecutive_errors: u32, last_error: &str) -> (r: String)
    ensures
        r@ == "halting after "@ + nat_text(consecutive_errors as nat) + " consecutive errors (max_consecutive_errors="@
            + nat_text(max_consecutive_errors as nat) + "); last error: "@ + last_error@,
{
    let a = concat("halting after ", count_text(consecutive_errors).as_str());
    let b = concat(a.as_str(), " consecutive errors (max_consecutive_errors=");
    let c = concat(b.as_str(), count_text(max_consecutive_errors).as_str());
    let d = concat(c.as_str(), "); last error: ");
    concat(d.as_str(), last_error)
}

} // verus!
