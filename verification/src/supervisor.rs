//! The pace at which a lost connection to the broker is built up again.
use vstd::prelude::*;

verus! {

/// The first delay before a new connection, in seconds.
pub const INITIAL_BACKOFF: u64 = 2;

/// The longest delay before a new connection, in seconds.
pub const MAX_BACKOFF: u64 = 300;

/// A connection that was up for this many nanoseconds was healthy.
pub const HEALTHY_CONNECTION: u128 = 60_000_000_000;

/// How a connection came to its end.
#[derive(Debug, Clone, Copy, PartialEq, Eq)]
pub enum RunOutcome {
    /// It was up for so many nanoseconds after it was established, and closed.
    Closed(u128),
    /// It failed.
    Failed,
}

/// Whether a connection was up long enough to forget earlier failures.
pub open spec fn healthy(outcome: RunOutcome) -> bool {
    outcome matches RunOutcome::Closed(uptime) && uptime >= HEALTHY_CONNECTION
}

/// The delay after a connection ended, given the delay that was up next.
pub open spec fn delay_after(backoff: u64, outcome: RunOutcome) -> u64 {
    if healthy(outcome) {
        INITIAL_BACKOFF
    } else {
        backoff
    }
}

/// The delay that is up next after the given one: twice as long, up to the
/// longest.
pub open spec fn next_backoff(delay: u64) -> u64 {
    if 2 * delay <= MAX_BACKOFF {
        (2 * delay) as u64
    } else {
        MAX_BACKOFF
    }
}

/// The delay that is up next after a history of connections.
pub open spec fn backoff_after(history: Seq<RunOutcome>) -> u64
    decreases history.len(),
{
    if history.len() == 0 {
        INITIAL_BACKOFF
    } else {
        next_backoff(delay_after(backoff_after(history.drop_last()), history.last()))
    }
}

/// The delays between connections, with exponential backoff.
#[derive(Debug)]
pub struct Supervisor {
    backoff: u64,
}

impl Supervisor {
    /// The delay that is up next.
    pub closed spec fn backoff(self) -> u64 {
        self.backoff
    }

    #[verifier::type_invariant]
    closed spec fn in_range(self) -> bool {
        INITIAL_BACKOFF <= self.backoff <= MAX_BACKOFF
    }

    /// Starts with the first delay.
    pub fn new() -> (r: Supervisor)
        ensures
            r.backoff() == INITIAL_BACKOFF,
    {
        Supervisor { backoff: INITIAL_BACKOFF }
    }

    /// Says how many seconds to wait after a connection ended. After a healthy
    /// connection the delays start anew.
    pub fn connection_ended(&mut self, outcome: RunOutcome) -> (delay: u64)
        ensures
            delay == delay_after(old(self).backoff(), outcome),
            final(self).backoff() == next_backoff(delay),
            INITIAL_BACKOFF <= delay <= MAX_BACKOFF,
    {
        proof {
            use_type_invariant(&*self);
        }
        let delay: u64 = match outcome {
            RunOutcome::Closed(uptime) => if uptime >= HEALTHY_CONNECTION {
                INITIAL_BACKOFF
            } else {
                self.backoff
            },
            RunOutcome::Failed => self.backoff,
        };
        let next: u64 = if 2 * delay <= MAX_BACKOFF {
            2 * delay
        } else {
            MAX_BACKOFF
        };
        self.backoff = next;
        delay
    }
}

/// The delays start with the first one, and one more connection changes the
/// next delay as [`Supervisor::connection_ended`] says.
pub proof fn one_more_connection(history: Seq<RunOutcome>, outcome: RunOutcome)
    ensures
        backoff_after(Seq::empty()) == INITIAL_BACKOFF,
        backoff_after(history.push(outcome)) == next_backoff(
            delay_after(backoff_after(history), outcome),
        ),
{
    assert(history.push(outcome).drop_last() == history);
}

/// Whatever happens, the next delay is at least the first and at most the
/// longest one.
pub proof fn backoff_stays_in_range(history: Seq<RunOutcome>)
    ensures
        INITIAL_BACKOFF <= backoff_after(history) <= MAX_BACKOFF,
    decreases history.len(),
{
    if history.len() > 0 {
        backoff_stays_in_range(history.drop_last());
    }
}

/// After a healthy connection the delay is the first one, whatever came
/// before.
pub proof fn healthy_connection_resets(history: Seq<RunOutcome>, outcome: RunOutcome)
    requires
        healthy(outcome),
    ensures
        delay_after(backoff_after(history), outcome) == INITIAL_BACKOFF,
{
}

/// As long as no connection is healthy, each delay is twice the one before,
/// until the longest is reached: after `n` such connections the next delay is
/// the first one times two to the `n`, or the longest one if that is less.
pub proof fn backoff_is_exponential(history: Seq<RunOutcome>)
    requires
        forall|i: int| 0 <= i < history.len() ==> !healthy(#[trigger] history[i]),
    ensures
        backoff_after(history) == if INITIAL_BACKOFF * vstd::arithmetic::power2::pow2(history.len()) <= MAX_BACKOFF {
            INITIAL_BACKOFF * vstd::arithmetic::power2::pow2(history.len())
        } else {
            MAX_BACKOFF as int
        },
    decreases history.len(),
{
    if history.len() == 0 {
        vstd::arithmetic::power2::lemma2_to64();
    } else {
        backoff_is_exponential(history.drop_last());
        vstd::arithmetic::power2::lemma_pow2_unfold(history.len());
    }
}

/// The delay after a connection that was up for a minute or longer is two
/// seconds, whatever delay was up next; after one that was up for less, or
/// that failed, it is the delay that was up next.
pub proof fn a_minute_of_uptime_resets(
    supervisor: &mut Supervisor,
    uptime: u128,
    delay: u64,
)
    requires
        call_ensures(Supervisor::connection_ended, (supervisor, RunOutcome::Closed(uptime)), delay),
    ensures
        uptime >= 60 * 1_000_000_000 ==> delay == 2,
        uptime < 60 * 1_000_000_000 ==> delay == old(supervisor).backoff(),
        final(supervisor).backoff() == if 2 * delay < 300 {
            2 * delay
        } else {
            300
        },
{
}

/// The delay after a connection that failed is the one that was up next, and
/// the next one is twice as long, up to five minutes.
pub proof fn failures_double_the_delay(supervisor: &mut Supervisor, delay: u64)
    requires
        call_ensures(Supervisor::connection_ended, (supervisor, RunOutcome::Failed), delay),
    ensures
        delay == old(supervisor).backoff(),
        final(supervisor).backoff() == if 2 * delay < 300 {
            2 * delay
        } else {
            300
        },
{
}

/// The first delay is two seconds.
pub proof fn delays_start_short(supervisor: Supervisor)
    requires
        call_ensures(Supervisor::new, (), supervisor),
    ensures
        supervisor.backoff() == 2,
{
}

/// Over a history of connections: the delay after the last one is two seconds
/// if that was up for a minute or longer, and else the one that the history
/// before it calls for. The next delay doubles it, up to five minutes.
pub proof fn uptime_decides_over_the_history(history: Seq<RunOutcome>, uptime: u128)
    ensures
        uptime >= 60 * 1_000_000_000 ==> {
            &&& delay_after(backoff_after(history), RunOutcome::Closed(uptime)) == 2
            &&& backoff_after(history.push(RunOutcome::Closed(uptime))) == 4
        },
        uptime < 60 * 1_000_000_000 ==> {
            &&& delay_after(backoff_after(history), RunOutcome::Closed(uptime)) == backoff_after(
                history,
            )
            &&& backoff_after(history.push(RunOutcome::Closed(uptime))) == backoff_after(
                history.push(RunOutcome::Failed),
            )
        },
        delay_after(backoff_after(history), RunOutcome::Failed) == backoff_after(history),
        backoff_after(history.push(RunOutcome::Failed)) == if 2 * backoff_after(history) < 300 {
            2 * backoff_after(history)
        } else {
            300
        },
{
    one_more_connection(history, RunOutcome::Closed(uptime));
    one_more_connection(history, RunOutcome::Failed);
}

} // verus!
