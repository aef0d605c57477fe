//! The per-bind supervisor: bind, hold the session until it is lost, reconnect
//! after an exponential backoff capped at 60 s.
//!
//! The supervisor decides; the caller acts. It performs the [`Action`] that a
//! step returns and hands back what happened:
//!
//!   1. connect — start a client, and report with [`Supervisor::started`]
//!   2. poll whether the client is alive, and report with
//!      [`Supervisor::polled`]
//!   3. once it is down: drop it, wait, and report with [`Supervisor::slept`]
//!
//! Times are nanoseconds of a monotonic clock.
use vstd::prelude::*;

verus! {

/// How long a bind may take: the client's own session-init timer is 5 s, with
/// room for connect, DNS and TLS handshake on top.
pub const BIND_DEADLINE_NS: u64 = 15_000_000_000;

/// A session that stayed up for at least this long makes a disconnect a
/// transient blip, which resets the backoff.
pub const HEALTHY_NS: u64 = 30_000_000_000;

/// How often to poll whether the client is alive.
pub const POLL_INTERVAL_MS: u64 = 1_000;

/// The first backoff.
pub const BACKOFF_MIN_MS: u64 = 1_000;

/// The longest backoff.
pub const BACKOFF_MAX_MS: u64 = 60_000;

/// Where a bind stands.
#[derive(Debug, Clone, Copy, PartialEq, Eq, Structural)]
pub enum Phase {
    /// Nothing is running.
    Down,
    /// A client was started at this time and has not bound yet.
    Binding(u64),
    /// The client has been bound since this time.
    Bound(u64),
    /// Waiting before the next attempt.
    BackingOff,
}

/// What to do next.
#[derive(Debug, Clone, Copy, PartialEq, Eq, Structural)]
pub enum Action {
    /// Start a client.
    Connect,
    /// Look whether the client is alive.
    Poll,
    /// Wait for the poll interval, then look.
    PollLater,
    /// Drop the client and wait for so many milliseconds. `lost` tells a session
    /// that was established from an attempt that never bound.
    Retry { wait_ms: u64, lost: bool },
}

/// The state of a supervised bind.
#[derive(Debug, Clone, Copy, PartialEq, Eq, Structural)]
pub struct Supervisor {
    pub phase: Phase,
    /// How long to wait before the next attempt, if this one fails.
    pub backoff_ms: u64,
}

/// The backoff after `ms`: twice as long, up to the limit.
pub open spec fn doubled(ms: int) -> int {
    if ms * 2 < BACKOFF_MAX_MS {
        ms * 2
    } else {
        BACKOFF_MAX_MS as int
    }
}

/// The time from `from` to `now`, none where the clock went back.
pub open spec fn since(from: u64, now: u64) -> int {
    if now > from {
        now - from
    } else {
        0
    }
}

impl Supervisor {
    /// Whether the backoff is within its limits.
    pub open spec fn wf(self) -> bool {
        BACKOFF_MIN_MS <= self.backoff_ms <= BACKOFF_MAX_MS
    }

    /// The state before the first attempt.
    pub fn new() -> (r: Supervisor)
        ensures
            r == (Supervisor { phase: Phase::Down, backoff_ms: BACKOFF_MIN_MS }),
            r.wf(),
    {
        Supervisor { phase: Phase::Down, backoff_ms: BACKOFF_MIN_MS }
    }

    /// The state and the action after an attempt ended: wait for `wait_ms`, and
    /// twice as long the next time.
    pub open spec fn retried(self, wait_ms: u64, lost: bool) -> (Supervisor, Action) {
        (
            Supervisor { phase: Phase::BackingOff, backoff_ms: doubled(wait_ms as int) as u64 },
            Action::Retry { wait_ms, lost },
        )
    }

    /// The state and the action after a client was started at `now`.
    pub open spec fn after_start(self, now: u64) -> (Supervisor, Action) {
        (Supervisor { phase: Phase::Binding(now), ..self }, Action::Poll)
    }

    /// The state and the action after the client was found alive or not at
    /// `now`. Before it has bound, it is given until the deadline. Once it has
    /// bound and is lost, the backoff starts over if the session was healthy.
    pub open spec fn after_poll(self, alive: bool, now: u64) -> (Supervisor, Action) {
        match self.phase {
            Phase::Binding(from) => if alive {
                (Supervisor { phase: Phase::Bound(now), ..self }, Action::PollLater)
            } else if since(from, now) < BIND_DEADLINE_NS {
                (self, Action::PollLater)
            } else {
                self.retried(self.backoff_ms, false)
            },
            Phase::Bound(from) => if alive {
                (self, Action::PollLater)
            } else if since(from, now) >= HEALTHY_NS {
                self.retried(BACKOFF_MIN_MS, true)
            } else {
                self.retried(self.backoff_ms, true)
            },
            _ => (self, Action::Connect),
        }
    }

    /// The state and the action after the wait before the next attempt.
    pub open spec fn after_sleep(self) -> (Supervisor, Action) {
        (Supervisor { phase: Phase::Down, ..self }, Action::Connect)
    }

    fn retry(self, wait_ms: u64, lost: bool) -> (r: (Supervisor, Action))
        ensures
            r == self.retried(wait_ms, lost),
    {
        let next: u64 = if wait_ms < BACKOFF_MAX_MS / 2 {
            wait_ms * 2
        } else {
            BACKOFF_MAX_MS
        };
        (
            Supervisor { phase: Phase::BackingOff, backoff_ms: next },
            Action::Retry { wait_ms, lost },
        )
    }

    /// A client was started at `now`.
    pub fn started(self, now: u64) -> (r: (Supervisor, Action))
        ensures
            r == self.after_start(now),
    {
        (Supervisor { phase: Phase::Binding(now), backoff_ms: self.backoff_ms }, Action::Poll)
    }

    /// The client was found alive or not at `now`.
    pub fn polled(self, alive: bool, now: u64) -> (r: (Supervisor, Action))
        ensures
            r == self.after_poll(alive, now),
            self.wf() ==> r.0.wf(),
    {
        match self.phase {
            Phase::Binding(from) => {
                let elapsed: u64 = if now > from {
                    now - from
                } else {
                    0
                };
                if alive {
                    (
                        Supervisor { phase: Phase::Bound(now), backoff_ms: self.backoff_ms },
                        Action::PollLater,
                    )
                } else if elapsed < BIND_DEADLINE_NS {
                    (self, Action::PollLater)
                } else {
                    self.retry(self.backoff_ms, false)
                }
            },
            Phase::Bound(from) => {
                let elapsed: u64 = if now > from {
                    now - from
                } else {
                    0
                };
                if alive {
                    (self, Action::PollLater)
                } else if elapsed >= HEALTHY_NS {
                    self.retry(BACKOFF_MIN_MS, true)
                } else {
                    self.retry(self.backoff_ms, true)
                }
            },
            _ => (self, Action::Connect),
        }
    }

    /// The wait before the next attempt is over.
    pub fn slept(self) -> (r: (Supervisor, Action))
        ensures
            r == self.after_sleep(),
    {
        (Supervisor { phase: Phase::Down, backoff_ms: self.backoff_ms }, Action::Connect)
    }
}

// ── What is promised of the supervisor ───────────────────────────────────

/// The backoff after `n` attempts in a row that came to nothing.
pub open spec fn backoff_after(n: nat) -> int
    decreases n,
{
    if n == 0 {
        BACKOFF_MIN_MS as int
    } else {
        doubled(backoff_after((n - 1) as nat))
    }
}

/// The state after `n` attempts in a row that were never answered, each of them
/// started, found dead past its deadline, and waited for.
pub open spec fn after_failures(s: Supervisor, n: nat) -> Supervisor
    decreases n,
{
    if n == 0 {
        s
    } else {
        let before = after_failures(s, (n - 1) as nat);
        before.after_start(0).0.after_poll(false, BIND_DEADLINE_NS).0.after_sleep().0
    }
}

/// Whatever happens, the backoff stays within its limits.
pub proof fn the_backoff_stays_within_its_limits(s: Supervisor, alive: bool, now: u64)
    requires
        s.wf(),
    ensures
        s.after_start(now).0.wf(),
        s.after_poll(alive, now).0.wf(),
        s.after_sleep().0.wf(),
        s.after_poll(alive, now).1 matches Action::Retry { wait_ms, .. } ==> BACKOFF_MIN_MS
            <= wait_ms <= BACKOFF_MAX_MS,
{
}

/// Attempts that fail in a row are spaced ever wider: 1 s, 2 s, 4 s and so on,
/// until the spacing is 60 s and stays there.
pub proof fn failures_back_off_exponentially(n: nat)
    ensures
        after_failures(Supervisor { phase: Phase::Down, backoff_ms: BACKOFF_MIN_MS }, n)
            == (Supervisor { phase: Phase::Down, backoff_ms: backoff_after(n) as u64 }),
        backoff_after(n) == if n < 6 {
            BACKOFF_MIN_MS * vstd::arithmetic::power2::pow2(n)
        } else {
            BACKOFF_MAX_MS as int
        },
    decreases n,
{
    vstd::arithmetic::power2::lemma2_to64();
    if n > 0 {
        failures_back_off_exponentially((n - 1) as nat);
        vstd::arithmetic::power2::lemma_pow2_unfold(n);
    }
}

/// A session that was healthy is followed by the shortest wait; one that was
/// not takes the next longer one.
pub proof fn a_healthy_session_resets_the_backoff(s: Supervisor, from: u64, now: u64)
    requires
        s.phase == Phase::Bound(from),
    ensures
        s.after_poll(false, now).1 == (Action::Retry {
            wait_ms: if since(from, now) >= HEALTHY_NS {
                BACKOFF_MIN_MS
            } else {
                s.backoff_ms
            },
            lost: true,
        }),
{
}

/// The supervisor never gives up: a wait is always followed by an attempt, and
/// an attempt by polling until it is bound or past its deadline.
pub proof fn the_supervisor_never_gives_up(s: Supervisor, alive: bool, from: u64, now: u64)
    ensures
        s.after_sleep().1 == Action::Connect,
        s.after_start(now).1 == Action::Poll,
        s.phase == Phase::Binding(from) ==> s.after_poll(alive, now).1 == Action::PollLater
            || s.after_poll(alive, now).0.phase == Phase::BackingOff,
{
}

/// The state after the client was found alive at each of `times`.
pub open spec fn held(s: Supervisor, times: Seq<u64>) -> Supervisor
    decreases times.len(),
{
    if times.len() == 0 {
        s
    } else {
        held(s, times.drop_last()).after_poll(true, times.last()).0
    }
}

/// A session counts from the poll that first found it bound, however often it is
/// found alive after that: it is followed by the shortest wait exactly where it
/// stayed up for 30 s, and else by the wait that was due.
pub proof fn a_session_counts_from_when_it_bound(
    s: Supervisor,
    started: u64,
    bound: u64,
    times: Seq<u64>,
    lost: u64,
)
    requires
        s.phase == Phase::Binding(started),
    ensures
        ({
            let up = held(s.after_poll(true, bound).0, times);
            &&& s.after_poll(true, bound).1 == Action::PollLater
            &&& up.phase == Phase::Bound(bound)
            &&& up.backoff_ms == s.backoff_ms
            &&& up.after_poll(true, lost).1 == Action::PollLater
            &&& lost - bound >= 30_000_000_000 ==> up.after_poll(false, lost).1 == (Action::Retry {
                wait_ms: 1_000,
                lost: true,
            })
            &&& lost - bound < 30_000_000_000 ==> up.after_poll(false, lost).1 == (Action::Retry {
                wait_ms: s.backoff_ms,
                lost: true,
            })
        }),
    decreases times.len(),
{
    if times.len() > 0 {
        a_session_counts_from_when_it_bound(s, started, bound, times.drop_last(), lost);
    }
}

/// The state after the client was found dead at each of `times`.
pub open spec fn waited(s: Supervisor, times: Seq<u64>) -> Supervisor
    decreases times.len(),
{
    if times.len() == 0 {
        s
    } else {
        waited(s, times.drop_last()).after_poll(false, times.last()).0
    }
}

/// A client that has not bound is waited for until 15 s after its start, however
/// often it is looked at meanwhile, and given up then: with the wait that was
/// due, and not as a session that was lost.
pub proof fn an_attempt_has_fifteen_seconds(
    s: Supervisor,
    started: u64,
    times: Seq<u64>,
    now: u64,
)
    requires
        s.phase == Phase::Binding(started),
        forall|i: int| 0 <= i < times.len() ==> #[trigger] times[i] - started < 15_000_000_000,
    ensures
        waited(s, times) == s,
        now - started < 15_000_000_000 ==> waited(s, times).after_poll(false, now) == (
            s,
            Action::PollLater,
        ),
        now - started >= 15_000_000_000 ==> waited(s, times).after_poll(false, now).1 == (
        Action::Retry { wait_ms: s.backoff_ms, lost: false }),
    decreases times.len(),
{
    if times.len() > 0 {
        let earlier = times.drop_last();
        assert forall|i: int| 0 <= i < earlier.len() implies #[trigger] earlier[i] - started
            < 15_000_000_000 by {
            assert(earlier[i] == times[i]);
        }
        an_attempt_has_fifteen_seconds(s, started, earlier, now);
        assert(times[times.len() - 1] - started < 15_000_000_000);
    }
}

/// After every wait the next one is twice as long, up to 60 s, and nothing but a
/// wait changes what is due: not the sleep, not the next start, not a poll that
/// goes on.
pub proof fn every_wait_doubles_the_next(s: Supervisor, alive: bool, now: u64)
    requires
        1_000 <= s.backoff_ms <= 60_000,
    ensures
        match s.after_poll(alive, now).1 {
            Action::Retry { wait_ms, .. } => {
                &&& s.after_poll(alive, now).0.phase == Phase::BackingOff
                &&& wait_ms * 2 <= 60_000 ==> s.after_poll(alive, now).0.backoff_ms == wait_ms * 2
                &&& wait_ms * 2 >= 60_000 ==> s.after_poll(alive, now).0.backoff_ms == 60_000
            },
            _ => s.after_poll(alive, now).0.backoff_ms == s.backoff_ms,
        },
        s.after_sleep().0.backoff_ms == s.backoff_ms,
        s.after_sleep().0.phase == Phase::Down,
        s.after_start(now).0.backoff_ms == s.backoff_ms,
        s.after_start(now).0.phase == Phase::Binding(now),
{
}

} // verus!
