//! The token bucket that honours `max_msg_per_sec` in both directions: one per
//! outbound bind (paces what the script sends) and one per inbound ESME session
//! (gates what the ESME submits).
//!
//! Time comes in as nanoseconds of a monotonic clock. The bucket counts in
//! billionths of a token, so that a rate of *n* tokens per second adds *n* of
//! them per nanosecond and nothing is lost to rounding.
use crate::config::ThrottleAction;
use vstd::prelude::*;

verus! {

/// One token, in the unit in which a bucket counts.
pub const TOKEN: u64 = 1_000_000_000;

/// A token bucket: capacity is one second's worth of tokens, so short bursts
/// pass through and sustained load settles at the configured rate.
#[derive(Debug)]
pub struct RateLimiter {
    credit: u64,
    rate: u32,
    last: u64,
}

/// What a bucket holds, its rate in tokens per second, and when it was last
/// filled.
pub struct Bucket {
    pub credit: int,
    pub rate: int,
    pub last: int,
}

impl Bucket {
    /// The most that the bucket holds: one second's worth.
    pub open spec fn capacity(self) -> int {
        self.rate * TOKEN
    }

    /// Whether the bucket has a rate and holds no more than it can.
    pub open spec fn wf(self) -> bool {
        &&& 1 <= self.rate <= u32::MAX
        &&& 0 <= self.credit <= self.capacity()
    }

    /// The time since the bucket was last filled, none where `now` lies before.
    pub open spec fn elapsed(self, now: int) -> int {
        if now > self.last {
            now - self.last
        } else {
            0
        }
    }

    /// What the bucket holds at `now`: what it held and what came in since, up to
    /// its capacity.
    pub open spec fn filled(self, now: int) -> int {
        let more = self.credit + self.elapsed(now) * self.rate;
        if more < self.capacity() {
            more
        } else {
            self.capacity()
        }
    }

    /// Whether there is a token at `now`.
    pub open spec fn has_token(self, now: int) -> bool {
        self.filled(now) >= TOKEN
    }

    /// The bucket after a token was asked for at `now`, and taken if there was
    /// one.
    pub open spec fn asked(self, now: int) -> Bucket {
        Bucket {
            credit: if self.has_token(now) {
                self.filled(now) - TOKEN
            } else {
                self.filled(now)
            },
            rate: self.rate,
            last: now,
        }
    }

    /// How long after `now` there will be a token: the least whole number of
    /// nanoseconds in which what is missing comes in.
    pub open spec fn wait(self, now: int) -> int {
        let missing = TOKEN - self.filled(now);
        (missing + self.rate - 1) / self.rate
    }
}

impl View for RateLimiter {
    type V = Bucket;

    closed spec fn view(&self) -> Bucket {
        Bucket { credit: self.credit as int, rate: self.rate as int, last: self.last as int }
    }
}

impl RateLimiter {
    #[verifier::type_invariant]
    spec fn inv(self) -> bool {
        self@.wf()
    }

    /// A full bucket for `rate` messages/second; a rate of 0 counts as 1.
    pub fn new(rate: u32, now: u64) -> (r: RateLimiter)
        ensures
            r@.rate == if rate == 0 {
                1
            } else {
                rate as int
            },
            r@.credit == r@.capacity(),
            r@.last == now,
            r@.wf(),
    {
        let rate: u32 = if rate == 0 {
            1
        } else {
            rate
        };
        assert(rate * TOKEN <= u64::MAX) by (nonlinear_arith)
            requires
                rate <= 0xFFFF_FFFF,
                TOKEN == 1_000_000_000,
        ;
        RateLimiter { credit: rate as u64 * TOKEN, rate, last: now }
    }

    /// Consume a token if one is available and return `true`; return `false`
    /// (without waiting) when the bucket is empty. Used by the `reject` throttle
    /// action to answer over-rate submits with `ESME_RTHROTTLED` instead of
    /// pacing them.
    pub fn try_acquire(&mut self, now: u64) -> (r: bool)
        ensures
            r == old(self)@.has_token(now as int),
            final(self)@ == old(self)@.asked(now as int),
            final(self)@.wf(),
    {
        proof {
            use_type_invariant(&*self);
        }
        let elapsed: u64 = if now > self.last {
            now - self.last
        } else {
            0
        };
        let rate: u32 = self.rate;
        let capacity: u64 = {
            assert(rate * TOKEN <= u64::MAX) by (nonlinear_arith)
                requires
                    rate <= 0xFFFF_FFFF,
                    TOKEN == 1_000_000_000,
            ;
            rate as u64 * TOKEN
        };
        let more: u128 = {
            assert(elapsed * rate <= 0xFFFF_FFFF_FFFF_FFFF * 0xFFFF_FFFF) by (nonlinear_arith)
                requires
                    0 <= elapsed <= 0xFFFF_FFFF_FFFF_FFFF,
                    0 <= rate <= 0xFFFF_FFFF,
            ;
            self.credit as u128 + elapsed as u128 * rate as u128
        };
        let filled: u64 = if more < capacity as u128 {
            more as u64
        } else {
            capacity
        };
        assert(elapsed * rate >= 0) by (nonlinear_arith)
            requires
                elapsed >= 0,
                rate >= 0,
        ;
        let taken: bool = filled >= TOKEN;
        *self = RateLimiter {
            credit: if taken {
                filled - TOKEN
            } else {
                filled
            },
            rate,
            last: now,
        };
        taken
    }

    /// One step of a paced acquire: consume a token if one is available, else
    /// say how many nanoseconds to wait before asking again.
    pub fn acquire(&mut self, now: u64) -> (r: Option<u64>)
        ensures
            r is None == old(self)@.has_token(now as int),
            r matches Some(wait) ==> wait == old(self)@.wait(now as int) && 1 <= wait <= TOKEN,
            final(self)@ == old(self)@.asked(now as int),
            final(self)@.wf(),
    {
        let ghost was = self@;
        if self.try_acquire(now) {
            return None;
        }
        proof {
            use_type_invariant(&*self);
        }
        let missing: u64 = TOKEN - self.credit;
        let rate: u64 = self.rate as u64;
        let ghost m = missing as int;
        let ghost n = rate as int;
        assert(was.filled(now as int) >= 0);
        assert(1 <= (m + n - 1) / n <= m) by {
            vstd::arithmetic::div_mod::lemma_fundamental_div_mod(m + n - 1, n);
            let q = (m + n - 1) / n;
            assert(1 <= q <= m) by (nonlinear_arith)
                requires
                    m + n - 1 == n * q + (m + n - 1) % n,
                    0 <= (m + n - 1) % n < n,
                    m >= 1,
                    n >= 1,
            ;
        }
        Some((missing + rate - 1) / rate)
    }
}

/// The limiter of a `max_msg_per_sec`: none where that is 0, which is unlimited.
pub fn limiter_for(max_msg_per_sec: u32, now: u64) -> (r: Option<RateLimiter>)
    ensures
        r is None == (max_msg_per_sec == 0),
        r matches Some(l) ==> l@.rate == max_msg_per_sec && l@.credit == l@.capacity() && l@.last
            == now,
{
    if max_msg_per_sec > 0 {
        Some(RateLimiter::new(max_msg_per_sec, now))
    } else {
        None
    }
}

// ── Admission of inbound messages ────────────────────────────────────────

/// Whether a PDU may be dispatched, must be rejected with `ESME_RTHROTTLED`, or
/// has to wait for so many nanoseconds and ask again.
#[derive(Debug, Clone, Copy, PartialEq, Eq, Structural)]
pub enum InboundAdmit {
    Proceed,
    Throttled,
    Wait(u64),
}

/// What becomes of a message that arrives at `now`: without a limiter, or with a
/// token, it proceeds. Without a token `Reject` throttles it, and `Pace` has it
/// wait until there is one.
pub open spec fn admission(
    action: ThrottleAction,
    bucket: Option<Bucket>,
    now: int,
) -> InboundAdmit {
    match bucket {
        None => InboundAdmit::Proceed,
        Some(b) => if b.has_token(now) {
            InboundAdmit::Proceed
        } else {
            match action {
                ThrottleAction::Pace => InboundAdmit::Wait(b.wait(now) as u64),
                ThrottleAction::Reject => InboundAdmit::Throttled,
            }
        },
    }
}

/// The bucket of an optional limiter.
pub open spec fn bucket_of(limiter: Option<RateLimiter>) -> Option<Bucket> {
    match limiter {
        Some(l) => Some(l@),
        None => None,
    }
}

/// Admit or throttle an inbound message PDU against its session's rate limiter.
/// Always admits when the session is unlimited (no limiter).
pub fn admit_inbound(action: ThrottleAction, limiter: &mut Option<RateLimiter>, now: u64) -> (r:
    InboundAdmit)
    ensures
        r == admission(action, bucket_of(*old(limiter)), now as int),
        bucket_of(*final(limiter)) == match bucket_of(*old(limiter)) {
            Some(b) => Some(b.asked(now as int)),
            None => None,
        },
{
    match limiter.take() {
        None => InboundAdmit::Proceed,
        Some(mut l) => {
            let r: InboundAdmit = match action {
                ThrottleAction::Pace => match l.acquire(now) {
                    None => InboundAdmit::Proceed,
                    Some(wait) => InboundAdmit::Wait(wait),
                },
                ThrottleAction::Reject => if l.try_acquire(now) {
                    InboundAdmit::Proceed
                } else {
                    InboundAdmit::Throttled
                },
            };
            *limiter = Some(l);
            r
        },
    }
}

// ── What is promised of a limiter ────────────────────────────────────────

/// The bucket after tokens were asked for at each of `times`, and how many were
/// granted.
pub open spec fn granted(b: Bucket, times: Seq<int>) -> (Bucket, int)
    decreases times.len(),
{
    if times.len() == 0 {
        (b, 0)
    } else {
        let (before, n) = granted(b, times.drop_last());
        (before.asked(times.last()), if before.has_token(times.last()) { n + 1 } else { n })
    }
}

/// Whether `times` never go back, and start no earlier than `from`.
pub open spec fn ascends(times: Seq<int>, from: int) -> bool {
    &&& times.len() > 0 ==> from <= times[0]
    &&& forall|i: int, j: int| 0 <= i <= j < times.len() ==> times[i] <= times[j]
}

/// A bucket that is asked for tokens still has its rate and holds no more than
/// it can.
pub proof fn asking_keeps_the_bucket(b: Bucket, now: int)
    requires
        b.wf(),
    ensures
        b.asked(now).wf(),
        b.asked(now).rate == b.rate,
{
    assert(b.elapsed(now) * b.rate >= 0) by (nonlinear_arith)
        requires
            b.elapsed(now) >= 0,
            b.rate >= 1,
    ;
    assert(b.capacity() >= TOKEN) by (nonlinear_arith)
        requires
            b.rate >= 1,
            b.capacity() == b.rate * TOKEN,
    ;
}

/// However often tokens are asked for, no more are granted than the bucket held
/// and its rate brought in meanwhile: sustained load settles at the configured
/// rate.
pub proof fn no_more_is_granted_than_the_rate_allows(b: Bucket, times: Seq<int>)
    requires
        b.wf(),
        ascends(times, b.last),
        times.len() > 0,
    ensures
        granted(b, times).1 * TOKEN <= b.credit + (times.last() - b.last) * b.rate,
{
    grants_balance(b, times);
}

proof fn grants_balance(b: Bucket, times: Seq<int>)
    requires
        b.wf(),
        ascends(times, b.last),
    ensures
        ({
            let (after, n) = granted(b, times);
            &&& after.wf()
            &&& after.rate == b.rate
            &&& after.last == if times.len() == 0 {
                b.last
            } else {
                times.last()
            }
            &&& n >= 0
            &&& after.credit + n * TOKEN <= b.credit + (after.last - b.last) * b.rate
        }),
    decreases times.len(),
{
    if times.len() > 0 {
        let earlier = times.drop_last();
        assert(ascends(earlier, b.last)) by {
            assert(forall|i: int| 0 <= i < earlier.len() ==> earlier[i] == times[i]);
        }
        grants_balance(b, earlier);
        let (before, n) = granted(b, earlier);
        let now = times.last();
        asking_keeps_the_bucket(before, now);
        assert(before.last <= now) by {
            if earlier.len() > 0 {
                assert(earlier.last() == times[times.len() - 2]);
            }
        }
        let d = now - before.last;
        assert((now - b.last) * b.rate == (before.last - b.last) * b.rate + d * b.rate)
            by (nonlinear_arith)
            requires
                d == now - before.last,
        ;
        assert((n + 1) * TOKEN == n * TOKEN + TOKEN) by (nonlinear_arith);
    } else {
        assert((b.last - b.last) * b.rate == 0) by (nonlinear_arith);
    }
}

/// A full bucket lets a burst of one second's worth of messages pass at once, and
/// refuses the next.
pub proof fn a_burst_of_one_second_passes(b: Bucket, n: nat)
    requires
        b.wf(),
        b.credit == b.capacity(),
    ensures
        granted(b, Seq::new(n, |i: int| b.last)).1 == if n <= b.rate {
            n as int
        } else {
            b.rate
        },
{
    burst(b, n);
}

proof fn burst(b: Bucket, n: nat)
    requires
        b.wf(),
        b.credit == b.capacity(),
    ensures
        ({
            let (after, g) = granted(b, Seq::new(n, |i: int| b.last));
            &&& g == if n <= b.rate {
                n as int
            } else {
                b.rate
            }
            &&& after.credit == b.capacity() - g * TOKEN
            &&& after.rate == b.rate
            &&& after.last == b.last
        }),
    decreases n,
{
    let times = Seq::new(n, |i: int| b.last);
    if n > 0 {
        let fewer = (n - 1) as nat;
        burst(b, fewer);
        assert(times.drop_last() =~= Seq::new(fewer, |i: int| b.last));
        let (before, g) = granted(b, times.drop_last());
        assert(before.elapsed(b.last) * before.rate == 0) by (nonlinear_arith)
            requires
                before.elapsed(b.last) == 0,
        ;
        let rate = b.rate;
        assert(rate * TOKEN - g * TOKEN == (rate - g) * TOKEN) by (nonlinear_arith);
        assert((g + 1) * TOKEN == g * TOKEN + TOKEN) by (nonlinear_arith);
        if fewer < rate {
            assert((rate - g) * TOKEN >= TOKEN) by (nonlinear_arith)
                requires
                    rate - g >= 1,
            ;
        }
        assert(g * TOKEN >= 0) by (nonlinear_arith)
            requires
                g >= 0,
        ;
    } else {
        assert(0 * TOKEN == 0) by (nonlinear_arith);
    }
}

/// Who waits as long as they are told finds a token, if nobody else asked
/// meanwhile, and would have found none a nanosecond earlier.
pub proof fn waiting_brings_a_token(b: Bucket, now: int)
    requires
        b.wf(),
        b.last <= now,
        !b.has_token(now),
    ensures
        b.asked(now).has_token(now + b.wait(now)),
        !b.asked(now).has_token(now + b.wait(now) - 1),
{
    let after = b.asked(now);
    asking_keeps_the_bucket(b, now);
    let missing = TOKEN - after.credit;
    let w = b.wait(now);
    let rate = b.rate;
    vstd::arithmetic::div_mod::lemma_fundamental_div_mod(missing + rate - 1, rate);
    assert(w * rate >= missing && (w - 1) * rate < missing && w >= 1) by (nonlinear_arith)
        requires
            missing + rate - 1 == rate * w + (missing + rate - 1) % rate,
            0 <= (missing + rate - 1) % rate < rate,
            missing >= 1,
            rate >= 1,
    ;
    assert(after.capacity() >= TOKEN) by (nonlinear_arith)
        requires
            rate >= 1,
            after.capacity() == rate * TOKEN,
    ;
}

/// Pacing never rejects, and a session without a limiter is never held up.
pub proof fn pacing_never_rejects(bucket: Option<Bucket>, now: int, action: ThrottleAction)
    ensures
        admission(ThrottleAction::Pace, bucket, now) != InboundAdmit::Throttled,
        admission(action, None, now) == InboundAdmit::Proceed,
        !(admission(ThrottleAction::Reject, bucket, now) is Wait),
{
}

/// A bucket takes in its full rate for as long as nobody asks, in whatever time
/// that is, and stops at one second's worth. A clock that goes back brings in
/// nothing. There is a token where a whole one has come in.
pub proof fn a_bucket_fills_at_its_full_rate(b: Bucket, now: int)
    requires
        1 <= b.rate,
        0 <= b.credit <= b.rate * 1_000_000_000,
    ensures
        now >= b.last && b.credit + (now - b.last) * b.rate <= b.rate * 1_000_000_000
            ==> b.filled(now) == b.credit + (now - b.last) * b.rate,
        now >= b.last && b.credit + (now - b.last) * b.rate >= b.rate * 1_000_000_000
            ==> b.filled(now) == b.rate * 1_000_000_000,
        now <= b.last ==> b.filled(now) == b.credit,
        b.has_token(now) <==> b.filled(now) >= 1_000_000_000,
{
    if now <= b.last {
        assert(b.elapsed(now) * b.rate == 0) by (nonlinear_arith)
            requires
                b.elapsed(now) == 0,
        ;
    }
}

/// Asking takes one token where there is one and nothing where there is none,
/// and fills the bucket up to the moment of asking.
pub proof fn a_grant_takes_one_token(b: Bucket, now: int)
    ensures
        b.asked(now).rate == b.rate,
        b.asked(now).last == now,
        b.filled(now) >= 1_000_000_000 ==> b.asked(now).credit == b.filled(now) - 1_000_000_000,
        b.filled(now) < 1_000_000_000 ==> b.asked(now).credit == b.filled(now),
{
}

/// Asking in between changes nothing that comes in: what the bucket holds later
/// is what it would have held, less the token that was taken.
pub proof fn asking_in_between_loses_nothing(b: Bucket, t: int, now: int)
    requires
        1 <= b.rate,
        0 <= b.credit <= b.rate * 1_000_000_000,
        b.last <= t <= now,
    ensures
        b.filled(t) < 1_000_000_000 ==> b.asked(t).filled(now) == b.filled(now),
        1_000_000_000 <= b.filled(t) && b.credit + (now - b.last) * b.rate <= b.rate
            * 1_000_000_000 ==> b.asked(t).filled(now) == b.filled(now) - 1_000_000_000,
        b.asked(t).filled(now) >= b.filled(now) - 1_000_000_000,
{
    let rate = b.rate;
    assert((now - b.last) * rate == (t - b.last) * rate + (now - t) * rate && (now - t) * rate >= 0
        && (t - b.last) * rate >= 0) by (nonlinear_arith)
        requires
            b.last <= t <= now,
            rate >= 1,
    ;
    assert(rate * 1_000_000_000 >= 1_000_000_000) by (nonlinear_arith)
        requires
            rate >= 1,
    ;
    let after = b.asked(t);
    a_bucket_fills_at_its_full_rate(b, t);
    a_bucket_fills_at_its_full_rate(b, now);
    a_bucket_fills_at_its_full_rate(after, now);
}

proof fn full_bucket_bursts(b: Bucket, now: int, n: nat)
    requires
        1 <= b.rate,
        b.filled(now) == b.rate * 1_000_000_000,
    ensures
        ({
            let (after, g) = granted(b, Seq::new(n, |i: int| now));
            &&& g == if n <= b.rate {
                n as int
            } else {
                b.rate
            }
            &&& after.rate == b.rate
            &&& n > 0 ==> after.last == now && after.credit == b.rate * 1_000_000_000 - g
                * 1_000_000_000
            &&& n == 0 ==> after == b
        }),
    decreases n,
{
    let times = Seq::new(n, |i: int| now);
    if n > 0 {
        let fewer = (n - 1) as nat;
        full_bucket_bursts(b, now, fewer);
        assert(times.drop_last() =~= Seq::new(fewer, |i: int| now));
        let (before, g) = granted(b, times.drop_last());
        let rate = b.rate;
        assert(rate * 1_000_000_000 - g * 1_000_000_000 == (rate - g) * 1_000_000_000)
            by (nonlinear_arith);
        assert((g + 1) * 1_000_000_000 == g * 1_000_000_000 + 1_000_000_000) by (nonlinear_arith);
        if fewer > 0 {
            assert(g * 1_000_000_000 >= 0) by (nonlinear_arith)
                requires
                    g >= 0,
            ;
            a_bucket_fills_at_its_full_rate(before, now);
        }
        if fewer < rate {
            assert((rate - g) * 1_000_000_000 >= 1_000_000_000) by (nonlinear_arith)
                requires
                    rate - g >= 1,
            ;
        }
        assert(fewer >= rate ==> (rate - g) * 1_000_000_000 == 0);
    }
}

/// A bucket that nobody asks for one second is full again: of the messages that
/// arrive together, one second's worth passes, and no more.
pub proof fn an_idle_second_brings_a_full_burst(b: Bucket, now: int, n: nat)
    requires
        1 <= b.rate,
        0 <= b.credit <= b.rate * 1_000_000_000,
        now >= b.last + 1_000_000_000,
    ensures
        b.filled(now) == b.rate * 1_000_000_000,
        granted(b, Seq::new(n, |i: int| now)).1 == if n <= b.rate {
            n as int
        } else {
            b.rate
        },
{
    let rate = b.rate;
    let d = now - b.last;
    assert(d * rate >= rate * 1_000_000_000) by (nonlinear_arith)
        requires
            d >= 1_000_000_000,
            rate >= 1,
    ;
    a_bucket_fills_at_its_full_rate(b, now);
    full_bucket_bursts(b, now, n);
}

/// Whether each of `times` comes a token's time behind the one before it, and the
/// first a token's time behind `from`.
pub open spec fn keeps_the_rate(times: Seq<int>, from: int, rate: int) -> bool {
    forall|i: int|
        0 <= i < times.len() ==> (#[trigger] times[i] - if i == 0 {
            from
        } else {
            times[i - 1]
        }) * rate >= 1_000_000_000
}

/// Who stays within the rate is never throttled, however empty the bucket was.
pub proof fn who_keeps_the_rate_is_never_throttled(b: Bucket, times: Seq<int>)
    requires
        1 <= b.rate,
        0 <= b.credit <= b.rate * 1_000_000_000,
        keeps_the_rate(times, b.last, b.rate),
    ensures
        granted(b, times).1 == times.len(),
        granted(b, times).0.rate == b.rate,
        0 <= granted(b, times).0.credit <= b.rate * 1_000_000_000,
        granted(b, times).0.last == if times.len() == 0 {
            b.last
        } else {
            times.last()
        },
    decreases times.len(),
{
    if times.len() > 0 {
        let earlier = times.drop_last();
        assert forall|i: int| 0 <= i < earlier.len() implies (#[trigger] earlier[i] - if i == 0 {
            b.last
        } else {
            earlier[i - 1]
        }) * b.rate >= 1_000_000_000 by {
            assert(earlier[i] == times[i]);
        }
        who_keeps_the_rate_is_never_throttled(b, earlier);
        let before = granted(b, earlier).0;
        let now = times[times.len() - 1];
        let d = now - before.last;
        let rate = b.rate;
        assert(d * rate >= 1_000_000_000);
        assert(d >= 0) by (nonlinear_arith)
            requires
                d * rate >= 1_000_000_000,
                rate >= 1,
        ;
        assert(rate * 1_000_000_000 >= 1_000_000_000) by (nonlinear_arith)
            requires
                rate >= 1,
        ;
        a_bucket_fills_at_its_full_rate(before, now);
        a_grant_takes_one_token(before, now);
    }
}

/// A message is held up only for want of a token: with one it proceeds, without
/// one it is thrown back or waits, as the action says, for as long as the token
/// takes to come in and no longer.
pub proof fn a_message_is_held_up_only_for_want_of_a_token(b: Bucket, now: int)
    requires
        1 <= b.rate <= u32::MAX,
        0 <= b.credit <= b.rate * 1_000_000_000,
    ensures
        b.filled(now) >= 1_000_000_000 ==> admission(ThrottleAction::Pace, Some(b), now)
            == InboundAdmit::Proceed && admission(ThrottleAction::Reject, Some(b), now)
            == InboundAdmit::Proceed,
        b.filled(now) < 1_000_000_000 ==> admission(ThrottleAction::Reject, Some(b), now)
            == InboundAdmit::Throttled,
        b.filled(now) < 1_000_000_000 ==> (admission(ThrottleAction::Pace, Some(b), now) matches
            InboundAdmit::Wait(n) && b.filled(now) + n * b.rate >= 1_000_000_000 && b.filled(now)
            + (n - 1) * b.rate < 1_000_000_000),
{
    a_bucket_fills_at_its_full_rate(b, now);
    let filled = b.filled(now);
    let rate = b.rate;
    let e = b.elapsed(now);
    assert(e * rate >= 0) by (nonlinear_arith)
        requires
            e >= 0,
            rate >= 1,
    ;
    assert(rate * 1_000_000_000 >= 1_000_000_000) by (nonlinear_arith)
        requires
            rate >= 1,
    ;
    if filled < 1_000_000_000 {
        let missing = 1_000_000_000 - filled;
        let w = b.wait(now);
        vstd::arithmetic::div_mod::lemma_fundamental_div_mod(missing + rate - 1, rate);
        assert(w * rate >= missing && (w - 1) * rate < missing && 1 <= w <= missing)
            by (nonlinear_arith)
            requires
                missing + rate - 1 == rate * w + (missing + rate - 1) % rate,
                0 <= (missing + rate - 1) % rate < rate,
                missing >= 1,
                rate >= 1,
        ;
    }
}

} // verus!
