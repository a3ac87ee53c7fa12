//! Token-bucket rate limiter for outbound IRC writes.
//!
//! The bucket is denominated in bytes: its capacity is the burst size, and the
//! refill rate is the steady byte budget per second. The limiter holds no
//! clock: every call is told the time, in nanoseconds since some fixed origin.

use vstd::prelude::*;

verus! {

const NANOS_PER_MILLI: u128 = 1_000_000;

/// A token bucket, denominated in bytes.
#[derive(Debug, Clone, Copy, PartialEq, Eq)]
pub struct RateLimiter {
    capacity: u64,
    refill_per_sec: u64,
    available: u64,
    last_refill: u128,
}

/// The state of a bucket. `last_refill` is the time up to which refills have
/// been accounted for.
pub struct BucketState {
    pub capacity: int,
    pub rate: int,
    pub available: int,
    pub last_refill: int,
}

impl View for RateLimiter {
    type V = BucketState;

    closed spec fn view(&self) -> BucketState {
        BucketState {
            capacity: self.capacity as int,
            rate: self.refill_per_sec as int,
            available: self.available as int,
            last_refill: self.last_refill as int,
        }
    }
}

/// The answer to a request that is willing to wait.
#[derive(Debug, Clone, Copy, PartialEq, Eq, Structural)]
pub enum Grant {
    /// The tokens have been consumed.
    Granted,
    /// Not enough tokens: ask again after this many milliseconds.
    Wait(u64),
}

pub open spec fn smaller(a: int, b: int) -> int {
    if a <= b {
        a
    } else {
        b
    }
}

/// Whole milliseconds since the last refill, at most `u64::MAX`; none when the
/// clock went backwards.
pub open spec fn elapsed_ms(s: BucketState, now: int) -> int {
    if now <= s.last_refill {
        0
    } else {
        smaller((now - s.last_refill) / 1_000_000, u64::MAX as int)
    }
}

/// Tokens earned since the last refill: rate times time, in whole tokens.
pub open spec fn earned(s: BucketState, now: int) -> int {
    smaller(elapsed_ms(s, now) * s.rate, u64::MAX as int) / 1000
}

/// The bucket at time `now`. It never holds more than its capacity, and only
/// the time that whole tokens stand for is accounted for, so fractions of a
/// token add up towards the next one.
pub open spec fn refilled(s: BucketState, now: int) -> BucketState {
    if s.rate == 0 || earned(s, now) == 0 {
        s
    } else {
        BucketState {
            available: smaller(s.available + earned(s, now), s.capacity),
            last_refill: s.last_refill + (earned(s, now) * 1000 / s.rate) * 1_000_000,
            ..s
        }
    }
}

/// How many tokens a waiting request for `n` bytes takes: never more than the
/// bucket can hold.
pub open spec fn need(s: BucketState, n: int) -> int {
    smaller(n, s.capacity)
}

/// Milliseconds until `missing` tokens have been earned, rounded up; at least
/// 10 ms.
pub open spec fn wait_ms(missing: int, rate: int) -> int {
    let r = if rate == 0 {
        1
    } else {
        rate
    };
    let ms = (smaller(missing * 1000, u64::MAX as int) + r - 1) / r;
    if ms < 10 {
        10
    } else {
        ms
    }
}

impl RateLimiter {
    #[verifier::type_invariant]
    spec fn within_capacity(self) -> bool {
        self.available <= self.capacity
    }

    /// A new bucket. `capacity` is the maximum burst (in bytes);
    /// `refill_per_sec` is the steady byte budget per second. The bucket starts
    /// full.
    #[must_use]
    pub fn new(capacity: u64, refill_per_sec: u64, now: u128) -> (r: Self)
        ensures
            r@ == (BucketState {
                capacity: capacity as int,
                rate: refill_per_sec as int,
                available: capacity as int,
                last_refill: now as int,
            }),
    {
        RateLimiter { capacity, refill_per_sec, available: capacity, last_refill: now }
    }

    /// Tokens in the bucket, as of the last refill.
    pub fn available(&self) -> (n: u64)
        ensures
            n as int == self@.available,
            self@.available <= self@.capacity,
    {
        proof {
            use_type_invariant(self);
        }
        self.available
    }

    /// Try to consume `n` tokens immediately. Returns `true` if granted.
    pub fn try_consume(&mut self, n: u64, now: u128) -> (granted: bool)
        ensures
            ({
                let full = refilled(old(self)@, now as int);
                &&& granted == (full.available >= n)
                &&& final(self)@ == if granted {
                    BucketState { available: full.available - n, ..full }
                } else {
                    full
                }
            }),
    {
        self.refill(now);
        if self.available >= n {
            let left: u64 = self.available - n;
            proof {
                use_type_invariant(&*self);
            }
            self.available = left;
            true
        } else {
            false
        }
    }

    /// Consume `n` tokens, or say how long to wait before asking again. A
    /// request for more than `capacity` is granted once the full capacity is
    /// replenished, so it does not wait forever.
    pub fn wait_for(&mut self, n: u64, now: u128) -> (g: Grant)
        ensures
            ({
                let full = refilled(old(self)@, now as int);
                let wanted = need(full, n as int);
                &&& (g == Grant::Granted) == (full.available >= wanted)
                &&& final(self)@ == if g == Grant::Granted {
                    BucketState { available: full.available - wanted, ..full }
                } else {
                    full
                }
                &&& g matches Grant::Wait(ms) ==> ms == wait_ms(
                    wanted - full.available,
                    full.rate,
                )
            }),
    {
        self.refill(now);
        proof {
            use_type_invariant(&*self);
        }
        let wanted: u64 = if n <= self.capacity { n } else { self.capacity };
        if self.available >= wanted {
            let left: u64 = self.available - wanted;
            self.available = left;
            return Grant::Granted;
        }
        let missing: u64 = wanted - self.available;
        let rate: u64 = if self.refill_per_sec == 0 { 1 } else { self.refill_per_sec };
        let total: u128 = missing as u128 * 1000;
        let capped: u128 = if total <= u64::MAX as u128 { total } else { u64::MAX as u128 };
        let ms128: u128 = (capped + rate as u128 - 1) / rate as u128;
        proof {
            let c = capped as int;
            let r = rate as int;
            assert((c + r - 1) / r <= u64::MAX) by (nonlinear_arith)
                requires
                    0 <= c <= u64::MAX,
                    r >= 1,
            ;
        }
        let ms: u64 = ms128 as u64;
        Grant::Wait(if ms < 10 { 10 } else { ms })
    }

    /// Add the tokens earned since the last refill.
    fn refill(&mut self, now: u128)
        ensures
            final(self)@ == refilled(old(self)@, now as int),
    {
        proof {
            use_type_invariant(&*self);
        }
        if self.refill_per_sec == 0 || now <= self.last_refill {
            assert(earned(self@, now as int) == 0 || self@.rate == 0);
            return;
        }
        let ms: u128 = (now - self.last_refill) / NANOS_PER_MILLI;
        let elapsed: u128 = if ms <= u64::MAX as u128 { ms } else { u64::MAX as u128 };
        let rate: u128 = self.refill_per_sec as u128;
        proof {
            assert(elapsed * rate <= 0xffff_ffff_ffff_ffff * 0xffff_ffff_ffff_ffff)
                by (nonlinear_arith)
                requires
                    0 <= elapsed <= 0xffff_ffff_ffff_ffff,
                    0 <= rate <= 0xffff_ffff_ffff_ffff,
            ;
        }
        let product: u128 = elapsed * rate;
        let capped: u128 = if product <= u64::MAX as u128 { product } else { u64::MAX as u128 };
        let tokens: u128 = capped / 1000;
        if tokens > 0 {
            let sum: u128 = self.available as u128 + tokens;
            let available: u64 = if sum <= self.capacity as u128 {
                sum as u64
            } else {
                self.capacity
            };
            let accounted: u128 = tokens * 1000 / rate;
            proof {
                let t = tokens as int;
                let r = rate as int;
                let e = elapsed as int;
                let c = capped as int;
                assert(t * 1000 <= c);
                assert(c <= e * r);
                assert((t * 1000) / r <= e) by (nonlinear_arith)
                    requires
                        t * 1000 <= e * r,
                        r >= 1,
                        0 <= t,
                ;
            }
            let last_refill: u128 = self.last_refill + accounted * NANOS_PER_MILLI;
            self.available = available;
            self.last_refill = last_refill;
        }
    }
}

// ----- laws ------------------------------------------------------------------

/// A refill never lifts the bucket over its capacity, never takes tokens away,
/// and never accounts for time that has not passed.
pub proof fn refill_is_bounded(s: BucketState, now: int)
    requires
        0 <= s.available <= s.capacity,
        0 <= s.rate,
        s.last_refill <= now,
    ensures
        s.available <= refilled(s, now).available <= s.capacity,
        s.last_refill <= refilled(s, now).last_refill <= now,
{
    let e = elapsed_ms(s, now);
    let t = earned(s, now);
    let r = s.rate;
    assert(e * r >= 0) by (nonlinear_arith)
        requires
            e >= 0,
            r >= 0,
    ;
    if r > 0 && t > 0 {
        assert(t * 1000 <= e * r);
        assert(0 <= (t * 1000) / r <= e) by (nonlinear_arith)
            requires
                t * 1000 <= e * r,
                r >= 1,
                0 <= t,
        ;
        assert(e * 1_000_000 <= now - s.last_refill);
    }
}

/// Whoever is told to wait, and asks again when that time has passed, is granted.
/// The bucket refills at all, the clock does not go back, and the tokens that are
/// missing can be counted in thousandths.
pub proof fn waiting_is_enough(s: BucketState, n: int, now: int, later: int)
    requires
        0 <= s.available <= s.capacity,
        0 < s.rate <= u64::MAX,
        s.last_refill <= now,
        0 <= n,
        ({
            let full = refilled(s, now);
            let missing = need(full, n) - full.available;
            &&& missing > 0
            &&& missing * 1000 <= u64::MAX
            &&& later >= now + wait_ms(missing, full.rate) * 1_000_000
        }),
    ensures
        refilled(refilled(s, now), later).available >= need(s, n),
{
    let full = refilled(s, now);
    refill_is_bounded(s, now);
    let missing = need(full, n) - full.available;
    let r = s.rate;
    let w = wait_ms(missing, r);
    let ceil = (missing * 1000 + r - 1) / r;
    assert(ceil * r >= missing * 1000 && ceil <= missing * 1000) by (nonlinear_arith)
        requires
            ceil == (missing * 1000 + r - 1) / r,
            r >= 1,
            missing > 0,
    ;
    let e = elapsed_ms(full, later);
    assert(later - full.last_refill >= w * 1_000_000);
    assert((later - full.last_refill) / 1_000_000 >= w);
    assert(e >= w);
    assert(e * r >= missing * 1000) by (nonlinear_arith)
        requires
            e >= w,
            w >= ceil,
            ceil * r >= missing * 1000,
            r >= 1,
    ;
    assert(earned(full, later) >= missing);
}

/// A waiting request for more than the capacity is granted as soon as the
/// bucket is full: it never waits forever.
pub proof fn full_bucket_grants_any_request(s: BucketState, n: int)
    requires
        s.available == s.capacity,
    ensures
        s.available >= need(s, n),
{
}

} // verus!
