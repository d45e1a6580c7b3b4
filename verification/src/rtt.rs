use vstd::prelude::*;

use vstd::arithmetic::power2::{pow2, lemma_pow2_pos, lemma_pow2_unfold};

verus! {

// The smoothed round-trip estimator and the retransmission timeout it
// yields: Jacobson's integer update, a timeout of srtt + 4 * rttvar clamped
// to the configured band, and exponential backoff under consecutive losses.

/// The largest round-trip sample the estimator takes, in milliseconds.
pub const MAX_RTT_SAMPLE_MS: u64 = 0x100000000;

/// The timeout before the first sample, in milliseconds.
pub const INITIAL_RTT_MS: u64 = 500;

/// The retransmission timeout `base`, doubled `retries` times and capped.
pub open spec fn backoff_spec(base: u64, retries: nat, max_rto: u64) -> int {
    vstd::math::min(max_rto as int, base * pow2(retries))
}

/// Smoothed round-trip state for one connection.
pub struct RttEstimator {
    srtt: u64,
    rttvar: u64,
    initialized: bool,
    min_rto: u64,
    max_rto: u64,
}

impl RttEstimator {
    pub closed spec fn srtt_spec(&self) -> u64 {
        self.srtt
    }

    pub closed spec fn rttvar_spec(&self) -> u64 {
        self.rttvar
    }

    pub closed spec fn initialized_spec(&self) -> bool {
        self.initialized
    }

    pub closed spec fn min_rto_spec(&self) -> u64 {
        self.min_rto
    }

    pub closed spec fn max_rto_spec(&self) -> u64 {
        self.max_rto
    }

    /// The estimates stay small enough that the timeout sum cannot wrap.
    pub open spec fn wf(&self) -> bool {
        &&& self.srtt_spec() <= MAX_RTT_SAMPLE_MS
        &&& self.rttvar_spec() <= MAX_RTT_SAMPLE_MS
        &&& 1 <= self.min_rto_spec() <= self.max_rto_spec()
        &&& self.max_rto_spec() <= u64::MAX / 2
    }

    /// A fresh estimator with the configured timeout band; before the first
    /// sample the round trip is taken to be `INITIAL_RTT_MS`.
    pub fn new(min_rto: u64, max_rto: u64) -> (r: Self)
        requires
            1 <= min_rto <= max_rto,
            max_rto <= u64::MAX / 2,
        ensures
            r.wf(),
            !r.initialized_spec(),
            r.srtt_spec() == INITIAL_RTT_MS,
            r.rttvar_spec() == 0,
            r.min_rto_spec() == min_rto,
            r.max_rto_spec() == max_rto,
    {
        RttEstimator { srtt: INITIAL_RTT_MS, rttvar: 0, initialized: false, min_rto, max_rto }
    }

    /// Feeds one unambiguous round-trip sample. Per Karn's rule the caller
    /// must not feed samples taken from retransmitted packets. The first
    /// sample seeds the estimate; later ones blend in with the weights
    /// 7/8 for the mean and 3/4 for the deviation.
    pub fn update(&mut self, rtt_ms: u64)
        requires
            old(self).wf(),
            rtt_ms <= MAX_RTT_SAMPLE_MS,
        ensures
            final(self).wf(),
            final(self).initialized_spec(),
            final(self).min_rto_spec() == old(self).min_rto_spec(),
            final(self).max_rto_spec() == old(self).max_rto_spec(),
            !old(self).initialized_spec() ==> final(self).srtt_spec() == rtt_ms
                && final(self).rttvar_spec() == rtt_ms / 2,
            old(self).initialized_spec() ==> {
                &&& final(self).srtt_spec() == (7 * old(self).srtt_spec() + rtt_ms) / 8
                &&& final(self).rttvar_spec() == (3 * old(self).rttvar_spec() + (if
                old(self).srtt_spec() >= rtt_ms {
                    old(self).srtt_spec() - rtt_ms
                } else {
                    rtt_ms - old(self).srtt_spec()
                })) / 4
            },
    {
        if !self.initialized {
            self.srtt = rtt_ms;
            self.rttvar = rtt_ms / 2;
            self.initialized = true;
        } else {
            let dev = if self.srtt >= rtt_ms {
                self.srtt - rtt_ms
            } else {
                rtt_ms - self.srtt
            };
            self.rttvar = (3 * self.rttvar + dev) / 4;
            self.srtt = (7 * self.srtt + rtt_ms) / 8;
        }
    }

    /// The current retransmission timeout: srtt + 4 * rttvar, clamped to
    /// the configured band.
    pub fn rto(&self) -> (r: u64)
        requires
            self.wf(),
        ensures
            r == vstd::math::max(
                self.min_rto_spec() as int,
                vstd::math::min(
                    self.max_rto_spec() as int,
                    self.srtt_spec() + 4 * self.rttvar_spec(),
                ),
            ),
            self.min_rto_spec() <= r <= self.max_rto_spec(),
    {
        let raw = self.srtt + 4 * self.rttvar;
        let capped = if raw > self.max_rto {
            self.max_rto
        } else {
            raw
        };
        if capped < self.min_rto {
            self.min_rto
        } else {
            capped
        }
    }
}

/// The timeout after `retries` consecutive losses: the base timeout doubled
/// once per loss, capped at `max_rto`.
pub fn backoff_rto(base: u64, retries: u64, max_rto: u64) -> (r: u64)
    requires
        1 <= base <= max_rto,
        max_rto <= u64::MAX / 2,
    ensures
        r == backoff_spec(base, retries as nat, max_rto),
{
    let mut cur: u64 = base;
    let mut i: u64 = 0;
    proof {
        vstd::arithmetic::power::lemma_pow0(2);
        assert(pow2(0) == 1);
    }
    while i < retries
        invariant
            i <= retries,
            1 <= base <= cur <= max_rto,
            max_rto <= u64::MAX / 2,
            cur == backoff_spec(base, i as nat, max_rto),
        decreases retries - i,
    {
        proof {
            lemma_backoff_step(base, i as nat, max_rto);
        }
        cur = if cur > max_rto / 2 {
            max_rto
        } else {
            cur * 2
        };
        i += 1;
    }
    cur
}

/// One more loss doubles the capped timeout, and the cap commutes with the
/// doubling: stepping the backed-off value matches the closed form.
pub proof fn lemma_backoff_step(base: u64, retries: nat, max_rto: u64)
    requires
        1 <= base <= max_rto,
    ensures
        backoff_spec(base, retries + 1, max_rto) == vstd::math::min(
            max_rto as int,
            2 * backoff_spec(base, retries, max_rto),
        ),
        backoff_spec(base, retries, max_rto) >= base,
{
    lemma_pow2_pos(retries);
    lemma_pow2_unfold(retries + 1);
    let x = base * pow2(retries);
    assert(x >= base) by (nonlinear_arith)
        requires
            base >= 1,
            pow2(retries) >= 1,
            x == base * pow2(retries),
    ;
    assert(base * pow2(retries + 1) == 2 * x) by (nonlinear_arith)
        requires
            pow2(retries + 1) == 2 * pow2(retries),
            x == base * pow2(retries),
    ;
}

} // verus!
