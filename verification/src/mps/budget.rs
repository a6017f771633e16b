//! Power budgets of CPU packages.
//!
//! A package has a long-term and a short-term power limit. The power over a sliding
//! window of energy samples is held against each.

use vstd::prelude::*;

verus! {

/// Number of samples in a window.
pub const WINDOW_SAMPLES: usize = 64;

/// Power limits of a package.
#[derive(Clone, Copy, Debug, PartialEq, Eq, Structural)]
pub struct PowerLimits {
    /// Sustained power limit in milliwatts.
    pub pl1_mw: u32,
    /// Window of the sustained limit in milliseconds.
    pub pl1_window_ms: u32,
    /// Burst power limit in milliwatts.
    pub pl2_mw: u32,
    /// Window of the burst limit in milliseconds.
    pub pl2_window_ms: u32,
    /// The sustained limit is enforced.
    pub pl1_enabled: bool,
    /// The burst limit is enforced.
    pub pl2_enabled: bool,
}

impl Default for PowerLimits {
    /// 65 W over 8 s, and 1.25 times that over 2.5 s.
    fn default() -> (l: Self)
        ensures
            l == (PowerLimits {
                pl1_mw: 65_000,
                pl1_window_ms: 8_000,
                pl2_mw: 81_250,
                pl2_window_ms: 2_500,
                pl1_enabled: true,
                pl2_enabled: true,
            }),
    {
        PowerLimits {
            pl1_mw: 65_000,
            pl1_window_ms: 8_000,
            pl2_mw: 81_250,
            pl2_window_ms: 2_500,
            pl1_enabled: true,
            pl2_enabled: true,
        }
    }
}

/// Sum of samples.
pub open spec fn sum_of(s: Seq<u32>) -> int
    decreases s.len(),
{
    if s.len() == 0 {
        0
    } else {
        sum_of(s.drop_last()) + s.last()
    }
}

/// Sums of parts add up.
proof fn lemma_sum_concat(a: Seq<u32>, b: Seq<u32>)
    ensures
        sum_of(a + b) == sum_of(a) + sum_of(b),
    decreases b.len(),
{
    if b.len() == 0 {
        assert(a + b =~= a);
    } else {
        assert((a + b).drop_last() =~= a + b.drop_last());
        lemma_sum_concat(a, b.drop_last());
    }
}

/// Sums are not negative.
proof fn lemma_sum_nonneg(s: Seq<u32>)
    ensures
        sum_of(s) >= 0,
    decreases s.len(),
{
    if s.len() > 0 {
        lemma_sum_nonneg(s.drop_last());
    }
}

/// What an energy window holds.
#[verifier::ext_equal]
pub struct WindowState {
    /// The latest samples in millijoules, oldest first.
    pub recent: Seq<u32>,
    /// Sample period in milliseconds.
    pub period_ms: u32,
}

impl WindowState {
    /// The window after one more sample: the oldest one leaves a full window.
    pub open spec fn pushed(self, energy_mj: u32) -> WindowState {
        WindowState {
            recent: if self.recent.len() < WINDOW_SAMPLES {
                self.recent.push(energy_mj)
            } else {
                self.recent.drop_first().push(energy_mj)
            },
            ..self
        }
    }

    /// Energy of the window, at most the greatest value of the type.
    pub open spec fn total_mj(self) -> u32 {
        if sum_of(self.recent) <= u32::MAX {
            sum_of(self.recent) as u32
        } else {
            u32::MAX
        }
    }

    /// Milliseconds that the window spans.
    pub open spec fn span_ms(self) -> int {
        self.recent.len() * self.period_ms
    }

    /// Average power of the window in milliwatts, zero for an empty window.
    pub open spec fn average_mw(self) -> u32 {
        if self.span_ms() == 0 {
            0
        } else {
            ((self.total_mj() * 1000 / self.span_ms()) as u64) as u32
        }
    }
}

/// A sliding window of energy samples in a circular buffer.
pub struct EnergyWindow {
    samples: [u32; 64],
    write_idx: u32,
    valid_count: u32,
    /// Sample period in milliseconds.
    pub sample_period_ms: u32,
}

impl View for EnergyWindow {
    type V = WindowState;

    closed spec fn view(&self) -> WindowState {
        let s = self.samples@;
        let w = self.write_idx as int % 64;
        WindowState {
            recent: if self.valid_count < 64 {
                s.take(self.valid_count as int)
            } else {
                s.skip(w) + s.take(w)
            },
            period_ms: self.sample_period_ms,
        }
    }
}

impl EnergyWindow {
    /// The buffer is filled from its start before it wraps around.
    pub closed spec fn wf(&self) -> bool {
        &&& self.valid_count <= 64
        &&& self.valid_count < 64 ==> self.write_idx == self.valid_count
    }

    /// A window holds a limited number of samples.
    pub proof fn holds_at_most_64(&self)
        requires
            self.wf(),
        ensures
            self@.recent.len() <= 64,
    {
    }

    /// Makes an empty window.
    pub fn new(sample_period_ms: u32) -> (w: Self)
        ensures
            w.wf(),
            w@ == (WindowState { recent: Seq::empty(), period_ms: sample_period_ms }),
    {
        let w = EnergyWindow { samples: [0;64], write_idx: 0, valid_count: 0, sample_period_ms };
        assert(w@.recent =~= Seq::empty());
        w
    }

    /// Adds the energy since the last sample, in millijoules.
    pub fn push(&mut self, energy_mj: u32)
        requires
            old(self).wf(),
        ensures
            final(self).wf(),
            final(self)@ == old(self)@.pushed(energy_mj),
    {
        let idx: usize = self.write_idx as usize % 64;
        self.write_idx = self.write_idx.wrapping_add(1);
        self.samples[idx] = energy_mj;
        if self.valid_count < 64 {
            self.valid_count = self.valid_count + 1;
        }
        proof {
            let s = old(self).samples@;
            let t = self.samples@;
            assert(t == s.update(idx as int, energy_mj));
            assert(self@.recent =~= old(self)@.pushed(energy_mj).recent);
        }
    }

    /// Energy of the window in millijoules.
    pub fn total_mj(&self) -> (r: u32)
        requires
            self.wf(),
        ensures
            r == self@.total_mj(),
    {
        let count: usize = if self.valid_count < 64 {
            self.valid_count as usize
        } else {
            64
        };
        let mut sum: u32 = 0;
        let mut i: usize = 0;
        while i < count
            invariant
                i <= count <= 64,
                sum == if sum_of(self.samples@.take(i as int)) <= u32::MAX {
                    sum_of(self.samples@.take(i as int))
                } else {
                    u32::MAX as int
                },
            decreases count - i,
        {
            assert(self.samples@.take(i + 1).drop_last() =~= self.samples@.take(i as int));
            sum = sum.saturating_add(self.samples[i]);
            i += 1;
        }
        proof {
            let s = self.samples@;
            if self.valid_count == 64 {
                let w = self.write_idx as int % 64;
                assert(s.take(64) =~= s.take(w) + s.skip(w));
                lemma_sum_concat(s.take(w), s.skip(w));
                lemma_sum_concat(s.skip(w), s.take(w));
            }
        }
        sum
    }

    /// Average power of the window in milliwatts.
    pub fn average_power_mw(&self) -> (r: u32)
        requires
            self.wf(),
            self@.span_ms() <= u32::MAX,
        ensures
            r == self@.average_mw(),
    {
        let count: u32 = if self.valid_count < 64 {
            self.valid_count
        } else {
            64
        };
        if count == 0 {
            return 0;
        }
        let total: u32 = self.total_mj();
        assert(count == self@.recent.len());
        let window_ms: u32 = count * self.sample_period_ms;
        if window_ms == 0 {
            return 0;
        }
        #[verifier::truncate] ((total as u64 * 1000 / window_ms as u64) as u32)
    }
}

/// What a package budget holds.
#[verifier::ext_equal]
pub struct BudgetState {
    /// Power limits.
    pub limits: PowerLimits,
    /// Window of the sustained limit.
    pub long_term: WindowState,
    /// Window of the burst limit.
    pub short_term: WindowState,
    /// The sustained limit is exceeded.
    pub pl1_exceeded: bool,
    /// The burst limit is exceeded.
    pub pl2_exceeded: bool,
    /// Times that the sustained limit was exceeded, modulo the counter.
    pub pl1_violations: u64,
    /// Times that the burst limit was exceeded, modulo the counter.
    pub pl2_violations: u64,
    /// Power left under the sustained limit.
    pub headroom: u32,
}

impl BudgetState {
    /// The sustained limit is enforced and exceeded.
    pub open spec fn over_pl1(self) -> bool {
        self.limits.pl1_enabled && self.long_term.average_mw() > self.limits.pl1_mw
    }

    /// The burst limit is enforced and exceeded.
    pub open spec fn over_pl2(self) -> bool {
        self.limits.pl2_enabled && self.short_term.average_mw() > self.limits.pl2_mw
    }

    /// The budget after a check. A limit that is not enforced is left as it is.
    pub open spec fn checked(self) -> BudgetState {
        BudgetState {
            pl1_exceeded: if self.limits.pl1_enabled {
                self.over_pl1()
            } else {
                self.pl1_exceeded
            },
            pl2_exceeded: if self.limits.pl2_enabled {
                self.over_pl2()
            } else {
                self.pl2_exceeded
            },
            pl1_violations: if self.over_pl1() {
                self.pl1_violations.wrapping_add(1)
            } else {
                self.pl1_violations
            },
            pl2_violations: if self.over_pl2() {
                self.pl2_violations.wrapping_add(1)
            } else {
                self.pl2_violations
            },
            headroom: if !self.limits.pl1_enabled {
                self.headroom
            } else if self.over_pl1() {
                0
            } else {
                (self.limits.pl1_mw - self.long_term.average_mw()) as u32
            },
            ..self
        }
    }
}

/// Sample period for a window.
pub open spec fn sample_period(window_ms: u32) -> u32 {
    if window_ms < 64 {
        1
    } else {
        (window_ms / 64) as u32
    }
}

/// Controller of the power budget of a package.
pub struct PackageBudget {
    /// Power limits.
    pub limits: PowerLimits,
    /// Window of the sustained limit.
    pub long_term: EnergyWindow,
    /// Window of the burst limit.
    pub short_term: EnergyWindow,
    /// The sustained limit is exceeded.
    pub pl1_exceeded: bool,
    /// The burst limit is exceeded.
    pub pl2_exceeded: bool,
    /// Times that the sustained limit was exceeded.
    pub pl1_violations: u64,
    /// Times that the burst limit was exceeded.
    pub pl2_violations: u64,
    /// Power left under the sustained limit.
    pub headroom_mw: u32,
}

impl View for PackageBudget {
    type V = BudgetState;

    open spec fn view(&self) -> BudgetState {
        BudgetState {
            limits: self.limits,
            long_term: self.long_term@,
            short_term: self.short_term@,
            pl1_exceeded: self.pl1_exceeded,
            pl2_exceeded: self.pl2_exceeded,
            pl1_violations: self.pl1_violations,
            pl2_violations: self.pl2_violations,
            headroom: self.headroom_mw,
        }
    }
}

impl PackageBudget {
    /// Both windows are well formed and span what the type can hold.
    pub open spec fn wf(&self) -> bool {
        &&& self.long_term.wf()
        &&& self.short_term.wf()
        &&& self.long_term@.period_ms <= 0x3ff_ffff
        &&& self.short_term@.period_ms <= 0x3ff_ffff
    }

    /// Makes a controller whose windows are empty.
    pub fn new(limits: PowerLimits) -> (b: Self)
        ensures
            b.wf(),
            b@ == (BudgetState {
                limits,
                long_term: WindowState {
                    recent: Seq::empty(),
                    period_ms: sample_period(limits.pl1_window_ms),
                },
                short_term: WindowState {
                    recent: Seq::empty(),
                    period_ms: sample_period(limits.pl2_window_ms),
                },
                pl1_exceeded: false,
                pl2_exceeded: false,
                pl1_violations: 0,
                pl2_violations: 0,
                headroom: limits.pl1_mw,
            }),
    {
        let pl1_sample_period: u32 = limits.pl1_window_ms / 64;
        let pl2_sample_period: u32 = limits.pl2_window_ms / 64;
        PackageBudget {
            limits,
            long_term: EnergyWindow::new(
                if pl1_sample_period > 1 {
                    pl1_sample_period
                } else {
                    1
                },
            ),
            short_term: EnergyWindow::new(
                if pl2_sample_period > 1 {
                    pl2_sample_period
                } else {
                    1
                },
            ),
            pl1_exceeded: false,
            pl2_exceeded: false,
            pl1_violations: 0,
            pl2_violations: 0,
            headroom_mw: limits.pl1_mw,
        }
    }

    /// Holds the power against the limits. Whether a limit is exceeded.
    pub fn check(&mut self) -> (r: bool)
        requires
            old(self).wf(),
        ensures
            final(self).wf(),
            r == (old(self)@.over_pl1() || old(self)@.over_pl2()),
            final(self)@ == old(self)@.checked(),
    {
        proof {
            self.long_term.holds_at_most_64();
            self.short_term.holds_at_most_64();
            lemma_span(self.long_term@);
            lemma_span(self.short_term@);
        }
        let mut exceeded = false;
        if self.limits.pl1_enabled {
            let avg_power: u32 = self.long_term.average_power_mw();
            if avg_power > self.limits.pl1_mw {
                self.pl1_exceeded = true;
                self.pl1_violations = self.pl1_violations.wrapping_add(1);
                exceeded = true;
                self.headroom_mw = 0;
            } else {
                self.pl1_exceeded = false;
                self.headroom_mw = self.limits.pl1_mw - avg_power;
            }
        }
        if self.limits.pl2_enabled {
            let avg_power: u32 = self.short_term.average_power_mw();
            if avg_power > self.limits.pl2_mw {
                self.pl2_exceeded = true;
                self.pl2_violations = self.pl2_violations.wrapping_add(1);
                exceeded = true;
            } else {
                self.pl2_exceeded = false;
            }
        }
        exceeded
    }

    /// Power left under the sustained limit, in milliwatts.
    pub fn headroom(&self) -> (r: u32)
        ensures
            r == self@.headroom,
    {
        self.headroom_mw
    }

    /// Whether a limit was exceeded at the last check.
    pub fn is_over_budget(&self) -> (r: bool)
        ensures
            r == (self@.pl1_exceeded || self@.pl2_exceeded),
    {
        self.pl1_exceeded || self.pl2_exceeded
    }
}

/// A window of moderate period spans what the type can hold.
proof fn lemma_span(w: WindowState)
    requires
        w.recent.len() <= 64,
        w.period_ms <= 0x3ff_ffff,
    ensures
        0 <= w.span_ms() <= u32::MAX,
{
    assert(0 <= w.recent.len() * w.period_ms <= 64 * 0x3ff_ffff) by (nonlinear_arith)
        requires
            w.recent.len() <= 64,
            w.period_ms <= 0x3ff_ffff,
    ;
}

/// A sample counts until as many others followed as the window holds.
pub proof fn window_holds_the_latest_samples(w: WindowState, energy_mj: u32)
    requires
        w.recent.len() <= 64,
    ensures
        w.pushed(energy_mj).recent.last() == energy_mj,
        w.pushed(energy_mj).recent.len() <= 64,
        w.recent.len() < 64 ==> sum_of(w.pushed(energy_mj).recent) == sum_of(w.recent) + energy_mj,
        w.recent.len() == 64 ==> sum_of(w.pushed(energy_mj).recent) == sum_of(w.recent)
            - w.recent[0] + energy_mj,
{
    if w.recent.len() < 64 {
        assert(w.recent.push(energy_mj).drop_last() =~= w.recent);
    } else {
        let rest = w.recent.drop_first();
        assert(w.recent =~= seq![w.recent[0]] + rest);
        lemma_sum_concat(seq![w.recent[0]], rest);
        assert(seq![w.recent[0]].drop_last() =~= Seq::empty());
        assert(sum_of(seq![w.recent[0]]) == sum_of(Seq::empty()) + w.recent[0]);
        assert(rest.push(energy_mj).drop_last() =~= rest);
    }
}

/// While both limits are enforced, a check reports an excess exactly when the budget
/// says so afterwards, and there is headroom only below the sustained limit.
pub proof fn check_agrees_with_budget(b: BudgetState)
    requires
        b.limits.pl1_enabled,
        b.limits.pl2_enabled,
    ensures
        (b.over_pl1() || b.over_pl2()) == (b.checked().pl1_exceeded || b.checked().pl2_exceeded),
        b.checked().headroom > 0 ==> !b.checked().pl1_exceeded,
        b.checked().headroom + b.long_term.average_mw() == b.limits.pl1_mw || b.checked().headroom
            == 0,
{
}

/// The average power of a window is its energy over its time: a millijoule in a millisecond is
/// a watt. It is rounded down, and zero for an empty window.
pub proof fn average_power_is_energy_over_time(w: WindowState)
    requires
        sum_of(w.recent) <= u32::MAX,
        w.recent.len() * w.period_ms > 0,
        sum_of(w.recent) * 1000 / (w.recent.len() * w.period_ms) <= u32::MAX,
    ensures
        w.average_mw() * (w.recent.len() * w.period_ms) <= sum_of(w.recent) * 1000 < (w.average_mw()
            + 1) * (w.recent.len() * w.period_ms),
        (WindowState { recent: Seq::empty(), period_ms: w.period_ms }).average_mw() == 0,
{
    lemma_sum_nonnegative(w.recent);
    let t = w.recent.len() * w.period_ms;
    let x = sum_of(w.recent) * 1000;
    let q = x / t;
    vstd::arithmetic::div_mod::lemma_fundamental_div_mod(x, t);
    assert(q * t <= x < (q + 1) * t && q >= 0) by (nonlinear_arith)
        requires
            x == t * q + x % t,
            0 <= x % t < t,
            x >= 0,
    ;
    assert(0 * w.period_ms == 0);
}

proof fn lemma_sum_nonnegative(s: Seq<u32>)
    ensures
        sum_of(s) >= 0,
    decreases s.len(),
{
    if s.len() > 0 {
        lemma_sum_nonnegative(s.drop_last());
    }
}

/// A limit is exceeded exactly if it is on and the average of its window is above it: the
/// long window for the first, the short one for the second. What is exceeded is counted, and
/// what is left of the first limit is the headroom.
pub proof fn limits_are_held_against_their_windows(b: BudgetState)
    requires
        b.pl1_violations < u64::MAX,
        b.pl2_violations < u64::MAX,
    ensures
        ({
            let c = b.checked();
            let long = b.long_term.average_mw();
            let short = b.short_term.average_mw();
            &&& b.limits.pl1_enabled ==> (c.pl1_exceeded <==> long > b.limits.pl1_mw)
            &&& b.limits.pl2_enabled ==> (c.pl2_exceeded <==> short > b.limits.pl2_mw)
            &&& b.limits.pl1_enabled && long > b.limits.pl1_mw ==> c.pl1_violations
                == b.pl1_violations + 1 && c.headroom == 0
            &&& b.limits.pl1_enabled && long <= b.limits.pl1_mw ==> c.pl1_violations
                == b.pl1_violations && c.headroom == b.limits.pl1_mw - long
            &&& b.limits.pl2_enabled && short > b.limits.pl2_mw ==> c.pl2_violations
                == b.pl2_violations + 1
            &&& b.limits.pl2_enabled && short <= b.limits.pl2_mw ==> c.pl2_violations
                == b.pl2_violations
            &&& !b.limits.pl1_enabled ==> c.pl1_exceeded == b.pl1_exceeded && c.pl1_violations
                == b.pl1_violations && c.headroom == b.headroom
            &&& !b.limits.pl2_enabled ==> c.pl2_exceeded == b.pl2_exceeded && c.pl2_violations
                == b.pl2_violations
            &&& c.limits == b.limits && c.long_term == b.long_term && c.short_term == b.short_term
        }),
{
}

/// The 64 samples of a window span its time, in whole milliseconds, of which there is at least
/// one for each.
pub proof fn samples_span_the_window(window_ms: u32)
    ensures
        sample_period(window_ms) >= 1,
        window_ms >= 64 ==> 64 * sample_period(window_ms) <= window_ms < 64 * (sample_period(
            window_ms,
        ) + 1),
        window_ms < 64 ==> sample_period(window_ms) == 1,
{
}

/// The total of a window is the sum of its samples, cut at what its type can hold.
pub proof fn total_is_the_sum_of_samples(w: WindowState, energy_mj: u32)
    requires
        w.recent.len() < 64,
        sum_of(w.recent) + energy_mj <= u32::MAX,
    ensures
        w.pushed(energy_mj).total_mj() == w.total_mj() + energy_mj,
        (WindowState { recent: Seq::empty(), period_ms: w.period_ms }).total_mj() == 0,
{
    window_holds_the_latest_samples(w, energy_mj);
    lemma_sum_nonnegative(w.recent);
}

} // verus!
