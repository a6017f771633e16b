//! Idle states of a CPU.
//!
//! The governor predicts how long a CPU stays idle, corrects the prediction by how
//! accurate the last ones were, and picks the deepest state that pays off.

use vstd::prelude::*;

verus! {

/// Number of idle states.
pub const NUM_CSTATES: usize = 6;

/// An idle state.
#[derive(Clone, Copy, Debug)]
pub struct CStateInfo {
    /// Index: zero is active, and deeper states have a greater index.
    pub index: u8,
    /// Name.
    pub name: &'static str,
    /// Microseconds to return to the active state.
    pub exit_latency_us: u32,
    /// Microseconds that the CPU has to stay for the state to pay off.
    pub target_residency_us: u32,
    /// Power relative to the active state, which has 1000.
    pub power_usage: u32,
}

/// Exit latencies in microseconds by index.
pub const EXIT_LATENCY_US: [u32; 6] = [0, 1, 10, 100, 200, 300];

/// Target residencies in microseconds by index.
pub const TARGET_RESIDENCY_US: [u32; 6] = [0, 2, 20, 300, 800, 1500];

/// Relative power by index.
pub const POWER_USAGE: [u32; 6] = [1000, 700, 500, 200, 50, 20];

/// Name of an idle state.
pub open spec fn cstate_name(index: u8) -> Seq<char> {
    match index {
        0 => "C0-Active"@,
        1 => "C1-Halt"@,
        2 => "C1E-EnhHalt"@,
        3 => "C3-Sleep"@,
        4 => "C6-DeepSleep"@,
        _ => "C7-PackageSleep"@,
    }
}

/// The idle state with an index.
pub fn cstate_info(index: u8) -> (r: Option<CStateInfo>)
    ensures
        r is Some <==> index < NUM_CSTATES,
        r matches Some(c) ==> {
            &&& c.index == index
            &&& c.name@ == cstate_name(index)
            &&& c.exit_latency_us == EXIT_LATENCY_US@[index as int]
            &&& c.target_residency_us == TARGET_RESIDENCY_US@[index as int]
            &&& c.power_usage == POWER_USAGE@[index as int]
        },
{
    let i: usize = index as usize;
    if i >= NUM_CSTATES {
        return None;
    }
    let name = match index {
        0 => "C0-Active",
        1 => "C1-Halt",
        2 => "C1E-EnhHalt",
        3 => "C3-Sleep",
        4 => "C6-DeepSleep",
        _ => "C7-PackageSleep",
    };
    Some(
        CStateInfo {
            index,
            name,
            exit_latency_us: EXIT_LATENCY_US[i],
            target_residency_us: TARGET_RESIDENCY_US[i],
            power_usage: POWER_USAGE[i],
        },
    )
}

/// The state pays off for an idle time: leaving it takes less than half of the time,
/// and its residency is shorter.
pub open spec fn pays_off(index: int, idle_us: int) -> bool {
    &&& 2 * EXIT_LATENCY_US@[index] < idle_us
    &&& TARGET_RESIDENCY_US@[index] < idle_us
}

/// `s` is the deepest of the idle states up to `max_cstate` and before `n` that pays
/// off, or the active state if none does.
pub open spec fn is_deepest(n: int, idle_us: int, max_cstate: u32, s: int) -> bool {
    &&& 0 <= s < NUM_CSTATES
    &&& s > 0 ==> s < n && s <= max_cstate && pays_off(s, idle_us)
    &&& forall|k: int|
        1 <= k < n && k <= max_cstate && #[trigger] pays_off(k, idle_us) ==> k <= s
}

/// Least correction factor.
pub const MIN_CORRECTION: u32 = 256;

/// Greatest correction factor.
pub const MAX_CORRECTION: u32 = 4096;

/// Ratio of actual and predicted idle time with 1024 as one, kept in range.
pub open spec fn measured_factor(actual_us: u64, predicted_us: u64) -> int {
    let ratio = (actual_us * 1024) / (predicted_us as int);
    if ratio < MIN_CORRECTION {
        MIN_CORRECTION as int
    } else if ratio > MAX_CORRECTION {
        MAX_CORRECTION as int
    } else {
        ratio
    }
}

/// What a governor holds.
#[verifier::ext_equal]
pub struct CStateView {
    /// Last predicted idle time in microseconds.
    pub predicted_us: u64,
    /// Last actual idle time in microseconds.
    pub actual_us: u64,
    /// Correction factor, with 1024 as one.
    pub factor: u32,
    /// Microseconds in each state.
    pub time: Seq<u64>,
    /// Entries into each state.
    pub entries: Seq<u64>,
}

impl CStateView {
    /// A predicted idle time after the correction.
    pub open spec fn corrected(self, predicted_us: u64) -> int {
        (predicted_us * self.factor) / 1024
    }

    /// The correction factor after an actual idle time: seven parts of the old one
    /// and one part of the measured one.
    pub open spec fn next_factor(self, actual_us: u64) -> int {
        if self.predicted_us == 0 {
            self.factor as int
        } else {
            (self.factor * 7 + measured_factor(actual_us, self.predicted_us)) / 8
        }
    }
}

/// Governor of the idle states of a CPU.
pub struct CStateGovernor {
    /// Last predicted idle time in microseconds.
    pub last_predicted_us: u64,
    /// Last actual idle time in microseconds.
    pub last_actual_us: u64,
    /// Correction factor, with 1024 as one.
    pub correction_factor: u32,
    /// Microseconds in each state.
    pub time_in_state: [u64; 6],
    /// Entries into each state.
    pub entries: [u64; 6],
}

impl View for CStateGovernor {
    type V = CStateView;

    open spec fn view(&self) -> CStateView {
        CStateView {
            predicted_us: self.last_predicted_us,
            actual_us: self.last_actual_us,
            factor: self.correction_factor,
            time: self.time_in_state@,
            entries: self.entries@,
        }
    }
}

impl CStateGovernor {
    /// A governor that has predicted nothing.
    pub fn new() -> (g: Self)
        ensures
            g@ == (CStateView {
                predicted_us: 0,
                actual_us: 0,
                factor: 1024,
                time: Seq::new(6, |i: int| 0u64),
                entries: Seq::new(6, |i: int| 0u64),
            }),
    {
        let g = CStateGovernor {
            last_predicted_us: 0,
            last_actual_us: 0,
            correction_factor: 1024,
            time_in_state: [0;6],
            entries: [0;6],
        };
        assert(g@.time =~= Seq::new(6, |i: int| 0u64));
        assert(g@.entries =~= Seq::new(6, |i: int| 0u64));
        g
    }

    /// Picks the deepest idle state, up to `max_cstate`, that pays off for the
    /// predicted idle time after its correction.
    pub fn select(&mut self, predicted_idle_us: u64, max_cstate: u32) -> (r: u8)
        requires
            predicted_idle_us * old(self)@.factor <= u64::MAX,
        ensures
            is_deepest(
                NUM_CSTATES as int,
                old(self)@.corrected(predicted_idle_us),
                max_cstate,
                r as int,
            ),
            final(self)@ == (CStateView { predicted_us: predicted_idle_us, ..old(self)@ }),
    {
        self.last_predicted_us = predicted_idle_us;
        let corrected: u64 = predicted_idle_us * (self.correction_factor as u64) / 1024;
        let mut best_state: u8 = 0;
        let mut i: usize = 1;
        while i < NUM_CSTATES && i as u32 <= max_cstate
            invariant
                1 <= i <= NUM_CSTATES,
                i <= max_cstate + 1,
                best_state < i,
                is_deepest(i as int, corrected as int, max_cstate, best_state as int),
            decreases NUM_CSTATES - i,
        {
            let latency: u64 = EXIT_LATENCY_US[i] as u64;
            let residency: u64 = TARGET_RESIDENCY_US[i] as u64;
            if latency * 2 < corrected && residency < corrected {
                assert(pays_off(i as int, corrected as int));
                best_state = i as u8;
            }
            i += 1;
        }
        assert(is_deepest(NUM_CSTATES as int, corrected as int, max_cstate, best_state as int));
        best_state
    }

    /// Corrects the factor by an actual idle time.
    pub fn update(&mut self, actual_idle_us: u64)
        requires
            actual_idle_us * 1024 <= u64::MAX,
            old(self)@.factor * 7 + MAX_CORRECTION <= u32::MAX,
        ensures
            final(self)@ == (CStateView {
                actual_us: actual_idle_us,
                factor: old(self)@.next_factor(actual_idle_us) as u32,
                ..old(self)@
            }),
    {
        self.last_actual_us = actual_idle_us;
        let predicted: u64 = self.last_predicted_us;
        if predicted == 0 {
            return;
        }
        let old_factor: u32 = self.correction_factor;
        let ratio: u64 = (actual_idle_us * 1024) / predicted;
        let new_factor: u32 = if ratio < 256 {
            256
        } else if ratio > 4096 {
            4096
        } else {
            ratio as u32
        };
        let blended: u32 = (old_factor * 7 + new_factor) / 8;
        self.correction_factor = blended;
    }

    /// Notes that a state was entered. An unknown state is ignored.
    pub fn record_entry(&mut self, cstate_index: u8)
        ensures
            final(self)@ == (CStateView {
                entries: if cstate_index < NUM_CSTATES {
                    old(self)@.entries.update(
                        cstate_index as int,
                        old(self)@.entries[cstate_index as int].wrapping_add(1),
                    )
                } else {
                    old(self)@.entries
                },
                ..old(self)@
            }),
    {
        if (cstate_index as usize) < 6 {
            let i: usize = cstate_index as usize;
            self.entries[i] = self.entries[i].wrapping_add(1);
        }
        assert(self@ =~= CStateView {
            entries: if cstate_index < NUM_CSTATES {
                old(self)@.entries.update(
                    cstate_index as int,
                    old(self)@.entries[cstate_index as int].wrapping_add(1),
                )
            } else {
                old(self)@.entries
            },
            ..old(self)@
        });
    }

    /// Notes the time spent in a state. An unknown state is ignored.
    pub fn record_residency(&mut self, cstate_index: u8, duration_us: u64)
        ensures
            final(self)@ == (CStateView {
                time: if cstate_index < NUM_CSTATES {
                    old(self)@.time.update(
                        cstate_index as int,
                        old(self)@.time[cstate_index as int].wrapping_add(duration_us),
                    )
                } else {
                    old(self)@.time
                },
                ..old(self)@
            }),
    {
        if (cstate_index as usize) < 6 {
            let i: usize = cstate_index as usize;
            self.time_in_state[i] = self.time_in_state[i].wrapping_add(duration_us);
        }
        assert(self@ =~= CStateView {
            time: if cstate_index < NUM_CSTATES {
                old(self)@.time.update(
                    cstate_index as int,
                    old(self)@.time[cstate_index as int].wrapping_add(duration_us),
                )
            } else {
                old(self)@.time
            },
            ..old(self)@
        });
    }
}

/// There is one deepest state.
pub proof fn deepest_is_unique(idle_us: int, max_cstate: u32, a: int, b: int)
    requires
        is_deepest(NUM_CSTATES as int, idle_us, max_cstate, a),
        is_deepest(NUM_CSTATES as int, idle_us, max_cstate, b),
    ensures
        a == b,
{
    if a > 0 {
        assert(pays_off(a, idle_us));
    }
    if b > 0 {
        assert(pays_off(b, idle_us));
    }
}

/// A longer idle time never leads to a shallower state.
pub proof fn longer_idle_is_not_shallower(
    idle_a: int,
    idle_b: int,
    max_cstate: u32,
    a: int,
    b: int,
)
    requires
        idle_a <= idle_b,
        is_deepest(NUM_CSTATES as int, idle_a, max_cstate, a),
        is_deepest(NUM_CSTATES as int, idle_b, max_cstate, b),
    ensures
        a <= b,
{
    if a > 0 {
        assert(pays_off(a, idle_b));
    }
}

/// Deeper states use less power and take longer to leave.
pub proof fn deeper_states_save_power(a: int, b: int)
    requires
        0 <= a < b < NUM_CSTATES,
    ensures
        POWER_USAGE@[b] < POWER_USAGE@[a],
        EXIT_LATENCY_US@[b] > EXIT_LATENCY_US@[a],
        TARGET_RESIDENCY_US@[b] > TARGET_RESIDENCY_US@[a],
{
}

/// The correction factor stays in its range.
pub proof fn factor_stays_in_range(g: CStateView, actual_us: u64)
    requires
        MIN_CORRECTION <= g.factor <= MAX_CORRECTION,
    ensures
        MIN_CORRECTION <= g.next_factor(actual_us) <= MAX_CORRECTION,
{
}

/// Predictions that were too long lower the factor, and those that were too short
/// raise it.
pub proof fn factor_follows_accuracy(g: CStateView, actual_us: u64)
    requires
        g.predicted_us > 0,
        MIN_CORRECTION <= g.factor <= MAX_CORRECTION,
    ensures
        measured_factor(actual_us, g.predicted_us) <= g.factor ==> g.next_factor(actual_us)
            <= g.factor,
        measured_factor(actual_us, g.predicted_us) >= g.factor ==> g.next_factor(actual_us)
            >= g.factor,
{
}

/// A state pays off if the CPU stays idle for more than twice the time it takes to leave it
/// and for more than its target residency: from 3, 21, 301, 801 and 1501 microseconds on.
pub proof fn states_pay_off_in_order(idle_us: int)
    ensures
        pays_off(1, idle_us) <==> idle_us > 2,
        pays_off(2, idle_us) <==> idle_us > 20,
        pays_off(3, idle_us) <==> idle_us > 300,
        pays_off(4, idle_us) <==> idle_us > 800,
        pays_off(5, idle_us) <==> idle_us > 1500,
{
    assert(EXIT_LATENCY_US@[1] == 1 && EXIT_LATENCY_US@[2] == 10 && EXIT_LATENCY_US@[3] == 100
        && EXIT_LATENCY_US@[4] == 200 && EXIT_LATENCY_US@[5] == 300);
    assert(TARGET_RESIDENCY_US@[1] == 2 && TARGET_RESIDENCY_US@[2] == 20 && TARGET_RESIDENCY_US@[3]
        == 300 && TARGET_RESIDENCY_US@[4] == 800 && TARGET_RESIDENCY_US@[5] == 1500);
}

/// The state that is selected is the deepest that pays off and is allowed, and the active one
/// where none does.
pub proof fn deepest_state_that_pays_is_selected(idle_us: int, max_cstate: u32, s: int)
    requires
        is_deepest(6, idle_us, max_cstate, s),
    ensures
        idle_us > 1500 && max_cstate >= 5 ==> s == 5,
        800 < idle_us <= 1500 && max_cstate >= 4 ==> s == 4,
        300 < idle_us <= 800 && max_cstate >= 3 ==> s == 3,
        20 < idle_us <= 300 && max_cstate >= 2 ==> s == 2,
        2 < idle_us <= 20 && max_cstate >= 1 ==> s == 1,
        idle_us <= 2 || max_cstate == 0 ==> s == 0,
        s <= max_cstate,
        idle_us > 1500 && max_cstate <= 5 ==> s == max_cstate,
{
    states_pay_off_in_order(idle_us);
}

/// A prediction is corrected by a factor of which 1024 is one.
pub proof fn prediction_is_scaled(g: CStateView, predicted_us: u64)
    ensures
        g.factor == 1024 ==> g.corrected(predicted_us) == predicted_us,
        g.factor == 2048 ==> g.corrected(predicted_us) == 2 * predicted_us,
        g.corrected(predicted_us) * 1024 <= predicted_us * g.factor < (g.corrected(predicted_us) + 1)
            * 1024,
{
    let x = predicted_us * g.factor;
    assert((predicted_us * 1024) / 1024 == predicted_us);
    assert((predicted_us * 2048) / 1024 == 2 * predicted_us);
    assert((x / 1024) * 1024 <= x < (x / 1024 + 1) * 1024);
}

/// The factor moves an eighth of the way to the ratio of what was measured to what was
/// predicted, which counts as a quarter at least and as four at most. A prediction that was
/// right leaves a factor of one as it is, and none leaves every factor.
pub proof fn factor_learns_from_the_ratio(g: CStateView, actual_us: u64)
    ensures
        g.predicted_us == 0 ==> g.next_factor(actual_us) == g.factor,
        g.predicted_us > 0 ==> {
            let m = measured_factor(actual_us, g.predicted_us);
            &&& 8 * g.next_factor(actual_us) <= 7 * g.factor + m < 8 * g.next_factor(actual_us) + 8
            &&& 256 <= m <= 4096
            &&& 256 < m < 4096 ==> m * g.predicted_us <= actual_us * 1024 < (m + 1) * g.predicted_us
            &&& actual_us == g.predicted_us ==> m == 1024
            &&& actual_us == 2 * g.predicted_us ==> m == 2048
            &&& actual_us >= 4 * g.predicted_us ==> m == 4096
            &&& 4 * actual_us < g.predicted_us ==> m == 256
        },
{
    if g.predicted_us > 0 {
        let p = g.predicted_us as int;
        let x = actual_us * 1024;
        let q = x / p;
        vstd::arithmetic::div_mod::lemma_fundamental_div_mod(x, p);
        assert(q * p <= x < (q + 1) * p) by (nonlinear_arith)
            requires
                x == p * q + x % p,
                0 <= x % p < p,
        ;
        assert(x == 1024 * p ==> q == 1024) by (nonlinear_arith)
            requires
                q * p <= x < (q + 1) * p,
                p > 0,
        ;
        assert(x == 2048 * p ==> q == 2048) by (nonlinear_arith)
            requires
                q * p <= x < (q + 1) * p,
                p > 0,
        ;
        assert(x >= 4096 * p ==> q >= 4096) by (nonlinear_arith)
            requires
                q * p <= x < (q + 1) * p,
                p > 0,
        ;
        assert(x < 256 * p ==> q < 256) by (nonlinear_arith)
            requires
                q * p <= x < (q + 1) * p,
                p > 0,
        ;
    }
}

} // verus!
