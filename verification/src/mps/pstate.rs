//! Performance states of a CPU: frequency and voltage scaling.

use vstd::prelude::*;

verus! {

/// Maximum number of performance states of a CPU.
pub const MAX_PSTATES: usize = 32;

/// Headroom over the utilisation, with 1024 as one.
pub const SCHEDUTIL_HEADROOM: u32 = 1280;

/// A performance state.
#[derive(Clone, Copy, Debug, PartialEq, Eq, Structural)]
pub struct PStateEntry {
    /// Index: zero has the highest performance.
    pub index: u8,
    /// Frequency in MHz.
    pub freq_mhz: u32,
    /// Voltage in millivolts.
    pub voltage_mv: u32,
    /// Power relative to the first state, which has 1000.
    pub power_ratio: u32,
}

/// Operating mode.
#[derive(Clone, Copy, Debug, PartialEq, Eq, Structural)]
pub enum PStateMode {
    /// The system picks from a table.
    TableDriven,
    /// The system sets a range and the hardware picks.
    HardwareManaged,
}

/// Frequencies of the default table in MHz.
pub const DEFAULT_FREQ_MHZ: [u32; 8] = [4000, 3500, 3000, 2500, 2000, 1500, 1000, 800];

/// Voltages of the default table in millivolts.
pub const DEFAULT_VOLTAGE_MV: [u32; 8] = [1100, 1050, 1000, 950, 900, 850, 800, 750];

/// Relative power of the default table.
pub const DEFAULT_POWER_RATIO: [u32; 8] = [1000, 750, 560, 400, 280, 180, 100, 65];

/// An entry of the default table. Entries after the default ones are zero.
pub open spec fn default_entry(i: int) -> PStateEntry {
    if i < 8 {
        PStateEntry {
            index: i as u8,
            freq_mhz: DEFAULT_FREQ_MHZ@[i],
            voltage_mv: DEFAULT_VOLTAGE_MV@[i],
            power_ratio: DEFAULT_POWER_RATIO@[i],
        }
    } else {
        PStateEntry { index: 0, freq_mhz: 0, voltage_mv: 0, power_ratio: 0 }
    }
}

/// What a controller holds.
#[verifier::ext_equal]
pub struct PStateView {
    /// Operating mode.
    pub mode: PStateMode,
    /// Number of states.
    pub num: u8,
    /// Table, highest frequency first.
    pub table: Seq<PStateEntry>,
    /// Current state.
    pub current: u32,
    /// Least index allowed.
    pub min: u32,
    /// Greatest index allowed.
    pub max: u32,
    /// Desired performance in hardware-managed mode.
    pub hwp_desired: u32,
    /// Energy preference in hardware-managed mode.
    pub hwp_epp: u32,
}

impl PStateView {
    /// A new controller with the default table.
    pub open spec fn initial() -> PStateView {
        PStateView {
            mode: PStateMode::TableDriven,
            num: 8,
            table: Seq::new(32, |i: int| default_entry(i)),
            current: 0,
            min: 0,
            max: 7,
            hwp_desired: 0,
            hwp_epp: 128,
        }
    }

    /// Frequency that a utilisation in thousandths asks for, with headroom.
    pub open spec fn target_freq(self, util: u32) -> int {
        let u = if util < 1000 {
            util as int
        } else {
            1000
        };
        (SCHEDUTIL_HEADROOM * self.table[0].freq_mhz * u) / 1_024_000
    }

    /// The state is allowed and its frequency meets the target.
    pub open spec fn meets(self, i: int, target: int) -> bool {
        &&& self.min as u8 <= i <= self.max as u8
        &&& i < self.num
        &&& self.table[i].freq_mhz >= target
    }

    /// `r` is the allowed state with the greatest index, and so with the lowest
    /// frequency, that meets the target, or the least index allowed if none does.
    pub open spec fn is_selected(self, target: int, r: int) -> bool {
        &&& forall|i: int| #[trigger] self.meets(i, target) ==> i <= r && self.meets(r, target)
        &&& (forall|i: int| !self.meets(i, target)) ==> r == self.min as u8
    }

    /// Frequency of a state, zero if there is none.
    pub open spec fn freq(self, i: int) -> u32 {
        if i < self.num {
            self.table[i].freq_mhz
        } else {
            0
        }
    }

    /// Relative power of a state, zero if there is none.
    pub open spec fn power(self, i: int) -> u32 {
        if i < self.num {
            self.table[i].power_ratio
        } else {
            0
        }
    }

    /// The least index that a thermal cap allows.
    pub open spec fn cap_index(self, cap: u8) -> u32 {
        if cap < self.num {
            cap as u32
        } else {
            (self.num - 1) as u32
        }
    }
}

/// Controller of the performance states of a CPU.
pub struct PStateController {
    /// Operating mode.
    pub mode: PStateMode,
    /// Number of states.
    pub num_pstates: u8,
    /// Table, highest frequency first.
    pub table: [PStateEntry; 32],
    /// Current state.
    pub current: u32,
    /// Least index allowed.
    pub min_pstate: u32,
    /// Greatest index allowed.
    pub max_pstate: u32,
    /// Desired performance in hardware-managed mode.
    pub hwp_desired: u32,
    /// Energy preference in hardware-managed mode.
    pub hwp_epp: u32,
}

impl View for PStateController {
    type V = PStateView;

    open spec fn view(&self) -> PStateView {
        PStateView {
            mode: self.mode,
            num: self.num_pstates,
            table: self.table@,
            current: self.current,
            min: self.min_pstate,
            max: self.max_pstate,
            hwp_desired: self.hwp_desired,
            hwp_epp: self.hwp_epp,
        }
    }
}

impl PStateController {
    /// The table holds all states.
    pub open spec fn wf(&self) -> bool {
        self.num_pstates <= MAX_PSTATES
    }

    /// Makes a controller with the default table.
    pub fn new() -> (c: Self)
        ensures
            c.wf(),
            c@ == PStateView::initial(),
    {
        let blank = PStateEntry { index: 0, freq_mhz: 0, voltage_mv: 0, power_ratio: 0 };
        let mut table: [PStateEntry; 32] = [blank;32];
        let mut i: usize = 0;
        while i < 8
            invariant
                i <= 8,
                forall|k: int| 0 <= k < i ==> #[trigger] table@[k] == default_entry(k),
                forall|k: int| i <= k < 32 ==> #[trigger] table@[k] == default_entry(8),
            decreases 8 - i,
        {
            table[i] =
            PStateEntry {
                index: i as u8,
                freq_mhz: DEFAULT_FREQ_MHZ[i],
                voltage_mv: DEFAULT_VOLTAGE_MV[i],
                power_ratio: DEFAULT_POWER_RATIO[i],
            };
            i += 1;
        }
        let c = PStateController {
            mode: PStateMode::TableDriven,
            num_pstates: 8,
            table,
            current: 0,
            min_pstate: 0,
            max_pstate: 7,
            hwp_desired: 0,
            hwp_epp: 128,
        };
        assert(c@.table =~= PStateView::initial().table);
        c
    }

    /// Picks the state for a utilisation in thousandths: of the allowed states whose
    /// frequency meets the target, the one with the lowest frequency.
    pub fn select_for_util(&self, util: u32) -> (r: u8)
        requires
            self.wf(),
        ensures
            self@.table[0].freq_mhz == 0 || self@.num == 0 ==> r == 0,
            self@.table[0].freq_mhz != 0 && self@.num != 0 ==> self@.is_selected(
                self@.target_freq(util),
                r as int,
            ),
    {
        let max_freq: u32 = self.table[0].freq_mhz;
        if max_freq == 0 || self.num_pstates == 0 {
            return 0;
        }
        let u: u64 = if util < 1000 {
            util as u64
        } else {
            1000
        };
        assert(1280 * max_freq * u <= 1280 * 0xffff_ffff * 1000) by (nonlinear_arith)
            requires
                max_freq <= 0xffff_ffff,
                u <= 1000,
        ;
        assert(1280 * max_freq <= 1280 * 0xffff_ffff);
        let target_freq: u64 = (SCHEDUTIL_HEADROOM as u64 * max_freq as u64 * u) / (1024 * 1000);
        let min_p: u8 = #[verifier::truncate] (self.min_pstate as u8);
        let max_p: u8 = #[verifier::truncate] (self.max_pstate as u8);
        let mut i: u8 = if max_p < self.num_pstates {
            max_p
        } else {
            self.num_pstates - 1
        };
        while i > min_p
            invariant
                self.wf(),
                0 < self.num_pstates,
                self@.table[0].freq_mhz != 0,
                target_freq == self@.target_freq(util),
                i < self.num_pstates,
                i <= max_p,
                min_p == self.min_pstate as u8,
                max_p == self.max_pstate as u8,
                forall|k: int| i < k ==> !#[trigger] self@.meets(k, target_freq as int),
            decreases i,
        {
            if self.table[i as usize].freq_mhz as u64 >= target_freq {
                assert(self@.meets(i as int, target_freq as int));
                assert(self@.is_selected(target_freq as int, i as int));
                return i;
            }
            i = i - 1;
        }
        assert(self@.is_selected(target_freq as int, min_p as int)) by {
            assert forall|k: int| #[trigger] self@.meets(k, target_freq as int) implies k <= min_p
                && self@.meets(min_p as int, target_freq as int) by {
                assert(k == min_p);
            }
        }
        min_p
    }

    /// Makes a state the current one, within the allowed range.
    pub fn set_target(&mut self, pstate: u8)
        requires
            old(self)@.min <= old(self)@.max,
        ensures
            final(self)@ == (PStateView {
                current: if pstate < old(self)@.min {
                    old(self)@.min
                } else if pstate > old(self)@.max {
                    old(self)@.max
                } else {
                    pstate as u32
                },
                ..old(self)@
            }),
    {
        let min_p: u32 = self.min_pstate;
        let max_p: u32 = self.max_pstate;
        let p: u32 = pstate as u32;
        self.current = if p < min_p {
            min_p
        } else if p > max_p {
            max_p
        } else {
            p
        };
    }

    /// Frequency of the current state in MHz, zero if there is no such state.
    pub fn apply(&self) -> (r: u32)
        requires
            self.wf(),
        ensures
            r == self@.freq(self@.current as int),
    {
        let pstate: usize = self.current as usize;
        if pstate < self.num_pstates as usize {
            self.table[pstate].freq_mhz
        } else {
            0
        }
    }

    /// Allows no state of a higher frequency than that of index `cap`.
    pub fn set_thermal_cap(&mut self, cap: u8)
        requires
            old(self)@.num > 0,
        ensures
            final(self)@ == (PStateView {
                min: old(self)@.cap_index(cap),
                current: if old(self)@.current < old(self)@.cap_index(cap) {
                    old(self)@.cap_index(cap)
                } else {
                    old(self)@.current
                },
                ..old(self)@
            }),
    {
        let last: u32 = self.num_pstates as u32 - 1;
        let new_min: u32 = if (cap as u32) < last {
            cap as u32
        } else {
            last
        };
        self.min_pstate = new_min;
        if self.current < new_min {
            self.current = new_min;
        }
    }

    /// Allows the full frequency range again.
    pub fn clear_thermal_cap(&mut self)
        ensures
            final(self)@ == (PStateView { min: 0, ..old(self)@ }),
    {
        self.min_pstate = 0;
    }

    /// Frequency of a state in MHz, zero if there is none.
    pub fn freq_for_pstate(&self, pstate: u8) -> (r: u32)
        requires
            self.wf(),
        ensures
            r == self@.freq(pstate as int),
    {
        if (pstate as usize) < self.num_pstates as usize {
            self.table[pstate as usize].freq_mhz
        } else {
            0
        }
    }

    /// Relative power of a state, zero if there is none.
    pub fn power_for_pstate(&self, pstate: u8) -> (r: u32)
        requires
            self.wf(),
        ensures
            r == self@.power(pstate as int),
    {
        if (pstate as usize) < self.num_pstates as usize {
            self.table[pstate as usize].power_ratio
        } else {
            0
        }
    }
}

/// At most one state is selected.
pub proof fn selection_is_unique(c: PStateView, target: int, a: int, b: int)
    requires
        c.is_selected(target, a),
        c.is_selected(target, b),
    ensures
        a == b,
{
    if exists|i: int| c.meets(i, target) {
        let i = choose|i: int| c.meets(i, target);
        assert(c.meets(i, target));
        assert(c.meets(a, target));
        assert(c.meets(b, target));
    }
}

/// In the default table frequency, voltage and power fall with the index.
pub proof fn default_table_falls(i: int, j: int)
    requires
        0 <= i < j < 8,
    ensures
        default_entry(j).freq_mhz < default_entry(i).freq_mhz,
        default_entry(j).voltage_mv < default_entry(i).voltage_mv,
        default_entry(j).power_ratio < default_entry(i).power_ratio,
{
}

/// The default headroom asks for the full frequency from four fifths of the
/// utilisation on, and no state but the first meets that.
pub proof fn high_utilisation_gets_full_frequency(util: u32, r: int)
    requires
        util >= 800,
        PStateView::initial().is_selected(PStateView::initial().target_freq(util), r),
    ensures
        r == 0,
{
    let c = PStateView::initial();
    let target = c.target_freq(util);
    assert(c.table[0].freq_mhz == 4000);
    let f = c.table[0].freq_mhz as int;
    let u = if util < 1000 {
        util as int
    } else {
        1000
    };
    assert(SCHEDUTIL_HEADROOM * f * u == 5_120_000 * u) by (nonlinear_arith)
        requires
            f == 4000,
    ;
    assert(target >= 4000);
    if exists|i: int| c.meets(i, target) {
        let i = choose|i: int| c.meets(i, target);
        assert(c.meets(r, target));
        assert(c.table[r] == default_entry(r));
    }
}

/// A higher utilisation never selects a lower frequency.
pub proof fn more_utilisation_is_not_slower(
    c: PStateView,
    util_a: u32,
    util_b: u32,
    a: int,
    b: int,
)
    requires
        util_a <= util_b,
        c.is_selected(c.target_freq(util_a), a),
        c.is_selected(c.target_freq(util_b), b),
    ensures
        b <= a,
{
    let f = (SCHEDUTIL_HEADROOM * c.table[0].freq_mhz) as int;
    let ua = if util_a < 1000 {
        util_a as int
    } else {
        1000
    };
    let ub = if util_b < 1000 {
        util_b as int
    } else {
        1000
    };
    assert(f * ua <= f * ub) by (nonlinear_arith)
        requires
            f >= 0,
            ua <= ub,
    ;
    let ta = c.target_freq(util_a);
    let tb = c.target_freq(util_b);
    assert(ta <= tb);
    if exists|i: int| c.meets(i, tb) {
        let i = choose|i: int| c.meets(i, tb);
        assert(c.meets(b, tb));
        assert(c.meets(b, ta));
    } else if exists|i: int| c.meets(i, ta) {
        let i = choose|i: int| c.meets(i, ta);
        assert(c.meets(a, ta));
    }
}

/// The frequency that a utilisation asks for is five quarters of the share of the highest one
/// that is in use, rounded down.
pub proof fn target_has_a_quarter_of_headroom(c: PStateView, util: u32, used: int)
    requires
        used == if util < 1000 {
            util as int
        } else {
            1000
        },
    ensures
        c.target_freq(util) * 4000 <= 5 * (c.table[0].freq_mhz * used) < (c.target_freq(util) + 1)
            * 4000,
{
    let f = c.table[0].freq_mhz as int;
    assert(1280 * f * used == 1280 * (f * used)) by (nonlinear_arith);
}

/// The state that is selected is the slowest allowed one that still reaches the target; where
/// no allowed one does, the fastest allowed one.
pub proof fn slowest_sufficient_state_is_selected(c: PStateView, target: int, r: int, i: int)
    requires
        c.is_selected(target, r),
        c.min <= i <= c.max <= 255,
        i < c.num,
    ensures
        c.table[i].freq_mhz >= target ==> i <= r <= c.max && c.min <= r < c.num
            && c.table[r].freq_mhz >= target,
        (forall|k: int| c.min <= k <= c.max && k < c.num ==> (#[trigger] c.table[k]).freq_mhz < target)
            ==> r == c.min,
{
    if c.table[i].freq_mhz >= target {
        assert(c.meets(i, target));
    }
    if forall|k: int|
        c.min <= k <= c.max && k < c.num ==> (#[trigger] c.table[k]).freq_mhz < target {
        assert forall|k: int| !#[trigger] c.meets(k, target) by {
            if c.meets(k, target) {
                assert(c.table[k].freq_mhz < target);
            }
        }
    }
}

/// The default table: eight states from 4 GHz down to 800 MHz, in steps of 500 MHz but the
/// last, at 1.1 V and 50 mV less for each step.
pub proof fn default_table_steps_down(i: int)
    requires
        0 <= i < 7,
    ensures
        PStateView::initial().num == 8,
        PStateView::initial().min == 0,
        PStateView::initial().max == 7,
        PStateView::initial().table[i] == default_entry(i),
        default_entry(0).freq_mhz == 4000,
        default_entry(0).voltage_mv == 1100,
        default_entry(0).power_ratio == 1000,
        default_entry(7).freq_mhz == 800,
        default_entry(7).power_ratio == 65,
        i < 6 ==> default_entry(i).freq_mhz - default_entry(i + 1).freq_mhz == 500,
        default_entry(i).voltage_mv - default_entry(i + 1).voltage_mv == 50,
        default_entry(i).index == i,
{
    assert(DEFAULT_FREQ_MHZ@[0] == 4000 && DEFAULT_FREQ_MHZ@[1] == 3500 && DEFAULT_FREQ_MHZ@[2]
        == 3000 && DEFAULT_FREQ_MHZ@[3] == 2500 && DEFAULT_FREQ_MHZ@[4] == 2000
        && DEFAULT_FREQ_MHZ@[5] == 1500 && DEFAULT_FREQ_MHZ@[6] == 1000 && DEFAULT_FREQ_MHZ@[7]
        == 800);
    assert(DEFAULT_VOLTAGE_MV@[0] == 1100 && DEFAULT_VOLTAGE_MV@[1] == 1050 && DEFAULT_VOLTAGE_MV@[2]
        == 1000 && DEFAULT_VOLTAGE_MV@[3] == 950 && DEFAULT_VOLTAGE_MV@[4] == 900
        && DEFAULT_VOLTAGE_MV@[5] == 850 && DEFAULT_VOLTAGE_MV@[6] == 800 && DEFAULT_VOLTAGE_MV@[7]
        == 750);
}

/// A cap beyond the table is the slowest state; frequencies and powers are those of the table,
/// and zero beyond it.
pub proof fn table_is_looked_up(c: PStateView, i: int, cap: u8)
    requires
        0 < c.num <= 32,
        0 <= i,
    ensures
        cap < c.num ==> c.cap_index(cap) == cap,
        cap >= c.num ==> c.cap_index(cap) == c.num - 1,
        i < c.num ==> c.freq(i) == c.table[i].freq_mhz && c.power(i) == c.table[i].power_ratio,
        i >= c.num ==> c.freq(i) == 0 && c.power(i) == 0,
{
}

} // verus!
