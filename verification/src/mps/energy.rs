//! Energy models for task placement.

use vstd::prelude::*;

verus! {

/// An operating point.
#[derive(Clone, Copy, Debug, PartialEq, Eq, Structural)]
pub struct Opp {
    /// Frequency in MHz.
    pub freq_mhz: u32,
    /// Dynamic power in milliwatts.
    pub power_mw: u32,
    /// Capacity, with 1024 as the maximum.
    pub capacity: u32,
}

/// Energy model of a type of CPU.
#[derive(Debug)]
pub struct EnergyModel {
    /// Name of the type.
    pub name: &'static str,
    /// Operating points by rising frequency.
    pub opps: Vec<Opp>,
    /// Static power in milliwatts.
    pub static_power_mw: u32,
}

/// The operating points rise in frequency, power and capacity.
pub open spec fn rises(opps: Seq<Opp>) -> bool {
    forall|i: int, j: int|
        0 <= i < j < opps.len() ==> {
            &&& (#[trigger] opps[i]).freq_mhz < (#[trigger] opps[j]).freq_mhz
            &&& opps[i].power_mw < opps[j].power_mw
            &&& opps[i].capacity < opps[j].capacity
        }
}

/// Operating points of the default model.
pub open spec fn default_opps() -> Seq<Opp> {
    seq![
        Opp { freq_mhz: 800, power_mw: 5_000, capacity: 200 },
        Opp { freq_mhz: 1000, power_mw: 8_000, capacity: 256 },
        Opp { freq_mhz: 1500, power_mw: 15_000, capacity: 384 },
        Opp { freq_mhz: 2000, power_mw: 25_000, capacity: 512 },
        Opp { freq_mhz: 2500, power_mw: 35_000, capacity: 640 },
        Opp { freq_mhz: 3000, power_mw: 50_000, capacity: 768 },
        Opp { freq_mhz: 3500, power_mw: 65_000, capacity: 896 },
        Opp { freq_mhz: 4000, power_mw: 85_000, capacity: 1024 },
    ]
}

/// Operating points of the model of an efficiency core.
pub open spec fn efficiency_opps() -> Seq<Opp> {
    seq![
        Opp { freq_mhz: 600, power_mw: 1_500, capacity: 128 },
        Opp { freq_mhz: 800, power_mw: 2_500, capacity: 200 },
        Opp { freq_mhz: 1200, power_mw: 5_000, capacity: 300 },
        Opp { freq_mhz: 1800, power_mw: 10_000, capacity: 450 },
        Opp { freq_mhz: 2200, power_mw: 15_000, capacity: 550 },
    ]
}

/// Energy model of a symmetric system.
pub fn default_energy_model() -> (m: EnergyModel)
    ensures
        m.name@ == "x86_64-symmetric"@,
        m.opps@ == default_opps(),
        m.static_power_mw == 2_000,
        rises(m.opps@),
{
    let opps: Vec<Opp> = vec![
        Opp { freq_mhz: 800, power_mw: 5_000, capacity: 200 },
        Opp { freq_mhz: 1000, power_mw: 8_000, capacity: 256 },
        Opp { freq_mhz: 1500, power_mw: 15_000, capacity: 384 },
        Opp { freq_mhz: 2000, power_mw: 25_000, capacity: 512 },
        Opp { freq_mhz: 2500, power_mw: 35_000, capacity: 640 },
        Opp { freq_mhz: 3000, power_mw: 50_000, capacity: 768 },
        Opp { freq_mhz: 3500, power_mw: 65_000, capacity: 896 },
        Opp { freq_mhz: 4000, power_mw: 85_000, capacity: 1024 },
    ];
    assert(opps@ =~= default_opps());
    EnergyModel { name: "x86_64-symmetric", opps, static_power_mw: 2_000 }
}

/// Energy model of an efficiency core.
pub fn efficiency_core_model() -> (m: EnergyModel)
    ensures
        m.name@ == "efficiency-core"@,
        m.opps@ == efficiency_opps(),
        m.static_power_mw == 500,
        rises(m.opps@),
{
    let opps: Vec<Opp> = vec![
        Opp { freq_mhz: 600, power_mw: 1_500, capacity: 128 },
        Opp { freq_mhz: 800, power_mw: 2_500, capacity: 200 },
        Opp { freq_mhz: 1200, power_mw: 5_000, capacity: 300 },
        Opp { freq_mhz: 1800, power_mw: 10_000, capacity: 450 },
        Opp { freq_mhz: 2200, power_mw: 15_000, capacity: 550 },
    ];
    assert(opps@ =~= efficiency_opps());
    EnergyModel { name: "efficiency-core", opps, static_power_mw: 500 }
}

/// Total utilisation, at most the greatest value of the type.
pub open spec fn total_util(current_util: u32, task_util: u32) -> int {
    if current_util + task_util <= u32::MAX {
        current_util + task_util
    } else {
        u32::MAX as int
    }
}

/// `k` is the first operating point whose capacity suffices, or the last one if none
/// does.
pub open spec fn is_chosen_opp(opps: Seq<Opp>, util: int, k: int) -> bool {
    &&& 0 <= k < opps.len()
    &&& forall|i: int| 0 <= i < k ==> (#[trigger] opps[i]).capacity < util
    &&& opps[k].capacity >= util || k == opps.len() - 1
}

/// The operating point that a utilisation runs at.
pub open spec fn chosen_opp(opps: Seq<Opp>, util: int) -> int {
    choose|k: int| is_chosen_opp(opps, util, k)
}

/// A utilisation runs at one operating point.
pub proof fn chosen_opp_is_unique(opps: Seq<Opp>, util: int, a: int, b: int)
    requires
        is_chosen_opp(opps, util, a),
        is_chosen_opp(opps, util, b),
    ensures
        a == b,
{
    if a < b {
        assert(opps[a].capacity < util);
    } else if b < a {
        assert(opps[b].capacity < util);
    }
}

/// Share of a power that a utilisation has of a capacity, cut to the width of the
/// type.
pub open spec fn share(power_mw: u32, util: u32, capacity: u32) -> u32 {
    if capacity == 0 {
        0
    } else {
        ((power_mw * util / capacity as int) as u64) as u32
    }
}

/// Energy of a task at the operating point of the total utilisation.
pub open spec fn task_energy(
    opps: Seq<Opp>,
    static_power_mw: u32,
    current_util: u32,
    task_util: u32,
) -> int {
    let opp = opps[chosen_opp(opps, total_util(current_util, task_util))];
    share(opp.power_mw, task_util, opp.capacity) + share(static_power_mw, task_util, opp.capacity)
}

/// Estimates the energy of a task in microjoules per scheduling period: its share of
/// the dynamic and static power at the lowest operating point that has capacity for
/// the current and the new utilisation.
pub fn estimate_task_energy(model: &EnergyModel, current_util: u32, task_util: u32) -> (r: u32)
    requires
        model.opps@.len() > 0,
        task_energy(model.opps@, model.static_power_mw, current_util, task_util) <= u32::MAX,
    ensures
        r == task_energy(model.opps@, model.static_power_mw, current_util, task_util),
{
    let total: u32 = current_util.saturating_add(task_util);
    let mut i: usize = 0;
    while i < model.opps.len() - 1 && model.opps[i].capacity < total
        invariant
            model.opps@.len() > 0,
            i < model.opps@.len(),
            forall|k: int| 0 <= k < i ==> (#[trigger] model.opps@[k]).capacity < total,
        decreases model.opps@.len() - i,
    {
        i += 1;
    }
    proof {
        assert(is_chosen_opp(model.opps@, total as int, i as int));
        chosen_opp_is_unique(
            model.opps@,
            total as int,
            i as int,
            chosen_opp(model.opps@, total as int),
        );
    }
    let opp = model.opps[i];
    power_share(opp.power_mw, task_util, opp.capacity) + power_share(
        model.static_power_mw,
        task_util,
        opp.capacity,
    )
}

/// Share of a power that a utilisation has of a capacity.
fn power_share(power_mw: u32, util: u32, capacity: u32) -> (r: u32)
    ensures
        r == share(power_mw, util, capacity),
{
    if capacity == 0 {
        return 0;
    }
    assert(power_mw * util <= 0xffff_ffff * 0xffff_ffff) by (nonlinear_arith)
        requires
            power_mw <= 0xffff_ffff,
            util <= 0xffff_ffff,
    ;
    assert(power_mw * util >= 0) by (nonlinear_arith);
    let q: u64 = power_mw as u64 * util as u64 / capacity as u64;
    #[verifier::truncate] (q as u32)
}

/// Whether a task costs no more energy on a CPU of the first model than on one of
/// the second.
pub fn is_more_efficient(
    model_a: &EnergyModel,
    util_a: u32,
    model_b: &EnergyModel,
    util_b: u32,
    task_util: u32,
) -> (r: bool)
    requires
        model_a.opps@.len() > 0,
        model_b.opps@.len() > 0,
        task_energy(model_a.opps@, model_a.static_power_mw, util_a, task_util) <= u32::MAX,
        task_energy(model_b.opps@, model_b.static_power_mw, util_b, task_util) <= u32::MAX,
    ensures
        r == (task_energy(model_a.opps@, model_a.static_power_mw, util_a, task_util)
            <= task_energy(model_b.opps@, model_b.static_power_mw, util_b, task_util)),
{
    let energy_a: u32 = estimate_task_energy(model_a, util_a, task_util);
    let energy_b: u32 = estimate_task_energy(model_b, util_b, task_util);
    energy_a <= energy_b
}

/// Energy of a CPU.
#[derive(Clone, Copy, Debug, PartialEq, Eq, Structural)]
pub struct EnergyTracker {
    /// Energy in microjoules.
    pub total_uj: u32,
    /// Energy of the current window.
    pub window_uj: u32,
    /// Number of windows.
    pub window_count: u32,
}

impl EnergyTracker {
    /// A tracker without energy.
    pub fn new() -> (t: Self)
        ensures
            t == (EnergyTracker { total_uj: 0, window_uj: 0, window_count: 0 }),
    {
        EnergyTracker { total_uj: 0, window_uj: 0, window_count: 0 }
    }

    /// Adds energy.
    pub fn add(&mut self, uj: u32)
        ensures
            *final(self) == (EnergyTracker {
                total_uj: old(self).total_uj.wrapping_add(uj),
                window_uj: old(self).window_uj.wrapping_add(uj),
                ..*old(self)
            }),
    {
        self.total_uj = self.total_uj.wrapping_add(uj);
        self.window_uj = self.window_uj.wrapping_add(uj);
    }

    /// Begins a window and returns the energy of the last one.
    pub fn reset_window(&mut self) -> (r: u32)
        ensures
            r == old(self).window_uj,
            *final(self) == (EnergyTracker {
                window_uj: 0,
                window_count: old(self).window_count.wrapping_add(1),
                ..*old(self)
            }),
    {
        self.window_count = self.window_count.wrapping_add(1);
        let r: u32 = self.window_uj;
        self.window_uj = 0;
        r
    }
}

/// An operating point exists for every utilisation.
proof fn lemma_opp_exists(opps: Seq<Opp>, util: int, from: int)
    requires
        0 <= from < opps.len(),
        forall|i: int| 0 <= i < from ==> (#[trigger] opps[i]).capacity < util,
    ensures
        exists|k: int| is_chosen_opp(opps, util, k),
    decreases opps.len() - from,
{
    if opps[from].capacity >= util || from == opps.len() - 1 {
        assert(is_chosen_opp(opps, util, from));
    } else {
        lemma_opp_exists(opps, util, from + 1);
    }
}

/// The chosen operating point has the capacity wherever one has it, and no lower one
/// has.
pub proof fn chosen_opp_has_capacity(opps: Seq<Opp>, util: int, i: int)
    requires
        rises(opps),
        0 <= i < opps.len(),
        opps[i].capacity >= util,
    ensures
        0 <= chosen_opp(opps, util) <= i,
        opps[chosen_opp(opps, util)].capacity >= util,
        opps[chosen_opp(opps, util)].power_mw <= opps[i].power_mw,
{
    lemma_opp_exists(opps, util, 0);
    let k = chosen_opp(opps, util);
    assert(is_chosen_opp(opps, util, k));
    if i < k {
        assert(opps[i].capacity < util);
    }
}

/// The operating point for a load is the first with the capacity for it, and the last where
/// none has: every one before it is too small.
pub proof fn first_sufficient_point_is_chosen(opps: Seq<Opp>, util: int, k: int)
    requires
        is_chosen_opp(opps, util, k),
    ensures
        opps[k].capacity >= util || forall|i: int| 0 <= i < opps.len() ==> (#[trigger] opps[i]).capacity
            < util,
        forall|i: int| 0 <= i < k ==> (#[trigger] opps[i]).capacity < util,
{
}

/// What a task takes of a power is its share of the capacity, rounded down: all of it if it
/// fills the capacity, nothing if it does nothing or there is no capacity.
pub proof fn share_is_proportional(power_mw: u32, util: u32, capacity: u32)
    ensures
        capacity == 0 || util == 0 ==> share(power_mw, util, capacity) == 0,
        capacity > 0 && util == capacity ==> share(power_mw, util, capacity) == power_mw,
        capacity > 0 && util <= capacity ==> {
            let s = share(power_mw, util, capacity);
            s * capacity <= power_mw * util < (s + 1) * capacity
        },
{
    if capacity > 0 {
        let c = capacity as int;
        let x = power_mw * util;
        let q = x / c;
        vstd::arithmetic::div_mod::lemma_fundamental_div_mod(x, c);
        assert(q * c <= x < (q + 1) * c) by (nonlinear_arith)
            requires
                x == c * q + x % c,
                0 <= x % c < c,
        ;
        if util <= capacity {
            assert(0 <= x <= power_mw * c) by (nonlinear_arith)
                requires
                    x == power_mw * util,
                    0 <= util <= c,
                    power_mw >= 0,
            ;
            assert(0 <= q <= power_mw) by (nonlinear_arith)
                requires
                    q * c <= x,
                    x < (q + 1) * c,
                    0 <= x <= power_mw * c,
                    c > 0,
            ;
        }
        assert(x == power_mw * c ==> q == power_mw) by (nonlinear_arith)
            requires
                q * c <= x < (q + 1) * c,
                c > 0,
        ;
        assert(0 * power_mw == 0);
        assert(x == 0 ==> q == 0) by (nonlinear_arith)
            requires
                q * c <= x < (q + 1) * c,
                c > 0,
        ;
    }
}

/// The energy of a task is its share of the power of the point that the load with it asks
/// for, and of the static power; the load saturates.
pub proof fn energy_is_taken_at_the_point_of_the_whole_load(
    opps: Seq<Opp>,
    static_power_mw: u32,
    current_util: u32,
    task_util: u32,
    k: int,
)
    requires
        is_chosen_opp(opps, total_util(current_util, task_util), k),
    ensures
        current_util + task_util <= u32::MAX ==> total_util(current_util, task_util) == current_util
            + task_util,
        current_util + task_util > u32::MAX ==> total_util(current_util, task_util) == u32::MAX,
        task_energy(opps, static_power_mw, current_util, task_util) == share(
            opps[k].power_mw,
            task_util,
            opps[k].capacity,
        ) + share(static_power_mw, task_util, opps[k].capacity),
{
    let u = total_util(current_util, task_util);
    chosen_opp_is_unique(opps, u, k, chosen_opp(opps, u));
}

/// The models: eight points up to 4 GHz at full capacity for a symmetric core, and five up to
/// 2.2 GHz for an efficiency core, which draws less at every capacity that both reach.
pub proof fn models_reach_their_capacity()
    ensures
        default_opps().len() == 8,
        default_opps()[0] == (Opp { freq_mhz: 800, power_mw: 5_000, capacity: 200 }),
        default_opps()[7] == (Opp { freq_mhz: 4000, power_mw: 85_000, capacity: 1024 }),
        efficiency_opps().len() == 5,
        efficiency_opps()[4] == (Opp { freq_mhz: 2200, power_mw: 15_000, capacity: 550 }),
        efficiency_opps()[1].capacity == default_opps()[0].capacity && efficiency_opps()[1].power_mw
            < default_opps()[0].power_mw,
{
}

} // verus!
