//! The Mai power subsystem: idle states, performance states, thermal throttling and
//! power budgets.

pub mod budget;
pub mod cstate;
pub mod energy;
pub mod governor;
pub mod hw;
pub mod pstate;
pub mod thermal;

use crate::mps::governor::GovernorPolicy;
use vstd::prelude::*;

verus! {

/// Maximum number of CPUs.
pub const MAX_CPUS: usize = 256;

/// Interval of the governor in milliseconds.
pub const GOVERNOR_TICK_MS: u64 = 10;

/// Interval of the thermal check in milliseconds.
pub const THERMAL_POLL_MS: u64 = 1000;

/// Default power budget of a package in milliwatts.
pub const DEFAULT_PACKAGE_POWER_MW: u32 = 65_000;

/// Temperature from which a CPU is throttled, in degrees Celsius.
pub const THERMAL_THROTTLE_TEMP_C: u32 = 90;

/// Temperature at which a CPU is released again.
pub const THERMAL_CLEAR_TEMP_C: u32 = 80;

/// Temperature of an emergency shutdown.
pub const THERMAL_CRITICAL_TEMP_C: u32 = 105;

/// Power state of a CPU.
#[derive(Clone, Copy, Debug, PartialEq, Eq, Structural)]
pub struct CpuPowerState {
    /// CPU.
    pub cpu_id: u32,
    /// Package that the CPU belongs to.
    pub package_id: u32,
    /// Performance state: zero has the highest frequency.
    pub current_pstate: u32,
    /// Performance state that was asked for.
    pub target_pstate: u32,
    /// Frequency in MHz.
    pub current_freq_mhz: u32,
    /// Maximum frequency in MHz.
    pub max_freq_mhz: u32,
    /// Minimum frequency in MHz.
    pub min_freq_mhz: u32,
    /// Base frequency in MHz.
    pub base_freq_mhz: u32,
    /// Idle state: zero is active.
    pub current_cstate: u32,
    /// Deepest idle state allowed.
    pub max_cstate: u32,
    /// Temperature in degrees Celsius.
    pub temperature_c: u32,
    /// The CPU is throttled.
    pub throttled: bool,
    /// Energy in microjoules.
    pub energy_uj: u64,
    /// Utilisation in thousandths.
    pub utilization: u32,
    /// Relative energy cost.
    pub energy_cost: u32,
}

/// A CPU of which nothing is known but where it is.
pub open spec fn fresh_cpu(cpu_id: u32, package_id: u32) -> CpuPowerState {
    CpuPowerState {
        cpu_id,
        package_id,
        current_pstate: 0,
        target_pstate: 0,
        current_freq_mhz: 0,
        max_freq_mhz: 0,
        min_freq_mhz: 0,
        base_freq_mhz: 0,
        current_cstate: 0,
        max_cstate: 6,
        temperature_c: 0,
        throttled: false,
        energy_uj: 0,
        utilization: 0,
        energy_cost: 100,
    }
}

/// Frequency of a CPU in thousandths of its maximum, cut to the width of the type.
pub open spec fn freq_ratio_of(c: CpuPowerState) -> u32 {
    if c.max_freq_mhz == 0 {
        0
    } else {
        ((c.current_freq_mhz * 1000 / c.max_freq_mhz as int) as u64) as u32
    }
}

impl CpuPowerState {
    fn new(cpu_id: u32, package_id: u32) -> (c: Self)
        ensures
            c == fresh_cpu(cpu_id, package_id),
    {
        CpuPowerState {
            cpu_id,
            package_id,
            current_pstate: 0,
            target_pstate: 0,
            current_freq_mhz: 0,
            max_freq_mhz: 0,
            min_freq_mhz: 0,
            base_freq_mhz: 0,
            current_cstate: 0,
            max_cstate: 6,
            temperature_c: 0,
            throttled: false,
            energy_uj: 0,
            utilization: 0,
            energy_cost: 100,
        }
    }

    /// Whether the CPU is idle.
    pub fn is_idle(&self) -> (r: bool)
        ensures
            r == (self.current_cstate > 0),
    {
        self.current_cstate > 0
    }

    /// Frequency in thousandths of the maximum.
    pub fn freq_ratio(&self) -> (r: u32)
        ensures
            r == freq_ratio_of(*self),
    {
        if self.max_freq_mhz == 0 {
            return 0;
        }
        let q: u64 = self.current_freq_mhz as u64 * 1000 / self.max_freq_mhz as u64;
        #[verifier::truncate] (q as u32)
    }
}

/// Power state of a package.
#[derive(Debug)]
pub struct PackagePowerState {
    /// Package.
    pub package_id: u32,
    /// CPUs of the package.
    pub cpu_ids: Vec<u32>,
    /// Power budget in milliwatts.
    pub power_budget_mw: u32,
    /// Power in milliwatts.
    pub current_power_mw: u32,
    /// Energy in microjoules.
    pub energy_uj: u64,
    /// The package exceeds its budget.
    pub power_limited: bool,
    /// Temperature of the hottest CPU.
    pub temperature_c: u32,
}

/// A package as mathematical values.
#[verifier::ext_equal]
pub struct PackageState {
    /// Package.
    pub package_id: u32,
    /// CPUs of the package.
    pub cpu_ids: Seq<u32>,
    /// Power budget in milliwatts.
    pub power_budget_mw: u32,
    /// Power in milliwatts.
    pub current_power_mw: u32,
    /// Energy in microjoules.
    pub energy_uj: u64,
    /// The package exceeds its budget.
    pub power_limited: bool,
    /// Temperature of the hottest CPU.
    pub temperature_c: u32,
}

impl PackageState {
    /// The package draws more power than its budget.
    pub open spec fn over_budget(self) -> bool {
        self.current_power_mw > self.power_budget_mw
    }
}

impl View for PackagePowerState {
    type V = PackageState;

    open spec fn view(&self) -> PackageState {
        PackageState {
            package_id: self.package_id,
            cpu_ids: self.cpu_ids@,
            power_budget_mw: self.power_budget_mw,
            current_power_mw: self.current_power_mw,
            energy_uj: self.energy_uj,
            power_limited: self.power_limited,
            temperature_c: self.temperature_c,
        }
    }
}

impl PackagePowerState {
    fn new(package_id: u32) -> (p: Self)
        ensures
            p@ == (PackageState {
                package_id,
                cpu_ids: Seq::empty(),
                power_budget_mw: DEFAULT_PACKAGE_POWER_MW,
                current_power_mw: 0,
                energy_uj: 0,
                power_limited: false,
                temperature_c: 0,
            }),
    {
        PackagePowerState {
            package_id,
            cpu_ids: Vec::new(),
            power_budget_mw: DEFAULT_PACKAGE_POWER_MW,
            current_power_mw: 0,
            energy_uj: 0,
            power_limited: false,
            temperature_c: 0,
        }
    }

    /// Whether the package draws more power than its budget.
    pub fn is_over_budget(&self) -> (r: bool)
        ensures
            r == self@.over_budget(),
    {
        self.current_power_mw > self.power_budget_mw
    }
}

/// `a` or one, whichever is greater.
pub open spec fn at_least_one(a: int) -> int {
    if a < 1 {
        1
    } else {
        a
    }
}

/// Package of a CPU: each package takes as many CPUs, in their order, as a division
/// without remainder gives it, and the last one also those that are left over.
pub open spec fn package_of(cpu: int, num_cpus: int, num_packages: int) -> u32 {
    let p = cpu / at_least_one(at_least_one(num_cpus) / at_least_one(num_packages));
    (if p < at_least_one(num_packages) {
        p
    } else {
        at_least_one(num_packages) - 1
    }) as u32
}

/// CPUs of a package among the first `n`, in order.
pub open spec fn package_cpus(cpus: Seq<CpuPowerState>, package_id: u32, n: int) -> Seq<u32>
    decreases n,
{
    if n <= 0 {
        Seq::empty()
    } else {
        let rest = package_cpus(cpus, package_id, n - 1);
        if cpus[n - 1].package_id == package_id {
            rest.push((n - 1) as u32)
        } else {
            rest
        }
    }
}

/// What the power subsystem holds.
#[verifier::ext_equal]
pub struct MpsState {
    /// CPUs.
    pub cpus: Seq<CpuPowerState>,
    /// Packages.
    pub packages: Seq<PackageState>,
    /// Number of CPUs.
    pub num_cpus: u32,
    /// Number of packages.
    pub num_packages: u32,
    /// Some CPU is throttled.
    pub any_throttled: bool,
    /// Energy of all CPUs in microjoules.
    pub total_energy_uj: u64,
    /// Ticks of the governor, modulo the width of the counter.
    pub ticks: u64,
    /// The subsystem is active.
    pub active: bool,
}

/// CPUs of a new subsystem.
pub open spec fn fresh_cpus(num_cpus: int, num_packages: int) -> Seq<CpuPowerState> {
    Seq::new(
        num_cpus as nat,
        |i: int| fresh_cpu(i as u32, package_of(i, num_cpus, num_packages)),
    )
}

/// A package of a new subsystem.
pub open spec fn fresh_package(cpus: Seq<CpuPowerState>, p: int) -> PackageState {
    PackageState {
        package_id: p as u32,
        cpu_ids: package_cpus(cpus, p as u32, cpus.len() as int),
        power_budget_mw: DEFAULT_PACKAGE_POWER_MW,
        current_power_mw: 0,
        energy_uj: 0,
        power_limited: false,
        temperature_c: 0,
    }
}

/// Total power of packages.
pub open spec fn total_power(packages: Seq<PackageState>) -> int
    decreases packages.len(),
{
    if packages.len() == 0 {
        0
    } else {
        total_power(packages.drop_last()) + packages.last().current_power_mw
    }
}

/// Highest temperature of packages.
pub open spec fn highest_temperature(packages: Seq<PackageState>) -> u32
    decreases packages.len(),
{
    if packages.len() == 0 {
        0
    } else if packages.last().temperature_c > highest_temperature(packages.drop_last()) {
        packages.last().temperature_c
    } else {
        highest_temperature(packages.drop_last())
    }
}

impl MpsState {
    /// A new subsystem.
    pub open spec fn fresh(num_cpus: int, num_packages: int) -> MpsState {
        let cpus = fresh_cpus(num_cpus, num_packages);
        MpsState {
            cpus,
            packages: Seq::new(num_packages as nat, |p: int| fresh_package(cpus, p)),
            num_cpus: num_cpus as u32,
            num_packages: num_packages as u32,
            any_throttled: false,
            total_energy_uj: 0,
            ticks: 0,
            active: true,
        }
    }

    /// The subsystem after a timer tick on a CPU: the governor runs, and the thermal
    /// check on every hundredth tick.
    pub open spec fn after_tick(self, policy: GovernorPolicy, cpu_id: int) -> MpsState {
        if !self.active || cpu_id >= self.cpus.len() {
            self
        } else {
            let counted = MpsState { ticks: self.ticks.wrapping_add(1), ..self };
            let governed = governor::ticked(counted, policy, cpu_id);
            if governed.ticks % 100 == 0 {
                thermal::checked(governed, cpu_id)
            } else {
                governed
            }
        }
    }

    /// Energy cost of a CPU: its coefficient scaled by its frequency, or the greatest
    /// value for an unknown CPU.
    pub open spec fn cost(self, cpu_id: int) -> int {
        if cpu_id < self.cpus.len() {
            self.cpus[cpu_id].energy_cost * freq_ratio_of(self.cpus[cpu_id]) / 1000
        } else {
            u32::MAX as int
        }
    }

    /// The cost of every CPU can be computed.
    pub open spec fn costs_fit(self) -> bool {
        forall|i: int|
            0 <= i < self.cpus.len() ==> (#[trigger] self.cpus[i]).energy_cost * freq_ratio_of(
                self.cpus[i],
            ) <= u32::MAX
    }

    /// The CPU is not throttled and has the capacity left.
    pub open spec fn can_take(self, i: int, required_util: u32) -> bool {
        let c = self.cpus[i];
        !c.throttled && required_util <= (if c.utilization <= 1000 {
            1000 - c.utilization
        } else {
            0
        })
    }

    /// `b` is the first of the cheapest CPUs that can take the task among the first
    /// `n`, or zero if none can or none costs less than the greatest value.
    pub open spec fn is_most_efficient(self, n: int, required_util: u32, b: int) -> bool {
        let none = forall|i: int|
            0 <= i < n && #[trigger] self.can_take(i, required_util) ==> self.cost(i) >= u32::MAX;
        if none {
            b == 0
        } else {
            &&& 0 <= b < n
            &&& self.can_take(b, required_util)
            &&& forall|i: int|
                0 <= i < n && #[trigger] self.can_take(i, required_util) ==> self.cost(b)
                    <= self.cost(i)
            &&& forall|i: int|
                0 <= i < b && #[trigger] self.can_take(i, required_util) ==> self.cost(b)
                    < self.cost(i)
        }
    }
}

/// The power subsystem.
#[derive(Debug)]
pub struct MaiPower {
    /// CPUs.
    pub cpus: Vec<CpuPowerState>,
    /// Packages.
    pub packages: Vec<PackagePowerState>,
    /// Number of CPUs.
    pub num_cpus: u32,
    /// Number of packages.
    pub num_packages: u32,
    /// Some CPU is throttled.
    pub any_throttled: bool,
    /// Energy of all CPUs in microjoules.
    pub total_energy_uj: u64,
    /// Ticks of the governor.
    pub governor_ticks: u64,
    /// The subsystem is active.
    pub active: bool,
}

impl View for MaiPower {
    type V = MpsState;

    open spec fn view(&self) -> MpsState {
        MpsState {
            cpus: self.cpus@,
            packages: Seq::new(self.packages@.len(), |i: int| self.packages@[i]@),
            num_cpus: self.num_cpus,
            num_packages: self.num_packages,
            any_throttled: self.any_throttled,
            total_energy_uj: self.total_energy_uj,
            ticks: self.governor_ticks,
            active: self.active,
        }
    }
}

/// State of the power subsystem at a point in time.
#[derive(Clone, Copy, Debug, PartialEq, Eq, Structural)]
pub struct PowerSnapshot {
    pub num_cpus: u32,
    pub total_power_mw: u32,
    pub max_temperature_c: u32,
    pub any_throttled: bool,
    pub total_energy_uj: u64,
    pub governor_ticks: u64,
}

impl MaiPower {
    /// Makes a subsystem for CPUs that are spread over packages.
    pub fn new(num_cpus: usize, num_packages: usize) -> (m: Self)
        ensures
            m@ == MpsState::fresh(num_cpus as int, num_packages as int),
    {
        let mut cpus: Vec<CpuPowerState> = Vec::with_capacity(num_cpus);
        let n: usize = if num_cpus > 1 {
            num_cpus
        } else {
            1
        };
        let d: usize = if num_packages > 1 {
            num_packages
        } else {
            1
        };
        let per_package: usize = if n / d > 1 {
            n / d
        } else {
            1
        };
        let ghost fresh = fresh_cpus(num_cpus as int, num_packages as int);
        let mut i: usize = 0;
        while i < num_cpus
            invariant
                i <= num_cpus,
                per_package > 0,
                d == at_least_one(num_packages as int),
                per_package == at_least_one(
                    at_least_one(num_cpus as int) / at_least_one(num_packages as int),
                ),
                fresh == fresh_cpus(num_cpus as int, num_packages as int),
                cpus@ =~= fresh.take(i as int),
            decreases num_cpus - i,
        {
            let share: usize = i / per_package;
            let package: usize = if share < d {
                share
            } else {
                d - 1
            };
            let pkg_id: u32 = #[verifier::truncate] (package as u32);
            let id: u32 = #[verifier::truncate] (i as u32);
            cpus.push(CpuPowerState::new(id, pkg_id));
            i += 1;
        }
        assert(cpus@ =~= fresh);
        let mut packages: Vec<PackagePowerState> = Vec::with_capacity(num_packages);
        let mut p: usize = 0;
        while p < num_packages
            invariant
                p <= num_packages,
                cpus@ == fresh,
                packages.len() == p,
                forall|k: int| 0 <= k < p ==> (#[trigger] packages@[k])@ == fresh_package(fresh, k),
            decreases num_packages - p,
        {
            let p_id: u32 = #[verifier::truncate] (p as u32);
            let mut pkg = PackagePowerState::new(p_id);
            let mut j: usize = 0;
            while j < cpus.len()
                invariant
                    j <= cpus.len(),
                    cpus@ == fresh,
                    pkg@ == (PackageState {
                        cpu_ids: package_cpus(fresh, p_id, j as int),
                        ..fresh_package(fresh, p as int)
                    }),
                    p_id == p as u32,
                decreases cpus.len() - j,
            {
                if cpus[j].package_id == p_id {
                    let id: u32 = #[verifier::truncate] (j as u32);
                    pkg.cpu_ids.push(id);
                }
                j += 1;
                assert(pkg@ =~= PackageState {
                    cpu_ids: package_cpus(fresh, p_id, j as int),
                    ..fresh_package(fresh, p as int)
                });
            }
            packages.push(pkg);
            p += 1;
        }
        let total: u32 = #[verifier::truncate] (num_cpus as u32);
        let total_packages: u32 = #[verifier::truncate] (num_packages as u32);
        let m = MaiPower {
            cpus,
            packages,
            num_cpus: total,
            num_packages: total_packages,
            any_throttled: false,
            total_energy_uj: 0,
            governor_ticks: 0,
            active: true,
        };
        assert(m@ =~= MpsState::fresh(num_cpus as int, num_packages as int));
        m
    }

    /// Handles a timer tick on a CPU: runs the governor, and once per thermal interval
    /// the thermal check.
    pub fn tick(&mut self, policy: GovernorPolicy, cpu_id: usize)
        ensures
            final(self)@ == old(self)@.after_tick(policy, cpu_id as int),
    {
        if !self.active {
            return;
        }
        if cpu_id >= self.cpus.len() {
            return;
        }
        self.governor_ticks = self.governor_ticks.wrapping_add(1);
        assert(self@ =~= MpsState { ticks: old(self)@.ticks.wrapping_add(1), ..old(self)@ });
        governor::tick(self, policy, cpu_id);
        let tick_count: u64 = self.governor_ticks;
        let thermal_interval: u64 = THERMAL_POLL_MS / GOVERNOR_TICK_MS;
        if tick_count % thermal_interval == 0 {
            thermal::check(self, cpu_id);
        }
    }

    /// Notes the utilisation of a CPU in thousandths. An unknown CPU is ignored.
    pub fn update_utilization(&mut self, cpu_id: usize, util: u32)
        ensures
            final(self)@ == if cpu_id < old(self)@.cpus.len() {
                MpsState {
                    cpus: old(self)@.cpus.update(
                        cpu_id as int,
                        CpuPowerState {
                            utilization: if util < 1000 {
                                util
                            } else {
                                1000
                            },
                            ..old(self)@.cpus[cpu_id as int]
                        },
                    ),
                    ..old(self)@
                }
            } else {
                old(self)@
            },
    {
        if cpu_id < self.cpus.len() {
            let mut cpu = self.cpus[cpu_id];
            cpu.utilization = if util < 1000 {
                util
            } else {
                1000
            };
            self.cpus.set(cpu_id, cpu);
        }
        assert(self@.packages =~= old(self)@.packages);
    }

    /// Relative energy cost of a task on a CPU: lower is more efficient.
    pub fn energy_cost(&self, cpu_id: usize) -> (r: u32)
        requires
            self@.costs_fit(),
        ensures
            r == self@.cost(cpu_id as int),
    {
        if cpu_id < self.cpus.len() {
            let base_cost: u32 = self.cpus[cpu_id].energy_cost;
            let freq_factor: u32 = self.cpus[cpu_id].freq_ratio();
            assert(self@.cpus[cpu_id as int] == self.cpus@[cpu_id as int]);
            assert(base_cost * freq_factor >= 0) by (nonlinear_arith);
            base_cost * freq_factor / 1000
        } else {
            u32::MAX
        }
    }

    /// The most efficient CPU that has capacity for a task of the given utilisation.
    pub fn suggest_efficient_cpu(&self, required_util: u32) -> (r: usize)
        requires
            self@.costs_fit(),
        ensures
            self@.is_most_efficient(self@.cpus.len() as int, required_util, r as int),
    {
        let mut best_cpu: usize = 0;
        let mut best_cost: u32 = u32::MAX;
        let mut i: usize = 0;
        while i < self.cpus.len()
            invariant
                i <= self.cpus.len(),
                self@.costs_fit(),
                best_cost == u32::MAX ==> best_cpu == 0 && (forall|k: int|
                    0 <= k < i && #[trigger] self@.can_take(k, required_util) ==> self@.cost(k)
                        >= u32::MAX),
                best_cost < u32::MAX ==> {
                    &&& best_cpu < i
                    &&& self@.can_take(best_cpu as int, required_util)
                    &&& best_cost == self@.cost(best_cpu as int)
                },
                forall|k: int|
                    0 <= k < i && #[trigger] self@.can_take(k, required_util) ==> best_cost
                        <= self@.cost(k),
                forall|k: int|
                    0 <= k < best_cpu && #[trigger] self@.can_take(k, required_util) ==> best_cost
                        < self@.cost(k),
            decreases self.cpus.len() - i,
        {
            let cpu = self.cpus[i];
            let remaining: u32 = if cpu.utilization <= 1000 {
                1000 - cpu.utilization
            } else {
                0
            };
            if !cpu.throttled && remaining >= required_util {
                let cost: u32 = self.energy_cost(i);
                if cost < best_cost {
                    best_cost = cost;
                    best_cpu = i;
                }
            }
            i += 1;
        }
        best_cpu
    }

    /// State of the subsystem.
    pub fn snapshot(&self) -> (r: PowerSnapshot)
        requires
            total_power(self@.packages) <= u32::MAX,
        ensures
            r == (PowerSnapshot {
                num_cpus: self@.num_cpus,
                total_power_mw: total_power(self@.packages) as u32,
                max_temperature_c: highest_temperature(self@.packages),
                any_throttled: self@.any_throttled,
                total_energy_uj: self@.total_energy_uj,
                governor_ticks: self@.ticks,
            }),
    {
        let ghost packages = self@.packages;
        let mut power: u32 = 0;
        let mut max_temp: u32 = 0;
        let mut i: usize = 0;
        while i < self.packages.len()
            invariant
                i <= self.packages.len(),
                packages == self@.packages,
                total_power(packages) <= u32::MAX,
                power == total_power(packages.take(i as int)),
                max_temp == highest_temperature(packages.take(i as int)),
            decreases self.packages.len() - i,
        {
            proof {
                assert(packages.take(i + 1).drop_last() =~= packages.take(i as int));
                assert(packages.take(i + 1).last() == self.packages@[i as int]@);
                lemma_power_prefix(packages, i + 1);
            }
            power += self.packages[i].current_power_mw;
            let temp: u32 = self.packages[i].temperature_c;
            if temp > max_temp {
                max_temp = temp;
            }
            i += 1;
        }
        assert(packages.take(i as int) =~= packages);
        PowerSnapshot {
            num_cpus: self.num_cpus,
            total_power_mw: power,
            max_temperature_c: max_temp,
            any_throttled: self.any_throttled,
            total_energy_uj: self.total_energy_uj,
            governor_ticks: self.governor_ticks,
        }
    }
}

/// The first packages draw no more power than all.
proof fn lemma_power_prefix(packages: Seq<PackageState>, n: int)
    requires
        0 <= n <= packages.len(),
    ensures
        0 <= total_power(packages.take(n)) <= total_power(packages),
    decreases packages.len(),
{
    if n == packages.len() {
        assert(packages.take(n) =~= packages);
        if n > 0 {
            lemma_power_prefix(packages.drop_last(), n - 1);
            assert(packages.drop_last().take(n - 1) =~= packages.drop_last());
        }
    } else {
        lemma_power_prefix(packages.drop_last(), n);
        assert(packages.drop_last().take(n) =~= packages.take(n));
    }
}

/// Sets the subsystem up. A later call changes nothing.
pub fn init(slot: &mut Option<MaiPower>, num_cpus: usize, num_packages: usize)
    ensures
        *old(slot) is Some ==> *final(slot) == *old(slot),
        *old(slot) is None ==> *final(slot) is Some && final(slot)->Some_0@ == MpsState::fresh(
            num_cpus as int,
            num_packages as int,
        ),
{
    if slot.is_none() {
        *slot = Some(MaiPower::new(num_cpus, num_packages));
    }
}

/// The subsystem, which has been set up.
pub fn get(slot: &Option<MaiPower>) -> (r: &MaiPower)
    requires
        *slot is Some,
    ensures
        *r == slot->Some_0,
{
    slot.as_ref().unwrap()
}

/// A list of CPUs of a package holds exactly the CPUs that name the package.
pub proof fn package_lists_its_cpus(cpus: Seq<CpuPowerState>, package_id: u32, n: int, cpu: int)
    requires
        0 <= n <= cpus.len(),
        cpus.len() <= u32::MAX,
        0 <= cpu < n,
    ensures
        package_cpus(cpus, package_id, n).contains(cpu as u32) <==> cpus[cpu].package_id
            == package_id,
    decreases n,
{
    lemma_package_cpus_below(cpus, package_id, n - 1);
    let rest = package_cpus(cpus, package_id, n - 1);
    let all = package_cpus(cpus, package_id, n);
    if cpu < n - 1 {
        package_lists_its_cpus(cpus, package_id, n - 1, cpu);
        if rest.contains(cpu as u32) {
            let k = choose|k: int| 0 <= k < rest.len() && rest[k] == cpu as u32;
            assert(all[k] == cpu as u32);
        }
    } else if cpus[cpu].package_id == package_id {
        assert(all[all.len() - 1] == cpu as u32);
    }
}

/// Every CPU of a new subsystem is listed in exactly one package, the one that it names.
pub proof fn every_cpu_is_in_one_package(num_cpus: int, num_packages: int, cpu: int, p: int)
    requires
        0 <= cpu < num_cpus <= u32::MAX,
        0 <= p < num_packages <= u32::MAX,
    ensures
        ({
            let m = MpsState::fresh(num_cpus, num_packages);
            let home = m.cpus[cpu].package_id;
            &&& home < num_packages
            &&& m.packages[home as int].cpu_ids.contains(cpu as u32)
            &&& m.packages[p].cpu_ids.contains(cpu as u32) ==> p == home
        }),
{
    let m = MpsState::fresh(num_cpus, num_packages);
    let home = m.cpus[cpu].package_id;
    let per = at_least_one(at_least_one(num_cpus) / at_least_one(num_packages));
    assert(cpu / per >= 0) by (nonlinear_arith)
        requires
            cpu >= 0,
            per >= 1,
    ;
    package_lists_its_cpus(m.cpus, home, num_cpus, cpu);
    package_lists_its_cpus(m.cpus, p as u32, num_cpus, cpu);
}

/// Listed CPUs are among the first `n`.
proof fn lemma_package_cpus_below(cpus: Seq<CpuPowerState>, package_id: u32, n: int)
    requires
        n <= cpus.len(),
        cpus.len() <= u32::MAX,
    ensures
        forall|k: int|
            0 <= k < package_cpus(cpus, package_id, n).len() ==> #[trigger] package_cpus(
                cpus,
                package_id,
                n,
            )[k] < n,
    decreases n,
{
    if n > 0 {
        lemma_package_cpus_below(cpus, package_id, n - 1);
        let rest = package_cpus(cpus, package_id, n - 1);
        let all = package_cpus(cpus, package_id, n);
        assert forall|k: int| 0 <= k < all.len() implies #[trigger] all[k] < n by {
            if k < rest.len() {
                assert(all[k] == rest[k]);
            }
        }
    }
}

/// The suggested CPU can take the task, and no CPU that can costs less.
pub proof fn suggestion_is_cheapest(m: MpsState, required_util: u32, b: int, i: int)
    requires
        m.is_most_efficient(m.cpus.len() as int, required_util, b),
        0 <= i < m.cpus.len(),
        m.can_take(i, required_util),
        m.cost(i) < u32::MAX,
    ensures
        m.can_take(b, required_util),
        m.cost(b) <= m.cost(i),
        !m.cpus[b].throttled,
{
}

/// A tick is counted and has the governor set its CPU; every hundredth tick checks the
/// temperature of it too. A tick for an unknown CPU, or while power management is off, does
/// nothing.
pub proof fn tick_governs_and_checks(m: MpsState, policy: GovernorPolicy, cpu_id: int)
    requires
        0 <= cpu_id,
        m.ticks < u64::MAX,
    ensures
        !m.active || cpu_id >= m.cpus.len() ==> m.after_tick(policy, cpu_id) == m,
        m.active && cpu_id < m.cpus.len() ==> {
            let a = m.after_tick(policy, cpu_id);
            let g = governor::ticked(MpsState { ticks: (m.ticks + 1) as u64, ..m }, policy, cpu_id);
            &&& a.ticks == m.ticks + 1
            &&& (m.ticks + 1) % 100 != 0 ==> a == g
            &&& (m.ticks + 1) % 100 == 0 ==> a == thermal::checked(g, cpu_id)
            &&& a.cpus[cpu_id].current_freq_mhz == g.cpus[cpu_id].current_freq_mhz
        },
{
}

/// The frequency ratio is in thousandths of the maximum, rounded down, and zero without one.
pub proof fn frequency_ratio_is_in_thousandths(c: CpuPowerState)
    requires
        c.current_freq_mhz <= c.max_freq_mhz,
    ensures
        c.max_freq_mhz == 0 ==> freq_ratio_of(c) == 0,
        c.max_freq_mhz > 0 ==> {
            let r = freq_ratio_of(c);
            r * c.max_freq_mhz <= c.current_freq_mhz * 1000 < (r + 1) * c.max_freq_mhz && r <= 1000
        },
{
    if c.max_freq_mhz > 0 {
        let m = c.max_freq_mhz as int;
        let x = c.current_freq_mhz * 1000;
        let q = x / m;
        vstd::arithmetic::div_mod::lemma_fundamental_div_mod(x, m);
        assert(q * m <= x < (q + 1) * m && 0 <= q <= 1000) by (nonlinear_arith)
            requires
                x == m * q + x % m,
                0 <= x % m < m,
                0 <= x <= 1000 * m,
        ;
    }
}

/// The cost of a CPU at its full frequency is its coefficient, at half of it half of that; a
/// CPU that is not known costs most.
pub proof fn cost_scales_with_frequency(m: MpsState, i: int)
    requires
        0 <= i < m.cpus.len(),
        m.cpus[i].max_freq_mhz > 0,
    ensures
        m.cpus[i].current_freq_mhz == m.cpus[i].max_freq_mhz ==> m.cost(i)
            == m.cpus[i].energy_cost,
        m.cpus[i].current_freq_mhz == 0 ==> m.cost(i) == 0,
        m.cpus[i].current_freq_mhz * 2 == m.cpus[i].max_freq_mhz ==> m.cost(i)
            == m.cpus[i].energy_cost / 2,
        m.cost(m.cpus.len() as int) == 0xffff_ffff,
{
    let c = m.cpus[i];
    let x = c.max_freq_mhz as int;
    assert(x * 1000 / x == 1000) by (nonlinear_arith)
        requires
            x > 0,
    ;
    assert(0int * 1000 / x == 0) by (nonlinear_arith)
        requires
            x > 0,
    ;
    if c.current_freq_mhz * 2 == x {
        let f = c.current_freq_mhz as int;
        assert(f * 1000 / x == 500) by (nonlinear_arith)
            requires
                f * 2 == x,
                x > 0,
        ;
    }
    let e = c.energy_cost as int;
    let r = freq_ratio_of(c) as int;
    assert((r == 1000 ==> e * r == e * 1000) && (r == 0 ==> e * r == 0) && (r == 500 ==> e * r == e
        * 500)) by (nonlinear_arith);
    assert(e * 500 / 1000 == e / 2);
}

/// A CPU can take work if it is not throttled and what it does already and the work come to
/// no more than all of it.
pub proof fn work_fits_beside_the_load(m: MpsState, i: int, required_util: u32)
    requires
        0 <= i < m.cpus.len(),
        m.cpus[i].utilization <= 1000,
    ensures
        m.can_take(i, required_util) <==> !m.cpus[i].throttled && m.cpus[i].utilization
            + required_util <= 1000,
{
}

/// The total power is that of all packages, and the temperature that of the hottest one.
pub proof fn snapshot_covers_all_packages(packages: Seq<PackageState>, i: int)
    requires
        0 <= i < packages.len(),
    ensures
        highest_temperature(packages) >= packages[i].temperature_c,
        exists|k: int|
            0 <= k < packages.len() && highest_temperature(packages)
                == (#[trigger] packages[k]).temperature_c,
        total_power(packages) >= packages[i].current_power_mw,
        total_power(packages) == total_power(packages.drop_last())
            + packages.last().current_power_mw,
        total_power(packages) >= 0,
    decreases packages.len(),
{
    let rest = packages.drop_last();
    let last = packages.len() - 1;
    assert(packages[last] == packages.last());
    if rest.len() > 0 {
        let at: int = if i < rest.len() {
            i
        } else {
            0
        };
        snapshot_covers_all_packages(rest, at);
        let k = choose|k: int|
            0 <= k < rest.len() && highest_temperature(rest) == (#[trigger] rest[k]).temperature_c;
        assert(packages[k] == rest[k]);
    } else {
        assert(highest_temperature(rest) == 0);
        assert(total_power(rest) == 0);
    }
}

/// A CPU starts idle-free, cool and unthrottled, may sleep as deep as the sixth state, and a
/// package has 65 W.
pub proof fn power_starts_with_defaults(num_cpus: int, num_packages: int, i: int, p: int)
    requires
        0 <= i < num_cpus <= u32::MAX,
        0 <= p < num_packages <= u32::MAX,
    ensures
        ({
            let m = MpsState::fresh(num_cpus, num_packages);
            let c = m.cpus[i];
            &&& m.active && !m.any_throttled && m.ticks == 0
            &&& m.cpus.len() == num_cpus && m.packages.len() == num_packages
            &&& c.cpu_id == i && c.current_cstate == 0 && c.max_cstate == 6 && !c.throttled
            &&& c.energy_cost == 100 && c.utilization == 0
            &&& m.packages[p].package_id == p && m.packages[p].power_budget_mw == 65_000
            &&& m.packages[p].current_power_mw == 0 && !m.packages[p].over_budget()
        }),
{
}

} // verus!
