//! The power governor: sets the performance state of a CPU on every tick.

use crate::mps::{CpuPowerState, MaiPower, MpsState};
use vstd::prelude::*;

verus! {

/// Balance between performance and efficiency.
#[derive(Clone, Copy, Debug, PartialEq, Eq, Structural)]
pub enum GovernorPolicy {
    /// Always the highest performance.
    Performance,
    /// Frequency by utilisation with headroom.
    Balanced,
    /// Frequency by utilisation with less than full headroom.
    PowerSave,
    /// Always the lowest performance.
    Minimal,
}

/// Headroom of each policy, with 1024 as one.
const POLICY_HEADROOM: [u32; 4] = [1024, 1280, 896, 512];

/// Greatest index of a performance state.
pub const LOWEST_PSTATE: u32 = 7;

/// Least index that a throttled CPU runs at.
pub const THROTTLED_PSTATE: u32 = 4;

/// Least index of a CPU whose package exceeds its budget.
pub const OVER_BUDGET_PSTATE: u32 = 3;

/// Sets the policy.
pub fn set_policy(current: &mut GovernorPolicy, policy: GovernorPolicy)
    ensures
        *final(current) == policy,
{
    *current = policy;
}

/// The policy.
pub fn policy(current: &GovernorPolicy) -> (r: GovernorPolicy)
    ensures
        r == *current,
{
    *current
}

/// Headroom of a policy, with 1024 as one.
pub open spec fn headroom_of(policy: GovernorPolicy) -> int {
    match policy {
        GovernorPolicy::Performance => 1024,
        GovernorPolicy::Balanced => 1280,
        GovernorPolicy::PowerSave => 896,
        GovernorPolicy::Minimal => 512,
    }
}

/// Utilisation, at most all of it.
pub open spec fn util_of(c: CpuPowerState) -> int {
    if c.utilization < 1000 {
        c.utilization as int
    } else {
        1000
    }
}

/// Frequency that the utilisation asks for.
pub open spec fn target_freq(c: CpuPowerState, policy: GovernorPolicy) -> int {
    (headroom_of(policy) * c.max_freq_mhz * util_of(c)) / 1_024_000
}

/// Width of the frequency range.
pub open spec fn freq_range(c: CpuPowerState) -> int {
    if c.max_freq_mhz >= c.min_freq_mhz {
        c.max_freq_mhz - c.min_freq_mhz
    } else {
        0
    }
}

/// The index that the utilisation asks for, by linear interpolation between the
/// maximum frequency at index zero and the minimum frequency at the lowest state.
pub open spec fn wanted_pstate(c: CpuPowerState, policy: GovernorPolicy) -> int {
    let target = target_freq(c, policy);
    if freq_range(c) == 0 || target >= c.max_freq_mhz {
        0
    } else if target <= c.min_freq_mhz {
        LOWEST_PSTATE as int
    } else {
        ((c.max_freq_mhz - target) * 7) / freq_range(c)
    }
}

/// The index after the caps of a throttled CPU and of a package over its budget.
pub open spec fn capped_pstate(c: CpuPowerState, policy: GovernorPolicy, over_budget: bool) -> int {
    let wanted = wanted_pstate(c, policy);
    let thermal = if c.throttled && wanted < THROTTLED_PSTATE {
        THROTTLED_PSTATE as int
    } else {
        wanted
    };
    if over_budget && thermal < OVER_BUDGET_PSTATE {
        OVER_BUDGET_PSTATE as int
    } else {
        thermal
    }
}

/// Frequency at an index.
pub open spec fn freq_at(c: CpuPowerState, pstate: int) -> int {
    c.max_freq_mhz - (pstate * freq_range(c)) / 7
}

/// The CPU after a tick of the governor.
pub open spec fn governed(
    c: CpuPowerState,
    policy: GovernorPolicy,
    over_budget: bool,
) -> CpuPowerState {
    match policy {
        GovernorPolicy::Performance => CpuPowerState {
            current_pstate: 0,
            current_freq_mhz: c.max_freq_mhz,
            ..c
        },
        GovernorPolicy::Minimal => CpuPowerState {
            current_pstate: LOWEST_PSTATE,
            current_freq_mhz: c.min_freq_mhz,
            ..c
        },
        _ => if c.max_freq_mhz == 0 {
            c
        } else {
            let p = capped_pstate(c, policy, over_budget);
            CpuPowerState {
                current_pstate: p as u32,
                current_freq_mhz: freq_at(c, p) as u32,
                ..c
            }
        },
    }
}

/// The package of the CPU exceeds its budget.
pub open spec fn package_over_budget(m: MpsState, c: CpuPowerState) -> bool {
    c.package_id < m.packages.len() && m.packages[c.package_id as int].over_budget()
}

/// The power subsystem after a tick of the governor on a CPU.
pub open spec fn ticked(m: MpsState, policy: GovernorPolicy, cpu_id: int) -> MpsState {
    let c = m.cpus[cpu_id];
    MpsState {
        cpus: m.cpus.update(cpu_id, governed(c, policy, package_over_budget(m, c))),
        ..m
    }
}

/// The index lies in the range of the performance states.
proof fn lemma_pstate_range(c: CpuPowerState, policy: GovernorPolicy, over_budget: bool)
    requires
        c.max_freq_mhz > 0,
    ensures
        0 <= wanted_pstate(c, policy) <= 7,
        0 <= capped_pstate(c, policy, over_budget) <= 7,
        0 <= freq_at(c, capped_pstate(c, policy, over_budget)) <= c.max_freq_mhz,
        c.min_freq_mhz <= c.max_freq_mhz ==> c.min_freq_mhz <= freq_at(
            c,
            capped_pstate(c, policy, over_budget),
        ),
        0 <= headroom_of(policy) * c.max_freq_mhz * util_of(c) <= 1280 * 0xffff_ffff * 1000,
        0 <= headroom_of(policy) * c.max_freq_mhz <= 1280 * 0xffff_ffff,
{
    let h = headroom_of(policy);
    let m = c.max_freq_mhz as int;
    let u = util_of(c);
    assert(0 <= h * m <= 1280 * 0xffff_ffff) by (nonlinear_arith)
        requires
            0 <= h <= 1280,
            0 <= m <= 0xffff_ffff,
    ;
    assert(0 <= h * m * u <= 1280 * 0xffff_ffff * 1000) by (nonlinear_arith)
        requires
            0 <= h * m <= 1280 * 0xffff_ffff,
            0 <= u <= 1000,
    ;
    let r = freq_range(c);
    let target = target_freq(c, policy);
    if r != 0 && target < m && target > c.min_freq_mhz {
        let offset = m - target;
        assert(0 <= offset < r);
        assert(0 <= (offset * 7) / r <= 7) by (nonlinear_arith)
            requires
                0 <= offset < r,
        ;
    }
    let p = capped_pstate(c, policy, over_budget);
    assert(0 <= p * r <= 7 * r) by (nonlinear_arith)
        requires
            0 <= p <= 7,
            0 <= r,
    ;
}

/// Sets the performance state of a CPU by its utilisation, and caps it if the CPU is
/// throttled or its package exceeds its budget. An unknown CPU is left alone.
pub fn tick(mps: &mut MaiPower, current_policy: GovernorPolicy, cpu_id: usize)
    ensures
        final(mps)@ == if cpu_id < old(mps)@.cpus.len() {
            ticked(old(mps)@, current_policy, cpu_id as int)
        } else {
            old(mps)@
        },
{
    if cpu_id >= mps.cpus.len() {
        return;
    }
    let ghost before = mps@;
    let mut cpu = mps.cpus[cpu_id];
    let ghost c = cpu;
    if current_policy == GovernorPolicy::Performance {
        cpu.current_pstate = 0;
        cpu.current_freq_mhz = cpu.max_freq_mhz;
        mps.cpus.set(cpu_id, cpu);
        assert(mps@ =~= ticked(before, current_policy, cpu_id as int));
        return;
    }
    if current_policy == GovernorPolicy::Minimal {
        cpu.current_pstate = LOWEST_PSTATE;
        cpu.current_freq_mhz = cpu.min_freq_mhz;
        mps.cpus.set(cpu_id, cpu);
        assert(mps@ =~= ticked(before, current_policy, cpu_id as int));
        return;
    }
    let headroom: u64 = match current_policy {
        GovernorPolicy::Performance => POLICY_HEADROOM[0] as u64,
        GovernorPolicy::Balanced => POLICY_HEADROOM[1] as u64,
        GovernorPolicy::PowerSave => POLICY_HEADROOM[2] as u64,
        GovernorPolicy::Minimal => POLICY_HEADROOM[3] as u64,
    };
    let max_freq: u64 = cpu.max_freq_mhz as u64;
    if max_freq == 0 {
        assert(mps@ =~= ticked(before, current_policy, cpu_id as int));
        return;
    }
    let over_budget: bool = (cpu.package_id as usize) < mps.packages.len()
        && mps.packages[cpu.package_id as usize].is_over_budget();
    proof {
        lemma_pstate_range(c, current_policy, over_budget);
    }
    let util: u64 = if cpu.utilization < 1000 {
        cpu.utilization as u64
    } else {
        1000
    };
    let target: u64 = headroom * max_freq * util / (1024 * 1000);
    let min_freq: u64 = cpu.min_freq_mhz as u64;
    let range: u64 = if max_freq >= min_freq {
        max_freq - min_freq
    } else {
        0
    };
    let pstate: u32 = if range == 0 || target >= max_freq {
        0
    } else if target <= min_freq {
        LOWEST_PSTATE
    } else {
        (((max_freq - target) * 7) / range) as u32
    };
    let thermal: u32 = if cpu.throttled && pstate < THROTTLED_PSTATE {
        THROTTLED_PSTATE
    } else {
        pstate
    };
    let budget: u32 = if over_budget && thermal < OVER_BUDGET_PSTATE {
        OVER_BUDGET_PSTATE
    } else {
        thermal
    };
    assert(0 <= budget * range <= 7 * range) by (nonlinear_arith)
        requires
            0 <= budget <= 7,
            0 <= range,
    ;
    let actual: u64 = max_freq - (budget as u64 * range / 7);
    cpu.current_pstate = budget;
    cpu.current_freq_mhz = actual as u32;
    mps.cpus.set(cpu_id, cpu);
    assert(mps@ =~= ticked(before, current_policy, cpu_id as int));
}

/// The governor keeps the frequency within the range of the CPU.
pub proof fn frequency_stays_in_range(c: CpuPowerState, policy: GovernorPolicy, over_budget: bool)
    requires
        c.min_freq_mhz <= c.max_freq_mhz,
        0 < c.max_freq_mhz,
    ensures
        c.min_freq_mhz <= governed(c, policy, over_budget).current_freq_mhz <= c.max_freq_mhz,
        governed(c, policy, over_budget).current_pstate <= LOWEST_PSTATE,
{
    lemma_pstate_range(c, policy, over_budget);
}

/// Under the policies that follow the utilisation, a throttled CPU and one whose
/// package exceeds its budget are capped.
pub proof fn caps_are_applied(c: CpuPowerState, policy: GovernorPolicy, over_budget: bool)
    requires
        policy == GovernorPolicy::Balanced || policy == GovernorPolicy::PowerSave,
        0 < c.max_freq_mhz,
    ensures
        c.throttled ==> governed(c, policy, over_budget).current_pstate >= THROTTLED_PSTATE,
        over_budget ==> governed(c, policy, over_budget).current_pstate >= OVER_BUDGET_PSTATE,
{
    lemma_pstate_range(c, policy, over_budget);
}

/// More utilisation never asks for a lower frequency.
pub proof fn utilisation_raises_the_target(
    a: CpuPowerState,
    b: CpuPowerState,
    policy: GovernorPolicy,
)
    requires
        a.max_freq_mhz == b.max_freq_mhz,
        a.min_freq_mhz == b.min_freq_mhz,
        a.utilization <= b.utilization,
    ensures
        target_freq(a, policy) <= target_freq(b, policy),
        wanted_pstate(b, policy) <= wanted_pstate(a, policy),
{
    let k = headroom_of(policy) * a.max_freq_mhz;
    assert(k >= 0) by (nonlinear_arith)
        requires
            k == headroom_of(policy) * a.max_freq_mhz,
            headroom_of(policy) >= 0,
            a.max_freq_mhz >= 0,
    ;
    assert(k * util_of(a) <= k * util_of(b)) by (nonlinear_arith)
        requires
            k >= 0,
            util_of(a) <= util_of(b),
    ;
    let r = freq_range(a);
    let ta = target_freq(a, policy);
    let tb = target_freq(b, policy);
    if r != 0 && ta < a.max_freq_mhz && ta > a.min_freq_mhz && tb < a.max_freq_mhz {
        assert(((a.max_freq_mhz - tb) * 7) / r <= ((a.max_freq_mhz - ta) * 7) / r)
            by (nonlinear_arith)
            requires
                r > 0,
                tb >= ta,
        ;
    } else if r != 0 && ta <= a.min_freq_mhz && tb < a.max_freq_mhz && tb > a.min_freq_mhz {
        assert(((a.max_freq_mhz - tb) * 7) / r <= 7) by (nonlinear_arith)
            requires
                0 <= a.max_freq_mhz - tb < r,
        ;
    }
    if r != 0 && ta < a.max_freq_mhz && ta > a.min_freq_mhz {
        assert(((a.max_freq_mhz - ta) * 7) / r >= 0) by (nonlinear_arith)
            requires
                0 <= a.max_freq_mhz - ta,
                r > 0,
        ;
    }
}

/// What the policies that follow the utilisation ask for, rounded down to whole MHz: power
/// saving seven eighths of the share of the maximum frequency that is in use, balanced five
/// quarters of it.
pub proof fn targets_follow_the_policy(c: CpuPowerState, used: int)
    requires
        used == if c.utilization < 1000 {
            c.utilization as int
        } else {
            1000
        },
    ensures
        ({
            let share = c.max_freq_mhz * used;
            let save = target_freq(c, GovernorPolicy::PowerSave);
            let balanced = target_freq(c, GovernorPolicy::Balanced);
            &&& save * 8000 <= 7 * share < (save + 1) * 8000
            &&& balanced * 4000 <= 5 * share < (balanced + 1) * 4000
            &&& save <= balanced
            &&& 3 * share >= 8000 ==> save < balanced
            &&& c.max_freq_mhz > 0 ==> save < c.max_freq_mhz
        }),
{
    let m = c.max_freq_mhz as int;
    let share = m * used;
    assert(896 * m * used == 896 * share) by (nonlinear_arith)
        requires
            share == m * used,
    ;
    assert(1280 * m * used == 1280 * share) by (nonlinear_arith)
        requires
            share == m * used,
    ;
    assert(0 <= share <= 1000 * m) by (nonlinear_arith)
        requires
            share == m * used,
            0 <= used <= 1000,
            m >= 0,
    ;
}

/// A CPU that is neither throttled nor in a package over its budget gets the lowest of
/// eight evenly spaced frequencies that still meets the target: the maximum if the target
/// is not below it, the minimum if that is enough.
pub proof fn lowest_sufficient_frequency_is_set(
    c: CpuPowerState,
    policy: GovernorPolicy,
)
    requires
        policy == GovernorPolicy::Balanced || policy == GovernorPolicy::PowerSave,
        0 < c.max_freq_mhz,
        c.min_freq_mhz < c.max_freq_mhz,
        !c.throttled,
    ensures
        ({
            let g = governed(c, policy, false);
            let target = target_freq(c, policy);
            let range = c.max_freq_mhz - c.min_freq_mhz;
            &&& target >= c.max_freq_mhz ==> g.current_pstate == 0 && g.current_freq_mhz
                == c.max_freq_mhz
            &&& target <= c.min_freq_mhz ==> g.current_pstate == 7 && g.current_freq_mhz
                == c.min_freq_mhz
            &&& c.min_freq_mhz < target < c.max_freq_mhz ==> {
                &&& g.current_freq_mhz >= target
                &&& (c.max_freq_mhz - target) * 7 < (g.current_pstate + 1) * range
            }
        }),
{
    lemma_pstate_range(c, policy, false);
    let r = freq_range(c);
    let m = c.max_freq_mhz as int;
    let target = target_freq(c, policy);
    if c.min_freq_mhz < target < m {
        let x = (m - target) * 7;
        let p = x / r;
        vstd::arithmetic::div_mod::lemma_fundamental_div_mod(x, r);
        assert(p * r <= x < (p + 1) * r) by (nonlinear_arith)
            requires
                x == r * p + x % r,
                0 <= x % r < r,
        ;
        assert((p * r) / 7 <= m - target) by (nonlinear_arith)
            requires
                p * r <= (m - target) * 7,
        ;
    }
    assert((7 * r) / 7 == r) by (nonlinear_arith);
    assert((0 * r) / 7 == 0) by (nonlinear_arith);
}

/// The frequency lies as many sevenths of the range below the maximum as the index says.
pub proof fn frequency_matches_the_index(
    c: CpuPowerState,
    policy: GovernorPolicy,
    over_budget: bool,
)
    requires
        policy == GovernorPolicy::Balanced || policy == GovernorPolicy::PowerSave,
        0 < c.max_freq_mhz,
        c.min_freq_mhz <= c.max_freq_mhz,
    ensures
        ({
            let g = governed(c, policy, over_budget);
            let below = c.max_freq_mhz - g.current_freq_mhz;
            let range = c.max_freq_mhz - c.min_freq_mhz;
            below * 7 <= g.current_pstate * range < (below + 1) * 7
        }),
{
    lemma_pstate_range(c, policy, over_budget);
    let p = capped_pstate(c, policy, over_budget);
    let x = p * freq_range(c);
    assert((x / 7) * 7 <= x < (x / 7 + 1) * 7);
}

/// A cap raises the index to at least 4 for a throttled CPU and 3 for a package over its
/// budget, and no further. A CPU without range stays at its maximum until it is capped.
pub proof fn caps_go_no_further(c: CpuPowerState, policy: GovernorPolicy, over_budget: bool)
    requires
        policy == GovernorPolicy::Balanced || policy == GovernorPolicy::PowerSave,
        0 < c.max_freq_mhz,
    ensures
        ({
            let free = governed(CpuPowerState { throttled: false, ..c }, policy, false);
            let g = governed(c, policy, over_budget);
            &&& g.current_pstate >= free.current_pstate
            &&& c.throttled ==> g.current_pstate >= 4
            &&& over_budget ==> g.current_pstate >= 3
            &&& g.current_pstate > free.current_pstate ==> (c.throttled && g.current_pstate == 4)
                || (over_budget && g.current_pstate == 3)
            &&& c.min_freq_mhz >= c.max_freq_mhz ==> free.current_pstate == 0
                && free.current_freq_mhz == c.max_freq_mhz
        }),
{
    let f = CpuPowerState { throttled: false, ..c };
    lemma_pstate_range(c, policy, over_budget);
    lemma_pstate_range(f, policy, false);
    assert(target_freq(f, policy) == target_freq(c, policy));
    assert(wanted_pstate(f, policy) == wanted_pstate(c, policy));
}

/// The fixed policies: always the maximum, or always the minimum, whatever the load, the
/// temperature and the budget. No policy changes anything but the index and the frequency.
pub proof fn fixed_policies_ignore_the_load(
    c: CpuPowerState,
    policy: GovernorPolicy,
    over_budget: bool,
)
    ensures
        ({
            let fast = governed(c, GovernorPolicy::Performance, over_budget);
            let slow = governed(c, GovernorPolicy::Minimal, over_budget);
            let any = governed(c, policy, over_budget);
            &&& fast.current_pstate == 0 && fast.current_freq_mhz == c.max_freq_mhz
            &&& slow.current_pstate == 7 && slow.current_freq_mhz == c.min_freq_mhz
            &&& any == (CpuPowerState {
                current_pstate: any.current_pstate,
                current_freq_mhz: any.current_freq_mhz,
                ..c
            })
        }),
{
}

/// A tick changes the CPU that it is for and no other, and takes the budget from the
/// package of that CPU: the package counts as over its budget exactly if it draws more.
pub proof fn governor_works_on_one_cpu(
    m: MpsState,
    policy: GovernorPolicy,
    cpu_id: int,
    other: int,
)
    requires
        0 <= cpu_id < m.cpus.len(),
        0 <= other < m.cpus.len(),
        other != cpu_id,
        m.cpus[cpu_id].package_id < m.packages.len(),
    ensures
        ({
            let t = ticked(m, policy, cpu_id);
            let p = m.packages[m.cpus[cpu_id].package_id as int];
            &&& t.cpus[other] == m.cpus[other]
            &&& t.packages == m.packages
            &&& t.cpus[cpu_id] == governed(
                m.cpus[cpu_id],
                policy,
                p.current_power_mw > p.power_budget_mw,
            )
        }),
{
}

} // verus!
