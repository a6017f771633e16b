//! Thermal monitoring and throttling.
//!
//! Throttling is progressive: each level caps the performance states further. A
//! level is left only when the temperature has fallen by a margin, so that levels do
//! not alternate.

use crate::mps::{MaiPower, MpsState, THERMAL_CLEAR_TEMP_C, THERMAL_THROTTLE_TEMP_C};
use crate::mps::{CpuPowerState, PackageState};
use vstd::prelude::*;

verus! {

/// Throttling level.
#[derive(Clone, Copy, Debug, PartialEq, Eq, PartialOrd, Ord, Structural)]
pub enum ThrottleLevel {
    /// No throttling.
    Unthrottled,
    /// About three quarters of the maximum frequency.
    Mild,
    /// About half of the maximum frequency.
    Moderate,
    /// About a quarter of the maximum frequency.
    Severe,
    /// Emergency.
    Critical,
}

/// Thresholds of a thermal zone in degrees Celsius.
#[derive(Clone, Copy, Debug, PartialEq, Eq, Structural)]
pub struct ThermalThresholds {
    /// Mild throttling.
    pub mild_temp: u32,
    /// Moderate throttling.
    pub moderate_temp: u32,
    /// Severe throttling.
    pub severe_temp: u32,
    /// Emergency.
    pub critical_temp: u32,
    /// Margin by which the temperature has to fall before a level is left.
    pub hysteresis: u32,
}

impl Default for ThermalThresholds {
    fn default() -> (t: Self)
        ensures
            t == default_thresholds(),
    {
        ThermalThresholds {
            mild_temp: 80,
            moderate_temp: 90,
            severe_temp: 100,
            critical_temp: 105,
            hysteresis: 5,
        }
    }
}

/// The default thresholds.
pub open spec fn default_thresholds() -> ThermalThresholds {
    ThermalThresholds {
        mild_temp: 80,
        moderate_temp: 90,
        severe_temp: 100,
        critical_temp: 105,
        hysteresis: 5,
    }
}

/// Least performance-state index allowed at each level.
pub const THROTTLE_PSTATE_CAPS: [u8; 5] = [0, 2, 4, 6, 7];

/// Level of a temperature, as a number.
pub open spec fn level_for(t: ThermalThresholds, temp_c: u32) -> u32 {
    if temp_c >= t.critical_temp {
        4
    } else if temp_c >= t.severe_temp {
        3
    } else if temp_c >= t.moderate_temp {
        2
    } else if temp_c >= t.mild_temp {
        1
    } else {
        0
    }
}

/// Threshold of a level.
pub open spec fn threshold_of(t: ThermalThresholds, level: u32) -> u32 {
    match level {
        4 => t.critical_temp,
        3 => t.severe_temp,
        2 => t.moderate_temp,
        1 => t.mild_temp,
        _ => 0,
    }
}

/// Temperature at which a level is left.
pub open spec fn clear_temp(t: ThermalThresholds, level: u32) -> int {
    if threshold_of(t, level) >= t.hysteresis && 1 <= level <= 4 {
        threshold_of(t, level) - t.hysteresis
    } else {
        0
    }
}

/// The level after a temperature was read: a higher one at once, a lower one only
/// when the temperature has fallen far enough.
pub open spec fn next_level(t: ThermalThresholds, current: u32, temp_c: u32) -> u32 {
    let target = level_for(t, temp_c);
    if target < current && temp_c > clear_temp(t, current) {
        current
    } else {
        target
    }
}

/// The level of a number.
pub open spec fn level_of(n: u32) -> ThrottleLevel {
    match n {
        0 => ThrottleLevel::Unthrottled,
        1 => ThrottleLevel::Mild,
        2 => ThrottleLevel::Moderate,
        3 => ThrottleLevel::Severe,
        _ => ThrottleLevel::Critical,
    }
}

/// Thermal state of a CPU.
#[derive(Clone, Copy, Debug, PartialEq, Eq, Structural)]
pub struct ThermalState {
    /// Temperature in degrees Celsius.
    pub temperature: u32,
    /// Throttling level as a number.
    pub throttle_level: u32,
    /// Highest temperature so far.
    pub peak_temperature: u32,
    /// Thresholds.
    pub thresholds: ThermalThresholds,
}

impl ThermalState {
    /// State without throttling and with the default thresholds.
    pub fn new() -> (s: Self)
        ensures
            s == (ThermalState {
                temperature: 0,
                throttle_level: 0,
                peak_temperature: 0,
                thresholds: default_thresholds(),
            }),
    {
        ThermalState {
            temperature: 0,
            throttle_level: 0,
            peak_temperature: 0,
            thresholds: ThermalThresholds::default(),
        }
    }

    /// Notes a temperature and returns the level that follows from it.
    pub fn update(&mut self, temp_c: u32) -> (r: ThrottleLevel)
        ensures
            *final(self) == (ThermalState {
                temperature: temp_c,
                throttle_level: next_level(
                    old(self).thresholds,
                    old(self).throttle_level,
                    temp_c,
                ),
                peak_temperature: if temp_c > old(self).peak_temperature {
                    temp_c
                } else {
                    old(self).peak_temperature
                },
                thresholds: old(self).thresholds,
            }),
            r == level_of(final(self).throttle_level),
    {
        self.temperature = temp_c;
        if temp_c > self.peak_temperature {
            self.peak_temperature = temp_c;
        }
        let current_level: u32 = self.throttle_level;
        let t = self.thresholds;
        let target_val: u32 = if temp_c >= t.critical_temp {
            4
        } else if temp_c >= t.severe_temp {
            3
        } else if temp_c >= t.moderate_temp {
            2
        } else if temp_c >= t.mild_temp {
            1
        } else {
            0
        };
        let new_level: u32 = if target_val < current_level {
            let clear: u32 = match current_level {
                4 => t.critical_temp.saturating_sub(t.hysteresis),
                3 => t.severe_temp.saturating_sub(t.hysteresis),
                2 => t.moderate_temp.saturating_sub(t.hysteresis),
                1 => t.mild_temp.saturating_sub(t.hysteresis),
                _ => 0,
            };
            if temp_c <= clear {
                target_val
            } else {
                current_level
            }
        } else {
            target_val
        };
        self.throttle_level = new_level;
        match new_level {
            0 => ThrottleLevel::Unthrottled,
            1 => ThrottleLevel::Mild,
            2 => ThrottleLevel::Moderate,
            3 => ThrottleLevel::Severe,
            _ => ThrottleLevel::Critical,
        }
    }

    /// Least performance-state index allowed at the level.
    pub fn pstate_cap(&self) -> (r: u8)
        ensures
            r == THROTTLE_PSTATE_CAPS@[if self.throttle_level <= 4 {
                self.throttle_level as int
            } else {
                4
            }],
    {
        let level: usize = self.throttle_level as usize;
        THROTTLE_PSTATE_CAPS[if level < 4 {
            level
        } else {
            4
        }]
    }
}

/// The thresholds rise with the level.
pub open spec fn thresholds_rise(t: ThermalThresholds) -> bool {
    t.mild_temp <= t.moderate_temp <= t.severe_temp <= t.critical_temp
}

/// A temperature that reaches the threshold of a level throttles at least that much,
/// whatever the level before.
pub proof fn hot_cpu_is_throttled(t: ThermalThresholds, current: u32, temp_c: u32, level: u32)
    requires
        thresholds_rise(t),
        1 <= level <= 4,
        temp_c >= threshold_of(t, level),
    ensures
        next_level(t, current, temp_c) >= level,
{
}

/// A level is kept within the margin below its threshold, and left below it.
pub proof fn level_is_kept_within_margin(t: ThermalThresholds, current: u32, temp_c: u32)
    requires
        thresholds_rise(t),
        1 <= current <= 4,
        temp_c < threshold_of(t, current),
        t.hysteresis <= threshold_of(t, current),
    ensures
        temp_c + t.hysteresis > threshold_of(t, current) ==> next_level(t, current, temp_c)
            == current,
        temp_c + t.hysteresis <= threshold_of(t, current) ==> next_level(t, current, temp_c)
            == level_for(t, temp_c) < current,
{
}

/// Reading the same temperature again keeps the level.
pub proof fn level_is_stable(t: ThermalThresholds, current: u32, temp_c: u32)
    ensures
        next_level(t, next_level(t, current, temp_c), temp_c) == next_level(t, current, temp_c),
{
}

/// Higher levels cap the performance states at least as much.
pub proof fn caps_rise_with_level(a: int, b: int)
    requires
        0 <= a <= b <= 4,
    ensures
        THROTTLE_PSTATE_CAPS@[a] <= THROTTLE_PSTATE_CAPS@[b],
{
}

/// The CPU is throttled after a check at this temperature.
pub open spec fn throttled_after(c: CpuPowerState) -> bool {
    if c.temperature_c >= THERMAL_THROTTLE_TEMP_C {
        true
    } else if c.temperature_c <= THERMAL_CLEAR_TEMP_C {
        false
    } else {
        c.throttled
    }
}

/// Some CPU is throttled.
pub open spec fn some_throttled(cpus: Seq<CpuPowerState>) -> bool {
    exists|i: int| 0 <= i < cpus.len() && (#[trigger] cpus[i]).throttled
}

/// Highest temperature of the CPUs of a package.
pub open spec fn hottest(cpus: Seq<CpuPowerState>, package_id: u32) -> u32
    decreases cpus.len(),
{
    if cpus.len() == 0 {
        0
    } else {
        let rest = hottest(cpus.drop_last(), package_id);
        let c = cpus.last();
        if c.package_id == package_id && c.temperature_c > rest {
            c.temperature_c
        } else {
            rest
        }
    }
}

/// The power subsystem after a thermal check of a CPU.
pub open spec fn checked(m: MpsState, cpu_id: int) -> MpsState {
    let c = m.cpus[cpu_id];
    let cpus = m.cpus.update(cpu_id, CpuPowerState { throttled: throttled_after(c), ..c });
    MpsState {
        cpus,
        packages: if c.package_id < m.packages.len() {
            m.packages.update(
                c.package_id as int,
                PackageState {
                    temperature_c: hottest(m.cpus, c.package_id),
                    ..m.packages[c.package_id as int]
                },
            )
        } else {
            m.packages
        },
        any_throttled: if throttled_after(c) == c.throttled {
            m.any_throttled
        } else {
            some_throttled(cpus)
        },
        ..m
    }
}

/// Checks the temperature of a CPU, throttles it or releases it, and brings the
/// temperature of its package up to date. An unknown CPU is left alone.
pub fn check(mps: &mut MaiPower, cpu_id: usize)
    ensures
        final(mps)@ == if cpu_id < old(mps)@.cpus.len() {
            checked(old(mps)@, cpu_id as int)
        } else {
            old(mps)@
        },
{
    if cpu_id >= mps.cpus.len() {
        return;
    }
    let ghost before = mps@;
    let mut cpu = mps.cpus[cpu_id];
    let temp: u32 = cpu.temperature_c;
    let was_throttled: bool = cpu.throttled;
    if temp >= THERMAL_THROTTLE_TEMP_C {
        cpu.throttled = true;
    } else if temp <= THERMAL_CLEAR_TEMP_C {
        cpu.throttled = false;
    }
    let throttled: bool = cpu.throttled;
    mps.cpus.set(cpu_id, cpu);
    if throttled && !was_throttled {
        mps.any_throttled = true;
        assert(mps.cpus@[cpu_id as int].throttled);
    } else if !throttled && was_throttled {
        mps.any_throttled = any_cpu_throttled(mps);
    }
    let ghost cpus = mps.cpus@;
    assert(cpus =~= before.cpus.update(
        cpu_id as int,
        CpuPowerState { throttled: throttled_after(before.cpus[cpu_id as int]), ..before.cpus[cpu_id as int] },
    ));
    let package_id: u32 = cpu.package_id;
    if (package_id as usize) < mps.packages.len() {
        let hot: u32 = package_temperature(mps, package_id);
        proof {
            lemma_hottest_ignores_throttling(before.cpus, cpus, package_id);
        }
        mps.packages[package_id as usize].temperature_c = hot;
    }
    assert(mps@ =~= checked(before, cpu_id as int));
}

/// The hottest temperature does not depend on what is throttled.
proof fn lemma_hottest_ignores_throttling(
    a: Seq<CpuPowerState>,
    b: Seq<CpuPowerState>,
    package_id: u32,
)
    requires
        a.len() == b.len(),
        forall|i: int|
            0 <= i < a.len() ==> (#[trigger] a[i]).temperature_c == b[i].temperature_c
                && a[i].package_id == b[i].package_id,
    ensures
        hottest(a, package_id) == hottest(b, package_id),
    decreases a.len(),
{
    if a.len() > 0 {
        assert(a.last() == a[a.len() - 1]);
        lemma_hottest_ignores_throttling(a.drop_last(), b.drop_last(), package_id);
    }
}

/// Whether some CPU is throttled.
fn any_cpu_throttled(mps: &MaiPower) -> (r: bool)
    ensures
        r == some_throttled(mps.cpus@),
{
    let mut i: usize = 0;
    while i < mps.cpus.len()
        invariant
            i <= mps.cpus.len(),
            forall|k: int| 0 <= k < i ==> !(#[trigger] mps.cpus@[k]).throttled,
        decreases mps.cpus.len() - i,
    {
        if mps.cpus[i].throttled {
            assert(mps.cpus@[i as int].throttled);
            return true;
        }
        i += 1;
    }
    false
}

/// Highest temperature of the CPUs of a package.
fn package_temperature(mps: &MaiPower, package_id: u32) -> (r: u32)
    ensures
        r == hottest(mps.cpus@, package_id),
{
    let mut hot: u32 = 0;
    let mut i: usize = 0;
    while i < mps.cpus.len()
        invariant
            i <= mps.cpus.len(),
            hot == hottest(mps.cpus@.take(i as int), package_id),
        decreases mps.cpus.len() - i,
    {
        assert(mps.cpus@.take(i + 1).drop_last() =~= mps.cpus@.take(i as int));
        if mps.cpus[i].package_id == package_id && mps.cpus[i].temperature_c > hot {
            hot = mps.cpus[i].temperature_c;
        }
        i += 1;
    }
    assert(mps.cpus@.take(i as int) =~= mps.cpus@);
    hot
}

/// The global flag says whether some CPU is throttled, and a check keeps it so.
pub proof fn throttle_flag_is_kept(m: MpsState, cpu_id: int)
    requires
        0 <= cpu_id < m.cpus.len(),
        m.any_throttled == some_throttled(m.cpus),
    ensures
        checked(m, cpu_id).any_throttled == some_throttled(checked(m, cpu_id).cpus),
{
    let c = m.cpus[cpu_id];
    if throttled_after(c) == c.throttled {
        assert(checked(m, cpu_id).cpus =~= m.cpus);
    }
}

/// The levels of the default thresholds: none below 80 degrees, and one more from 80, 90, 100
/// and 105 degrees on.
pub proof fn default_levels_step_at_the_thresholds(temp_c: u32)
    ensures
        ({
            let level = level_for(default_thresholds(), temp_c);
            &&& temp_c < 80 <==> level == 0
            &&& 80 <= temp_c < 90 <==> level == 1
            &&& 90 <= temp_c < 100 <==> level == 2
            &&& 100 <= temp_c < 105 <==> level == 3
            &&& temp_c >= 105 <==> level == 4
        }),
        level_of(0) is Unthrottled,
        level_of(1) is Mild,
        level_of(2) is Moderate,
        level_of(3) is Severe,
        level_of(4) is Critical,
{
}

/// A CPU cools down only five degrees below the threshold of its level, and heats up at once.
pub proof fn default_levels_fall_with_a_margin(current: u32, temp_c: u32)
    requires
        current <= 4,
    ensures
        ({
            let t = default_thresholds();
            let next = next_level(t, current, temp_c);
            let at: int = if current == 1 {
                80
            } else if current == 2 {
                90
            } else if current == 3 {
                100
            } else {
                105
            };
            &&& level_for(t, temp_c) >= current ==> next == level_for(t, temp_c)
            &&& 0 < current && at - 5 < temp_c < at ==> next == current
            &&& 0 < current && temp_c <= at - 5 ==> next == level_for(t, temp_c)
        }),
{
}

/// How far a level slows a CPU down: not at all, to the second, fourth and sixth state, and to
/// the slowest.
pub proof fn levels_cap_the_performance_state()
    ensures
        THROTTLE_PSTATE_CAPS@ == seq![0u8, 2, 4, 6, 7],
{
    assert(THROTTLE_PSTATE_CAPS@ =~= seq![0u8, 2, 4, 6, 7]);
}

/// The check of a CPU: from 90 degrees on it is throttled, up to 80 degrees it is not, and in
/// between it stays as it is. Its package takes the temperature of the hottest of its CPUs, and
/// nothing else changes.
pub proof fn check_throttles_a_hot_cpu(m: MpsState, cpu_id: int, other: int)
    requires
        0 <= cpu_id < m.cpus.len(),
        0 <= other < m.cpus.len(),
    ensures
        ({
            let a = checked(m, cpu_id);
            let c = m.cpus[cpu_id];
            &&& c.temperature_c >= 90 ==> a.cpus[cpu_id].throttled
            &&& c.temperature_c <= 80 ==> !a.cpus[cpu_id].throttled
            &&& 80 < c.temperature_c < 90 ==> a.cpus[cpu_id].throttled == c.throttled
            &&& a.cpus[cpu_id] == (CpuPowerState { throttled: a.cpus[cpu_id].throttled, ..c })
            &&& other != cpu_id ==> a.cpus[other] == m.cpus[other]
            &&& c.package_id < m.packages.len() && m.cpus[other].package_id == c.package_id
                ==> a.packages[c.package_id as int].temperature_c >= m.cpus[other].temperature_c
            &&& c.throttled != a.cpus[cpu_id].throttled ==> (a.any_throttled <==> exists|k: int|
                0 <= k < a.cpus.len() && (#[trigger] a.cpus[k]).throttled)
        }),
{
    hottest_is_a_maximum(m.cpus, m.cpus[cpu_id].package_id, other);
}

/// The temperature of a package is not below that of any of its CPUs, and that of one of them
/// unless it is zero.
pub proof fn hottest_is_a_maximum(cpus: Seq<CpuPowerState>, package_id: u32, i: int)
    requires
        0 <= i < cpus.len(),
    ensures
        cpus[i].package_id == package_id ==> hottest(cpus, package_id) >= cpus[i].temperature_c,
        hottest(cpus, package_id) == 0 || exists|k: int|
            0 <= k < cpus.len() && (#[trigger] cpus[k]).package_id == package_id
                && cpus[k].temperature_c == hottest(cpus, package_id),
    decreases cpus.len(),
{
    let rest = cpus.drop_last();
    let last = cpus.len() - 1;
    assert(cpus[last] == cpus.last());
    if rest.len() > 0 {
        let at: int = if i < rest.len() {
            i
        } else {
            0
        };
        hottest_is_a_maximum(rest, package_id, at);
        if hottest(rest, package_id) != 0 {
            let k = choose|k: int|
                0 <= k < rest.len() && (#[trigger] rest[k]).package_id == package_id
                    && rest[k].temperature_c == hottest(rest, package_id);
            assert(cpus[k] == rest[k]);
        }
    } else {
        assert(hottest(rest, package_id) == 0);
    }
}

} // verus!
