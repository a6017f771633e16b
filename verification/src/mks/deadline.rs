//! System-wide admission of deadline tasks.

use crate::mks::{SCHED_DL_BANDWIDTH_DEN, SCHED_DL_BANDWIDTH_NUM};
use vstd::prelude::*;

verus! {

/// Bandwidth admitted system-wide, in millionths of a CPU.
#[derive(Clone, Copy, Debug, PartialEq, Eq, Structural)]
pub struct DlBandwidth {
    pub admitted: u64,
}

/// Maximum bandwidth in millionths of a CPU.
pub const MAX_BW: u64 = SCHED_DL_BANDWIDTH_NUM * 1_000_000 / SCHED_DL_BANDWIDTH_DEN;

/// Checks the parameters of a deadline task; the first condition that is not
/// met is reported.
pub fn validate_dl_params(runtime: u64, deadline: u64, period: u64) -> (r: Result<
    (),
    &'static str,
>)
    ensures
        r is Ok <==> 0 < runtime <= deadline <= period && period >= 1_000_000,
        r matches Err(e) ==> e@ == if period == 0 {
            "SCHED_DEADLINE: period must be > 0"@
        } else if runtime == 0 {
            "SCHED_DEADLINE: runtime must be > 0"@
        } else if deadline > period {
            "SCHED_DEADLINE: deadline must be <= period"@
        } else if runtime > deadline {
            "SCHED_DEADLINE: runtime must be <= deadline"@
        } else {
            "SCHED_DEADLINE: period must be >= 1ms (1_000_000 ns)"@
        },
{
    if period == 0 {
        return Err("SCHED_DEADLINE: period must be > 0");
    }
    if runtime == 0 {
        return Err("SCHED_DEADLINE: runtime must be > 0");
    }
    if deadline > period {
        return Err("SCHED_DEADLINE: deadline must be <= period");
    }
    if runtime > deadline {
        return Err("SCHED_DEADLINE: runtime must be <= deadline");
    }
    if period < 1_000_000 {
        return Err("SCHED_DEADLINE: period must be >= 1ms (1_000_000 ns)");
    }
    Ok(())
}

/// Bandwidth of a task in millionths of a CPU.
pub open spec fn contribution(runtime: u64, period: u64) -> int {
    (runtime * 1_000_000) / period as int
}

/// Admits a deadline task system-wide. The bandwidth that is returned has to be
/// released when the task exits.
pub fn admit_bandwidth(global: &mut DlBandwidth, runtime: u64, period: u64) -> (r: Result<
    u64,
    &'static str,
>)
    requires
        period != 0,
    ensures
        r is Ok <==> old(global).admitted + contribution(runtime, period) <= MAX_BW,
        r matches Ok(c) ==> c == contribution(runtime, period) && final(global).admitted
            == old(global).admitted + c,
        r matches Err(e) ==> e@ == "SCHED_DEADLINE: global bandwidth limit exceeded"@
            && *final(global) == *old(global),
{
    let wanted: u128 = (runtime as u128) * 1_000_000 / (period as u128);
    if wanted + global.admitted as u128 > MAX_BW as u128 {
        return Err("SCHED_DEADLINE: global bandwidth limit exceeded");
    }
    let share: u64 = wanted as u64;
    global.admitted = global.admitted + share;
    Ok(share)
}

/// Gives bandwidth back when a deadline task exits. The counter wraps around if
/// more is given back than was admitted.
pub fn release_bandwidth(global: &mut DlBandwidth, contribution: u64)
    ensures
        contribution <= old(global).admitted ==> final(global).admitted == old(global).admitted
            - contribution,
        contribution > old(global).admitted ==> final(global).admitted == old(global).admitted
            - contribution + 0x1_0000_0000_0000_0000,
{
    global.admitted = global.admitted.wrapping_sub(contribution);
}

/// Share of the admissible bandwidth that is in use, in thousandths.
pub fn bandwidth_utilization_permille(global: &DlBandwidth) -> (r: u64)
    requires
        global.admitted * 1000 <= u64::MAX,
    ensures
        r == global.admitted * 1000 / MAX_BW as int,
        global.admitted <= MAX_BW ==> r <= 1000,
{
    assert(MAX_BW == 950_000);
    assert(global.admitted <= 950_000 ==> (global.admitted * 1000) / 950_000 <= 1000);
    global.admitted * 1000 / MAX_BW
}

/// What happens when a deadline task has used up its runtime.
#[derive(Clone, Copy, Debug, PartialEq, Eq, Structural)]
pub enum DlOverrunAction {
    /// The task cannot run until its next period starts.
    Throttle,
    /// The task is killed.
    Kill,
    /// A warning is given and the task continues.
    WarnAndContinue,
}

impl Default for DlOverrunAction {
    fn default() -> (r: Self)
        ensures
            r == DlOverrunAction::Throttle,
    {
        DlOverrunAction::Throttle
    }
}

/// Releasing what was admitted restores the bandwidth, and admission never
/// exceeds the limit.
pub proof fn release_undoes_admission(before: u64, runtime: u64, period: u64)
    requires
        period != 0,
        before + contribution(runtime, period) <= MAX_BW,
    ensures
        ({
            let c = contribution(runtime, period);
            let after = before + c;
            0 <= c && after <= MAX_BW && after - c == before
        }),
{
    assert((runtime * 1_000_000) / period as int >= 0) by (nonlinear_arith)
        requires
            period > 0,
            runtime >= 0,
    ;
}

/// A task with valid parameters claims at most one whole CPU.
pub proof fn valid_task_fits_one_cpu(runtime: u64, deadline: u64, period: u64)
    requires
        0 < runtime <= deadline <= period,
    ensures
        0 <= contribution(runtime, period) <= 1_000_000,
{
    assert((runtime * 1_000_000) / period as int <= 1_000_000 && (runtime * 1_000_000)
        / period as int >= 0) by (nonlinear_arith)
        requires
            0 < runtime <= period,
    ;
}

/// A task claims its share in millionths, rounded down, and all tasks together may claim 95
/// of a hundred.
pub proof fn shares_are_counted_in_millionths(runtime: u64, period: u64)
    requires
        period != 0,
    ensures
        contribution(runtime, period) * period <= 1_000_000 * runtime < (contribution(
            runtime,
            period,
        ) + 1) * period,
        100 * MAX_BW == 95 * 1_000_000,
{
    let x = runtime * 1_000_000;
    let d = period as int;
    let c = x / d;
    vstd::arithmetic::div_mod::lemma_fundamental_div_mod(x, d);
    assert(c * d <= x < (c + 1) * d) by (nonlinear_arith)
        requires
            x == d * c + x % d,
            0 <= x % d < d,
    ;
}

} // verus!
