//! Per-CPU scheduler statistics.

use crate::task_struct::Task;
use vstd::prelude::*;

verus! {

/// Statistics of one CPU.
#[derive(Clone, Copy, Debug, PartialEq, Eq, Structural)]
pub struct CpuStats {
    pub cpu_id: usize,
    /// Context switches.
    pub context_switches: u64,
    /// Nanoseconds spent running tasks.
    pub run_time_ns: u64,
    /// Nanoseconds spent idle.
    pub idle_time_ns: u64,
    /// Tasks that other CPUs stole from this one.
    pub tasks_stolen_out: u64,
    /// Tasks that this CPU stole from others.
    pub tasks_stolen_in: u64,
    /// Running average of the time from wakeup to run, in nanoseconds.
    pub avg_wakeup_latency_ns: u64,
    /// Largest time from wakeup to run, in nanoseconds.
    pub max_wakeup_latency_ns: u64,
    /// Deadline misses: tasks that ran after their deadline.
    pub deadline_misses: u64,
}

/// The statistics with which a CPU starts.
pub open spec fn fresh_stats(cpu_id: usize) -> CpuStats {
    CpuStats {
        cpu_id,
        context_switches: 0,
        run_time_ns: 0,
        idle_time_ns: 0,
        tasks_stolen_out: 0,
        tasks_stolen_in: 0,
        avg_wakeup_latency_ns: 0,
        max_wakeup_latency_ns: 0,
        deadline_misses: 0,
    }
}

/// A switch to a task that woke at `wakeup_ns` has a latency to record.
pub open spec fn has_latency(wakeup_ns: u64, now_ns: u64) -> bool {
    wakeup_ns > 0 && now_ns >= wakeup_ns
}

/// The statistics after a switch at `now_ns` to a task that woke at `wakeup_ns`:
/// the average moves an eighth of the way to the new latency.
pub open spec fn switched(s: CpuStats, wakeup_ns: u64, now_ns: u64) -> CpuStats {
    let latency = (now_ns - wakeup_ns) as int;
    CpuStats {
        context_switches: s.context_switches.wrapping_add(1),
        avg_wakeup_latency_ns: if has_latency(wakeup_ns, now_ns) {
            ((s.avg_wakeup_latency_ns * 7 + latency) / 8) as u64
        } else {
            s.avg_wakeup_latency_ns
        },
        max_wakeup_latency_ns: if has_latency(wakeup_ns, now_ns) && latency
            > s.max_wakeup_latency_ns {
            latency as u64
        } else {
            s.max_wakeup_latency_ns
        },
        ..s
    }
}

/// The statistics after `elapsed_ns` of idling or of running a task.
pub open spec fn charged(s: CpuStats, idle: bool, elapsed_ns: u64) -> CpuStats {
    CpuStats {
        idle_time_ns: if idle {
            s.idle_time_ns.wrapping_add(elapsed_ns)
        } else {
            s.idle_time_ns
        },
        run_time_ns: if idle {
            s.run_time_ns
        } else {
            s.run_time_ns.wrapping_add(elapsed_ns)
        },
        ..s
    }
}

/// The statistics after another CPU has stolen a task from this one.
pub open spec fn stolen_from(s: CpuStats) -> CpuStats {
    CpuStats { tasks_stolen_out: s.tasks_stolen_out.wrapping_add(1), ..s }
}

/// The statistics after this CPU has stolen a task from another one.
pub open spec fn stealing(s: CpuStats) -> CpuStats {
    CpuStats { tasks_stolen_in: s.tasks_stolen_in.wrapping_add(1), ..s }
}

/// The statistics after a task has run after its deadline.
pub open spec fn missed(s: CpuStats) -> CpuStats {
    CpuStats { deadline_misses: s.deadline_misses.wrapping_add(1), ..s }
}

impl CpuStats {
    /// Statistics of a CPU that has done nothing yet.
    pub fn new(cpu_id: usize) -> (s: Self)
        ensures
            s == fresh_stats(cpu_id),
    {
        CpuStats {
            cpu_id,
            context_switches: 0,
            run_time_ns: 0,
            idle_time_ns: 0,
            tasks_stolen_out: 0,
            tasks_stolen_in: 0,
            avg_wakeup_latency_ns: 0,
            max_wakeup_latency_ns: 0,
            deadline_misses: 0,
        }
    }

    /// Counts `elapsed_ns` as idle time or as time that a task ran.
    pub fn charge(&mut self, idle: bool, elapsed_ns: u64)
        ensures
            *final(self) == charged(*old(self), idle, elapsed_ns),
    {
        if idle {
            self.idle_time_ns = self.idle_time_ns.wrapping_add(elapsed_ns);
        } else {
            self.run_time_ns = self.run_time_ns.wrapping_add(elapsed_ns);
        }
    }

    /// Records a switch to `to` at the time `now_ns`.
    pub fn record_switch(&mut self, to: &Task, now_ns: u64)
        ensures
            *final(self) == switched(*old(self), to.sched.wakeup_time_ns, now_ns),
    {
        self.context_switches = self.context_switches.wrapping_add(1);
        let wakeup_ns: u64 = to.sched.wakeup_time_ns;
        if wakeup_ns > 0 && now_ns >= wakeup_ns {
            let latency: u64 = now_ns - wakeup_ns;
            let sum: u128 = (self.avg_wakeup_latency_ns as u128) * 7 + latency as u128;
            self.avg_wakeup_latency_ns = (sum / 8) as u64;
            if latency > self.max_wakeup_latency_ns {
                self.max_wakeup_latency_ns = latency;
            }
        }
    }
}

/// Nanoseconds that a reading of the 3 GHz time stamp counter stands for.
pub fn monotonic_ns(tsc: u64) -> (r: u64)
    ensures
        r == tsc / 3,
{
    tsc / 3
}

/// The average latency never exceeds the largest latency, once that holds.
pub proof fn average_stays_below_maximum(s: CpuStats, wakeup_ns: u64, now_ns: u64)
    requires
        s.avg_wakeup_latency_ns <= s.max_wakeup_latency_ns,
    ensures
        switched(s, wakeup_ns, now_ns).avg_wakeup_latency_ns <= switched(
            s,
            wakeup_ns,
            now_ns,
        ).max_wakeup_latency_ns,
{
}

/// A switch is counted, and a latency moves the average an eighth of the way towards it and
/// raises the maximum to it where that is smaller. Without a wakeup time in the past there
/// is no latency.
pub proof fn switch_records_the_latency(s: CpuStats, wakeup_ns: u64, now_ns: u64)
    ensures
        ({
            let a = switched(s, wakeup_ns, now_ns);
            let latency = now_ns - wakeup_ns;
            &&& s.context_switches < u64::MAX ==> a.context_switches == s.context_switches + 1
            &&& wakeup_ns > 0 && latency >= 0 ==> {
                &&& a.max_wakeup_latency_ns >= latency
                &&& a.max_wakeup_latency_ns >= s.max_wakeup_latency_ns
                &&& a.max_wakeup_latency_ns == latency || a.max_wakeup_latency_ns
                    == s.max_wakeup_latency_ns
                &&& 8 * a.avg_wakeup_latency_ns <= 7 * s.avg_wakeup_latency_ns + latency < 8
                    * a.avg_wakeup_latency_ns + 8
            }
            &&& wakeup_ns == 0 || latency < 0 ==> a.max_wakeup_latency_ns
                == s.max_wakeup_latency_ns && a.avg_wakeup_latency_ns == s.avg_wakeup_latency_ns
            &&& a.run_time_ns == s.run_time_ns && a.idle_time_ns == s.idle_time_ns
            &&& a.deadline_misses == s.deadline_misses && a.cpu_id == s.cpu_id
        }),
{
}

/// Time that passes goes to exactly one of the two counters.
pub proof fn time_is_charged_once(s: CpuStats, idle: bool, elapsed_ns: u64)
    requires
        s.run_time_ns + elapsed_ns <= u64::MAX,
        s.idle_time_ns + elapsed_ns <= u64::MAX,
    ensures
        ({
            let a = charged(s, idle, elapsed_ns);
            &&& (a.run_time_ns + a.idle_time_ns) - (s.run_time_ns + s.idle_time_ns) == elapsed_ns
            &&& idle ==> a.run_time_ns == s.run_time_ns
            &&& !idle ==> a.idle_time_ns == s.idle_time_ns
            &&& a.context_switches == s.context_switches
        }),
{
}

/// A steal is counted once on each side, and nothing else is.
pub proof fn steals_are_counted_on_both_sides(thief: CpuStats, victim: CpuStats)
    requires
        thief.tasks_stolen_in < u64::MAX,
        victim.tasks_stolen_out < u64::MAX,
    ensures
        stealing(thief).tasks_stolen_in == thief.tasks_stolen_in + 1,
        stealing(thief).tasks_stolen_out == thief.tasks_stolen_out,
        stolen_from(victim).tasks_stolen_out == victim.tasks_stolen_out + 1,
        stolen_from(victim).tasks_stolen_in == victim.tasks_stolen_in,
        thief == (CpuStats { tasks_stolen_in: thief.tasks_stolen_in, ..stealing(thief) }),
        victim == (CpuStats { tasks_stolen_out: victim.tasks_stolen_out, ..stolen_from(victim) }),
{
}

} // verus!
