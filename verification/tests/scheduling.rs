use maios_kernel::decimal::decimal_text;
use maios_kernel::mks;
use maios_kernel::mks::deadline::{
    admit_bandwidth, bandwidth_utilization_permille, release_bandwidth, validate_dl_params, DlBandwidth,
    DlOverrunAction, MAX_BW,
};
use maios_kernel::mks::eevdf::EevdfRunQueue;
use maios_kernel::mks::plugin::{
    tsc_to_ns, CycleCounter, IsolatedCorePlugin, LatencyFirstPlugin, PluginAction, PluginRegistry,
    SchedPlugin, ThroughputFirstPlugin,
};
use maios_kernel::mks::realtime::{DeadlineRunQueue, RtRunQueue};
use maios_kernel::mks::runqueue::{PerCpuRunQueue, SchedClassExt, SchedClassId};
use maios_kernel::mks::stats::CpuStats;
use maios_kernel::mks::topology::{CpuInfo, CpuTopology};
use maios_kernel::mks::MaiScheduler;
use maios_kernel::scheduler::{get_timeslice_period_ns, get_timeslice_ticks, TscClock};
use maios_kernel::task::{TaskRef, TaskTable};
use std::cell::Cell;
use maios_kernel::task_struct::{InheritedStates, KernelStack, RunState, SchedClass, Task};

fn task(tasks: &mut TaskTable, id: usize) -> TaskRef {
    let stack = KernelStack { bottom: 0x1000, top: 0x9000 };
    let states = InheritedStates { mmi: 1, namespace: 2, env: 3, app_crate: None };
    tasks.insert(Task::new(id, String::from("worker"), stack, states))
}

fn with_class(tasks: &mut TaskTable, id: usize, policy: SchedClass) -> TaskRef {
    let t = task(tasks, id);
    tasks.write(t).sched.policy = policy;
    t
}

#[test]
fn decimal_text_of_numbers() {
    assert_eq!(decimal_text(0), "0");
    assert_eq!(decimal_text(18446744073709551615), "18446744073709551615");
}

#[test]
fn nice_values_give_weights() {
    assert_eq!(mks::nice_to_idx(-20), 0);
    assert_eq!(mks::nice_to_idx(19), 39);
    assert_eq!(mks::nice_to_idx(100), 39);
    assert_eq!(mks::nice_to_idx(-128), 0);
    assert_eq!(mks::weight_for_nice(0), 1024);
    assert_eq!(mks::weight_for_nice(-20), 88761);
    assert_eq!(mks::weight_for_nice(19), 15);
}

#[test]
fn new_task_has_default_scheduling() {
    let mut tasks = TaskTable::new();
    let t = task(&mut tasks, 7);
    let read = tasks.read(t);
    assert_eq!(read.id, 7);
    assert_eq!(read.runstate, RunState::Runnable);
    assert_eq!(read.sched.nice, 0);
    assert_eq!(read.sched.policy, SchedClass::Normal);
    assert!(!read.sched.on_rq);
}

#[test]
fn first_fair_task_gets_whole_latency() {
    let mut tasks = TaskTable::new();
    let mut q = EevdfRunQueue::new();
    let a = task(&mut tasks, 1);
    let b = task(&mut tasks, 2);
    q.enqueue(&mut tasks, a, false);
    assert_eq!(tasks.read(a).sched.vdeadline, 6_000_000);
    q.enqueue(&mut tasks, b, false);
    assert_eq!(tasks.read(b).sched.vdeadline, 3_000_000);
    assert!(tasks.read(b).sched.on_rq);
    assert_eq!(q.nr_running, 2);
}

#[test]
fn fair_pick_takes_earliest_virtual_deadline() {
    let mut tasks = TaskTable::new();
    let mut q = EevdfRunQueue::new();
    let a = task(&mut tasks, 1);
    let b = task(&mut tasks, 2);
    q.enqueue(&mut tasks, a, false);
    q.enqueue(&mut tasks, b, false);
    assert_eq!(q.pick_next(&mut tasks), Some(b));
    assert!(!tasks.read(b).sched.on_rq);
    assert_eq!(q.nr_running, 1);
    assert_eq!(q.pick_next(&mut tasks), Some(a));
    assert_eq!(q.pick_next(&mut tasks), None);
}

#[test]
fn fair_enqueue_then_dequeue_leaves_queue_empty() {
    let mut tasks = TaskTable::new();
    let mut q = EevdfRunQueue::default();
    let a = task(&mut tasks, 1);
    q.enqueue(&mut tasks, a, false);
    q.dequeue(&mut tasks, a);
    assert_eq!(q.nr_running, 0);
    assert!(!tasks.read(a).sched.on_rq);
    assert_eq!(q.pick_next(&mut tasks), None);
    let b = task(&mut tasks, 2);
    q.enqueue(&mut tasks, b, false);
    assert_eq!(tasks.read(b).sched.vdeadline, 6_000_000);
}

#[test]
fn fair_tick_charges_virtual_time() {
    let mut tasks = TaskTable::new();
    let mut q = EevdfRunQueue::new();
    let a = task(&mut tasks, 1);
    tasks.write(a).sched.vdeadline = 6_000_000;
    assert!(!q.tick(&mut tasks, a, 1000));
    assert_eq!(tasks.read(a).sched.vruntime, 1000);
    assert_eq!(tasks.read(a).sched.exec_runtime, 1000);
    assert_eq!(q.clock(), q.min_vruntime);
    tasks.write(a).sched.vdeadline = 1500;
    assert!(q.tick(&mut tasks, a, 1000));
    assert_eq!(tasks.read(a).sched.vruntime, 2000);
    let heavy = task(&mut tasks, 2);
    tasks.write(heavy).sched.nice = -20;
    q.tick(&mut tasks, heavy, 88761);
    assert_eq!(tasks.read(heavy).sched.vruntime, 1024);
    let light = task(&mut tasks, 3);
    tasks.write(light).sched.nice = 19;
    q.tick(&mut tasks, light, 15);
    assert_eq!(tasks.read(light).sched.vruntime, 1024);
}

#[test]
fn lone_fair_task_can_be_stolen_from_the_class_queue() {
    let mut tasks = TaskTable::new();
    let mut q = EevdfRunQueue::new();
    assert_eq!(q.steal_one(&mut tasks), None);
    let a = task(&mut tasks, 1);
    let b = task(&mut tasks, 2);
    q.enqueue(&mut tasks, a, false);
    q.enqueue(&mut tasks, b, false);
    let stolen = q.steal_one(&mut tasks);
    assert!(stolen == Some(a) || stolen == Some(b));
    assert_eq!(q.nr_running, 1);
    assert!(!tasks.read(stolen.unwrap()).sched.on_rq);
}

#[test]
fn realtime_pick_takes_highest_priority() {
    let mut tasks = TaskTable::new();
    let mut q = RtRunQueue::new();
    let low = with_class(&mut tasks, 1, SchedClass::Fifo);
    let high = with_class(&mut tasks, 2, SchedClass::Fifo);
    tasks.write(low).sched.rt_priority = 10;
    tasks.write(high).sched.rt_priority = 99;
    q.enqueue(&tasks, low);
    q.enqueue(&tasks, high);
    assert_eq!(q.nr_running, 2);
    assert_eq!(q.pick_next(&tasks), Some(high));
    q.dequeue(high);
    assert_eq!(q.pick_next(&tasks), Some(low));
    q.dequeue(low);
    assert_eq!(q.pick_next(&tasks), None);
}

#[test]
fn round_robin_task_loses_its_turn() {
    let mut tasks = TaskTable::new();
    let mut q = RtRunQueue::default();
    let a = with_class(&mut tasks, 1, SchedClass::RoundRobin(1000));
    tasks.write(a).sched.rr_timeslice_remaining = 1000;
    q.enqueue(&tasks, a);
    assert!(!q.tick(&mut tasks, a, 400));
    assert_eq!(tasks.read(a).sched.rr_timeslice_remaining, 600);
    assert!(q.tick(&mut tasks, a, 600));
    assert_eq!(tasks.read(a).sched.rr_timeslice_remaining, 1000);
    let fifo = with_class(&mut tasks, 2, SchedClass::Fifo);
    assert!(!q.tick(&mut tasks, fifo, 1_000_000_000));
}

#[test]
fn deadline_queue_runs_earliest_deadline() {
    let mut tasks = TaskTable::new();
    let mut q = DeadlineRunQueue::new();
    let slow = with_class(&mut tasks, 1, SchedClass::Deadline { period_ns: 10_000_000, runtime_ns: 1_000_000 });
    let fast = with_class(&mut tasks, 2, SchedClass::Deadline { period_ns: 5_000_000, runtime_ns: 1_000_000 });
    assert_eq!(q.enqueue(&tasks, slow, 0), Ok(()));
    assert_eq!(q.enqueue(&tasks, fast, 0), Ok(()));
    assert_eq!(q.nr_running, 2);
    assert_eq!(q.pick_next(0), Some(fast));
    assert_eq!(q.nr_running, 1);
    assert!(!q.tick(fast, 400_000));
    assert!(!q.tick(slow, 400_000));
    assert!(q.tick(slow, 600_000));
    assert_eq!(q.pick_next(0), None);
    assert_eq!(q.enqueue(&tasks, fast, 0), Ok(()));
    assert_eq!(q.nr_running, 2);
    assert_eq!(q.pick_next(0), Some(fast));
    assert!(q.tick(fast, 600_000));
    assert_eq!(q.enqueue(&tasks, fast, 0), Ok(()));
    assert_eq!(q.pick_next(4_999_999), None);
    assert_eq!(q.pick_next(5_000_000), Some(fast));
    assert!(!q.tick(fast, 999_999));
    assert_eq!(q.pick_next(9_999_999), None);
    assert_eq!(q.pick_next(10_000_000), Some(slow));
    assert_eq!(q.nr_running, 0);
}

#[test]
fn exhausted_deadline_task_hides_no_other() {
    let mut tasks = TaskTable::new();
    let mut q = PerCpuRunQueue::new(0);
    let first = with_class(&mut tasks, 1, SchedClass::Deadline { period_ns: 5_000_000, runtime_ns: 1_000_000 });
    let second = with_class(&mut tasks, 2, SchedClass::Deadline { period_ns: 8_000_000, runtime_ns: 1_000_000 });
    let fair = task(&mut tasks, 3);
    q.enqueue(&mut tasks, first, 0);
    q.enqueue(&mut tasks, second, 0);
    q.enqueue(&mut tasks, fair, 0);
    assert!(q.deadline_rq.tick(first, 1_000_000));
    assert_eq!(q.pick_next(&mut tasks, 0), Some(second));
    assert_eq!(q.pick_next(&mut tasks, 1), Some(fair));
}

#[test]
fn running_deadline_task_is_charged_and_comes_back() {
    let mut tasks = TaskTable::new();
    let mut q = PerCpuRunQueue::new(0);
    let dl = with_class(&mut tasks, 1, SchedClass::Deadline { period_ns: 1000, runtime_ns: 600 });
    q.enqueue(&mut tasks, dl, 0);
    for round in 0..3u64 {
        let start = 1000 * round;
        assert_eq!(q.pick_next(&mut tasks, start), Some(dl));
        q.set_current(&mut tasks, dl);
        q.tick(&mut tasks, 200);
        assert!(!q.need_resched);
        q.put_prev(&mut tasks, dl, start + 200);
        assert_eq!(q.deadline_rq.nr_running, 1);
        assert_eq!(q.pick_next(&mut tasks, start + 200), Some(dl));
        q.set_current(&mut tasks, dl);
        q.tick(&mut tasks, 1_000_000);
        assert!(q.need_resched);
        q.yield_current(&mut tasks, start + 600);
        assert_eq!(q.deadline_rq.nr_running, 1);
        assert_eq!(q.pick_next(&mut tasks, start + 999), None);
    }
    assert_eq!(q.load(), 1);
    assert_eq!(q.stats.deadline_misses, 0);
    // 350 thousandths are left beside the 600 that the task claims.
    let other = with_class(&mut tasks, 2, SchedClass::Deadline { period_ns: 1000, runtime_ns: 350 });
    assert_eq!(q.deadline_rq.enqueue(&tasks, other, 0), Ok(()));
    let more = with_class(&mut tasks, 3, SchedClass::Deadline { period_ns: 1000, runtime_ns: 1 });
    assert!(q.deadline_rq.enqueue(&tasks, more, 0).is_err());
    q.dequeue(&mut tasks, dl);
    assert_eq!(q.deadline_rq.enqueue(&tasks, more, 0), Ok(()));
}

#[test]
fn late_deadline_task_counts_as_a_miss_once() {
    let mut tasks = TaskTable::new();
    let mut q = PerCpuRunQueue::new(0);
    let dl = with_class(&mut tasks, 1, SchedClass::Deadline { period_ns: 1000, runtime_ns: 600 });
    q.enqueue(&mut tasks, dl, 0);
    assert_eq!(q.pick_next(&mut tasks, 1000), Some(dl));
    assert_eq!(q.stats.deadline_misses, 0);
    q.put_prev(&mut tasks, dl, 1001);
    assert_eq!(q.stats.deadline_misses, 1);
    assert_eq!(q.pick_next(&mut tasks, 1002), Some(dl));
    q.put_prev(&mut tasks, dl, 1003);
    assert_eq!(q.stats.deadline_misses, 1);
}

#[test]
fn deadline_queue_refuses() {
    let mut tasks = TaskTable::new();
    let mut q = DeadlineRunQueue::default();
    let normal = task(&mut tasks, 1);
    assert_eq!(q.enqueue(&tasks, normal, 0), Err("MKS/DL: task is not SCHED_DEADLINE"));
    let zero = with_class(&mut tasks, 2, SchedClass::Deadline { period_ns: 0, runtime_ns: 1 });
    assert_eq!(q.enqueue(&tasks, zero, 0), Err("MKS/DL: period cannot be zero"));
    let full = with_class(&mut tasks, 3, SchedClass::Deadline { period_ns: 100, runtime_ns: 95 });
    assert_eq!(q.enqueue(&tasks, full, 0), Ok(()));
    let more = with_class(&mut tasks, 4, SchedClass::Deadline { period_ns: 100, runtime_ns: 1 });
    assert_eq!(q.enqueue(&tasks, more, 0), Err("MKS/DL: admission control: bandwidth exceeded"));
    q.dequeue(full);
    assert_eq!(q.enqueue(&tasks, more, 0), Ok(()));
}

#[test]
fn deadline_parameters_are_validated() {
    assert_eq!(validate_dl_params(1, 1, 0), Err("SCHED_DEADLINE: period must be > 0"));
    assert_eq!(validate_dl_params(0, 1, 1), Err("SCHED_DEADLINE: runtime must be > 0"));
    assert_eq!(validate_dl_params(1, 2_000_000, 1_000_000), Err("SCHED_DEADLINE: deadline must be <= period"));
    assert_eq!(validate_dl_params(5, 4, 1_000_000), Err("SCHED_DEADLINE: runtime must be <= deadline"));
    assert_eq!(validate_dl_params(1, 2, 999_999), Err("SCHED_DEADLINE: period must be >= 1ms (1_000_000 ns)"));
    assert_eq!(validate_dl_params(1, 2, 1_000_000), Ok(()));
}

#[test]
fn bandwidth_is_admitted_and_released() {
    let mut global = DlBandwidth { admitted: 0 };
    assert_eq!(MAX_BW, 950_000);
    assert_eq!(admit_bandwidth(&mut global, 1, 2), Ok(500_000));
    assert_eq!(bandwidth_utilization_permille(&global), 500_000 * 1000 / 950_000);
    assert_eq!(
        admit_bandwidth(&mut global, 1, 2),
        Err("SCHED_DEADLINE: global bandwidth limit exceeded")
    );
    assert_eq!(global.admitted, 500_000);
    assert!(admit_bandwidth(&mut global, u64::MAX, 1).is_err());
    release_bandwidth(&mut global, 500_000);
    assert_eq!(global.admitted, 0);
    let mut full = DlBandwidth { admitted: u64::MAX };
    assert!(admit_bandwidth(&mut full, 1, 2).is_err());
    assert_eq!(DlOverrunAction::default(), DlOverrunAction::Throttle);
}

#[test]
fn classes_map_to_queues() {
    assert_eq!(SchedClass::Deadline { period_ns: 1, runtime_ns: 1 }.class(), SchedClassId::Deadline);
    assert_eq!(SchedClass::Fifo.class(), SchedClassId::RealTime);
    assert_eq!(SchedClass::RoundRobin(1).class(), SchedClassId::RealTime);
    assert_eq!(SchedClass::Compute.class(), SchedClassId::Compute);
    assert_eq!(SchedClass::Normal.class(), SchedClassId::Normal);
    assert_eq!(SchedClass::Batch.class(), SchedClassId::Batch);
    assert_eq!(SchedClass::Idle.class(), SchedClassId::Idle);
}

#[test]
fn run_queue_serves_classes_in_order() {
    let mut tasks = TaskTable::new();
    let mut q = PerCpuRunQueue::new(0);
    let idle = task(&mut tasks, 1);
    let fair = task(&mut tasks, 2);
    let rt = with_class(&mut tasks, 3, SchedClass::Fifo);
    let dl = with_class(&mut tasks, 4, SchedClass::Deadline { period_ns: 10_000_000, runtime_ns: 1_000_000 });
    q.idle_rq.set_idle_task(idle);
    assert_eq!(q.idle_rq.pick_next(), Some(idle));
    q.enqueue(&mut tasks, fair, 0);
    q.enqueue(&mut tasks, rt, 0);
    q.enqueue(&mut tasks, dl, 0);
    assert_eq!(q.load(), 3);
    assert_eq!(q.pick_next(&mut tasks, 0), Some(dl));
    q.dequeue(&mut tasks, dl);
    assert_eq!(q.pick_next(&mut tasks, 0), Some(rt));
    q.dequeue(&mut tasks, rt);
    assert_eq!(q.pick_next(&mut tasks, 0), Some(fair));
    assert_eq!(q.pick_next(&mut tasks, 0), None);
}

#[test]
fn last_task_of_a_run_queue_stays() {
    let mut tasks = TaskTable::new();
    let mut q = PerCpuRunQueue::new(0);
    let a = task(&mut tasks, 1);
    let b = task(&mut tasks, 2);
    q.enqueue(&mut tasks, a, 0);
    assert_eq!(q.steal_one(&mut tasks), None);
    q.enqueue(&mut tasks, b, 0);
    assert!(q.steal_one(&mut tasks).is_some());
    assert_eq!(q.steal_one(&mut tasks), None);
}

#[test]
fn enqueue_records_the_cpu() {
    let mut tasks = TaskTable::new();
    let mut q = PerCpuRunQueue::new(3);
    let a = task(&mut tasks, 1);
    q.enqueue(&mut tasks, a, 0);
    assert_eq!(tasks.read(a).sched.last_cpu, 3);
}

#[test]
fn pinned_task_stays_on_its_cpu() {
    let mut tasks = TaskTable::new();
    let mut m = MaiScheduler::new(4, CpuTopology::uniform(4));
    let a = task(&mut tasks, 1);
    tasks.write(a).sched.pinned_cpu = Some(2);
    assert_eq!(m.select_cpu_for_task(&tasks, a), 2);
    tasks.write(a).sched.pinned_cpu = Some(9);
    assert_eq!(m.select_cpu_for_task(&tasks, a), 3);
    tasks.write(a).sched.pinned_cpu = Some(2);
    m.enqueue(&mut tasks, a, 0);
    assert_eq!(m.rqs[2].load(), 1);
    assert_eq!(m.pick_next(&mut tasks, 2, 0), Some(a));
}

#[test]
fn idle_cpu_steals_from_a_busy_one() {
    let mut tasks = TaskTable::new();
    let mut m = MaiScheduler::new(2, CpuTopology::uniform(2));
    for id in 1..4usize {
        let t = task(&mut tasks, id);
        m.rqs[0].enqueue(&mut tasks, t, 0);
    }
    assert_eq!(m.rqs[0].load(), 3);
    assert_eq!(m.average_load(), 1);
    assert!(m.pick_next(&mut tasks, 1, 0).is_some());
    assert_eq!(m.rqs[0].stats.tasks_stolen_out, 1);
    assert_eq!(m.rqs[1].stats.tasks_stolen_in, 1);
    assert_eq!((m.rqs[0].load(), m.rqs[1].load()), (2, 1));
}

#[test]
fn pinned_task_is_not_stolen() {
    let mut tasks = TaskTable::new();
    let mut m = MaiScheduler::new(2, CpuTopology::uniform(2));
    for id in 1..4usize {
        let t = task(&mut tasks, id);
        tasks.write(t).sched.pinned_cpu = Some(0);
        m.enqueue(&mut tasks, t, 0);
    }
    assert_eq!(m.rqs[0].load(), 3);
    assert_eq!(m.pick_next(&mut tasks, 1, 0), None);
    tasks.write(TaskRef { id: 2 }).sched.pinned_cpu = None;
    assert_eq!(m.pick_next(&mut tasks, 1, 0), Some(TaskRef { id: 2 }));
}

#[test]
fn dequeue_finds_the_task_on_any_cpu() {
    let mut tasks = TaskTable::new();
    let mut m = MaiScheduler::new(2, CpuTopology::uniform(2));
    let a = task(&mut tasks, 1);
    m.enqueue(&mut tasks, a, 0);
    m.dequeue(&mut tasks, a);
    assert_eq!(m.average_load(), 0);
    assert_eq!(m.pick_next(&mut tasks, 0, 0), None);
    assert_eq!(m.pick_next(&mut tasks, 1, 0), None);
}

#[test]
fn placement_stays_on_the_numa_node() {
    let cpu = |id: usize, node: usize| CpuInfo {
        logical_id: id,
        core_id: id as u32,
        package_id: 0,
        numa_node: node,
        l3_group: node as u32,
    };
    let mut tasks = TaskTable::new();
    let topology = CpuTopology::from_cpus(vec![cpu(0, 0), cpu(1, 1), cpu(2, 1)]);
    let mut m = MaiScheduler::new(3, topology);
    let a = task(&mut tasks, 1);
    tasks.write(a).sched.last_cpu = 1;
    assert_eq!(m.select_cpu_for_task(&tasks, a), 1);
    m.enqueue(&mut tasks, a, 0);
    let b = task(&mut tasks, 2);
    tasks.write(b).sched.last_cpu = 1;
    assert_eq!(m.select_cpu_for_task(&tasks, b), 2);
}

#[test]
fn woken_task_preempts_a_late_deadline() {
    let mut tasks = TaskTable::new();
    let mut m = MaiScheduler::new(1, CpuTopology::uniform(1));
    let running = task(&mut tasks, 1);
    tasks.write(running).sched.vdeadline = 7_000_001;
    m.rqs[0].set_current(&mut tasks, running);
    let woken = task(&mut tasks, 2);
    tasks.write(woken).runstate = RunState::Blocked;
    m.task_wakeup(&mut tasks, woken, 0, 0);
    assert_eq!(tasks.read(woken).runstate, RunState::Runnable);
    assert_eq!(tasks.read(woken).sched.vdeadline, 6_000_000);
    assert!(m.rqs[0].need_resched);
    m.rqs[0].set_current(&mut tasks, running);
    tasks.write(running).sched.vdeadline = 4_000_000;
    let other = task(&mut tasks, 3);
    m.task_wakeup(&mut tasks, other, 0, 0);
    assert_eq!(tasks.read(other).sched.vdeadline, 3_000_000);
    assert!(!m.rqs[0].need_resched);
}

#[test]
fn idle_task_runs_when_nothing_else_can() {
    let mut tasks = TaskTable::new();
    let mut m = MaiScheduler::new(1, CpuTopology::uniform(1));
    let idle = with_class(&mut tasks, 1, SchedClass::Idle);
    m.rqs[0].idle_rq.set_idle_task(idle);
    assert_eq!(m.pick_next(&mut tasks, 0, 0), Some(idle));
    let a = task(&mut tasks, 2);
    m.enqueue(&mut tasks, a, 0);
    assert_eq!(m.pick_next(&mut tasks, 0, 0), Some(a));
}

#[test]
fn tick_counts_running_and_idle_time() {
    let mut tasks = TaskTable::new();
    let mut m = MaiScheduler::new(1, CpuTopology::uniform(1));
    m.tick(&mut tasks, 0, 500);
    assert_eq!(m.rqs[0].stats.idle_time_ns, 500);
    let a = task(&mut tasks, 1);
    m.rqs[0].set_current(&mut tasks, a);
    m.tick(&mut tasks, 0, 700);
    assert_eq!(m.rqs[0].stats.run_time_ns, 700);
    assert_eq!(m.rqs[0].stats.idle_time_ns, 500);
    m.tick(&mut tasks, 9, 700);
    assert_eq!(m.rqs[0].stats.run_time_ns, 700);
}

#[test]
fn steal_order_prefers_near_cpus() {
    let cpu = |id: usize, core: u32, node: usize, l3: u32| CpuInfo {
        logical_id: id,
        core_id: core,
        package_id: 0,
        numa_node: node,
        l3_group: l3,
    };
    let t = CpuTopology::from_cpus(vec![cpu(0, 0, 0, 0), cpu(1, 5, 1, 1), cpu(2, 1, 0, 0), cpu(3, 0, 0, 0)]);
    assert_eq!(t.steal_order(0), &[3usize, 2, 1][..]);
    let n = CpuTopology::from_cpus(vec![cpu(0, 0, 0, 0), cpu(1, 1, 1, 1), cpu(2, 2, 0, 5)]);
    assert_eq!(n.steal_order(0), &[2usize, 1][..]);
    assert_eq!(t.cpu_to_numa(1), 1);
    assert_eq!(t.cpu_to_numa(77), 0);
    assert_eq!(t.cpus_in_numa(0), vec![0, 2, 3]);
}

#[test]
fn switch_latency_is_averaged() {
    let mut tasks = TaskTable::new();
    let mut s = CpuStats::new(1);
    let a = task(&mut tasks, 1);
    tasks.write(a).sched.wakeup_time_ns = 1000;
    s.record_switch(tasks.read(a), 1800);
    assert_eq!(s.context_switches, 1);
    assert_eq!(s.max_wakeup_latency_ns, 800);
    assert_eq!(s.avg_wakeup_latency_ns, 100);
}

struct Counter {
    now: Cell<u64>,
    step: u64,
}

impl CycleCounter for Counter {
    fn read_tsc(&self) -> u64 {
        self.now.set(self.now.get() + self.step);
        self.now.get()
    }
}

#[test]
fn latency_plugin_picks_longest_waiting() {
    let mut tasks = TaskTable::new();
    let a = task(&mut tasks, 1);
    let b = task(&mut tasks, 2);
    tasks.write(a).sched.wakeup_time_ns = 50;
    tasks.write(b).sched.wakeup_time_ns = 40;
    let mut r = PluginRegistry::new();
    r.register(5, LatencyFirstPlugin);
    assert_eq!(r.get(5).unwrap().name(), LatencyFirstPlugin.name());
    r.notify_runnable(5, a, 0);
    r.notify_runnable(5, b, 0);
    let quick = Counter { now: Cell::new(0), step: 10 };
    assert_eq!(r.pick_next(&tasks, 5, 0, None, 0, &quick), Some(b));
    assert_eq!(r.pick_next(&tasks, 6, 0, None, 0, &quick), None);
    r.unregister(5);
    assert!(r.get(5).is_none());
}

#[test]
fn slow_plugin_answer_is_dropped() {
    let mut tasks = TaskTable::new();
    let a = task(&mut tasks, 1);
    let mut r = PluginRegistry::new();
    r.register(1, ThroughputFirstPlugin);
    r.notify_runnable(1, a, 0);
    let slow = Counter { now: Cell::new(0), step: 1_000_000_000 };
    assert_eq!(r.pick_next(&tasks, 1, 0, None, 0, &slow), None);
}

#[test]
fn isolated_plugin_migrates_to_its_core() {
    let p = IsolatedCorePlugin { dedicated_cpu: 3 };
    assert_eq!(p.on_task_runnable(TaskRef { id: 1 }, 0), PluginAction::Migrate(3));
    assert_eq!(tsc_to_ns(3000), 1000);
}

#[test]
fn tsc_clock_is_calibrated() {
    let mut c = TscClock::new();
    assert_eq!(c.elapsed_ns_tsc(500), 1_000_000);
    c.calibrate_tsc(2_000_000);
    assert_eq!(c.ticks_per_ns, 2);
    assert_eq!(c.elapsed_ns_tsc(1500), 500);
    assert_eq!(c.elapsed_ns_tsc(1000), 0);
    c.calibrate_tsc(10);
    assert_eq!(c.ticks_per_ns, 1);
    c.calibrate_tsc(0);
    assert_eq!(c.ticks_per_ns, 1);
}

#[test]
fn timeslices_convert() {
    assert_eq!(get_timeslice_period_ns(10), 10_000);
    assert_eq!(get_timeslice_ticks(10, 1_000_000), 10_000);
}
