use maios_kernel::mks::topology::CpuTopology;
use maios_kernel::ordered_map::OrderedMap;
use maios_kernel::scheduler;
use maios_kernel::scheduler_epoch;
use maios_kernel::scheduler_priority;
use maios_kernel::spawn;
use maios_kernel::spawn::{CrateLoad, CrateSection, LoadedCrate, StackAllocation};
use maios_kernel::task;
use maios_kernel::task::joinable::{ExitableTaskRef, JoinableTaskRef};
use maios_kernel::task::scheduler::tasks as tasks_by_cpu;
use maios_kernel::task::scheduler::{
    add_task, inherit_priority, priority, remove_task, schedule, set_priority, PriorityScheduler, Scheduler,
    SchedulerBackend,
};
use maios_kernel::task::{SwitchDecision, TaskIdSource, TaskRef, TaskTable};
use maios_kernel::task_struct::{
    ExitValue, InheritedStates, KernelStack, KillReason, RunState, SchedClass, Task,
};

const STACK: KernelStack = KernelStack { bottom: 0x1000, top: 0x11000 };

fn states() -> InheritedStates {
    InheritedStates { mmi: 1, namespace: 2, env: 3, app_crate: None }
}

fn insert(tasks: &mut TaskTable, id: usize) -> TaskRef {
    tasks.insert(Task::new(id, String::from("t"), STACK, states()))
}

fn backend(cpus: usize) -> SchedulerBackend {
    let mut b = SchedulerBackend::new();
    scheduler::init(&mut b, cpus, CpuTopology::uniform(cpus));
    b
}

#[test]
fn ordered_map_keeps_keys_sorted() {
    let mut m = OrderedMap::new();
    assert_eq!(m.insert((5, 1), 'a'), None);
    assert_eq!(m.insert((3, 9), 'b'), None);
    assert_eq!(m.insert((5, 0), 'c'), None);
    assert_eq!(m.insert((5, 0), 'd'), Some('c'));
    assert_eq!(m.keys(), vec![(3, 9), (5, 0), (5, 1)]);
    assert_eq!(m.first_key(), Some((3, 9)));
    assert_eq!(m.last_key(), Some((5, 1)));
    assert_eq!(m.find_id(1), Some((5, 1)));
    assert_eq!(m.remove((3, 9)), Some('b'));
    assert_eq!(m.remove((3, 9)), None);
    assert_eq!(m.len(), 2);
}

#[test]
fn table_finds_tasks_by_identifier() {
    let mut tasks = TaskTable::new();
    insert(&mut tasks, 4);
    insert(&mut tasks, 2);
    assert_eq!(task::get_task(&tasks, 4), Some(TaskRef { id: 4 }));
    assert_eq!(task::get_task(&tasks, 5), None);
    assert_eq!(task::all_tasks(&tasks), vec![(2, TaskRef { id: 2 }), (4, TaskRef { id: 4 })]);
    assert!(tasks.remove(4).is_some());
    assert_eq!(task::get_task(&tasks, 4), None);
}

#[test]
fn initing_task_is_blocked_or_made_runnable() {
    let mut t = Task::new(1, String::from("t"), STACK, states());
    assert_eq!(t.block_initing_task(), Err(RunState::Runnable));
    t.runstate = RunState::Initing;
    assert_eq!(t.block_initing_task(), Ok(()));
    assert_eq!(t.runstate, RunState::Blocked);
    assert_eq!(t.make_inited_task_runnable(), Err(RunState::Blocked));
    t.runstate = RunState::Initing;
    assert_eq!(t.make_inited_task_runnable(), Ok(()));
    assert_eq!(t.runstate, RunState::Runnable);
    assert_eq!(t.get_namespace(), 2);
    assert_eq!(t.get_environment(), 3);
    assert_eq!(t.get_app_crate(), None);
}

#[test]
fn nice_sets_weight() {
    let mut t = Task::new(1, String::from("t"), STACK, states());
    t.set_nice(-20);
    assert_eq!(t.sched.weight, 88761);
    t.set_nice(100);
    assert_eq!(t.sched.nice, 19);
    assert_eq!(t.sched.weight, 15);
}

#[test]
fn tasks_compare_by_identifier() {
    let a = Task::new(1, String::from("a"), STACK, states());
    let b = Task::new(1, String::from("b"), STACK, states());
    let c = Task::new(2, String::from("a"), STACK, states());
    assert!(a == b);
    assert!(a != c);
}

#[test]
fn block_and_unblock_change_the_run_state() {
    let mut tasks = TaskTable::new();
    let mut b = backend(1);
    let t = insert(&mut tasks, 1);
    add_task(&mut b, &mut tasks, t, 0);
    assert!(t.is_runnable(&tasks));
    assert_eq!(t.unblock(&mut tasks, &mut b, 0), Ok(()));
    assert_eq!(t.block(&mut tasks, &mut b), Ok(()));
    assert!(!t.is_runnable(&tasks));
    assert_eq!(tasks.read(t).runstate, RunState::Blocked);
    assert_eq!(t.unblock(&mut tasks, &mut b, 0), Ok(()));
    assert_eq!(tasks.read(t).runstate, RunState::Runnable);
    assert!(tasks.read(t).sched.on_rq);
}

#[test]
fn killed_task_reports_its_reason() {
    let mut tasks = TaskTable::new();
    let mut b = backend(1);
    let t = insert(&mut tasks, 1);
    let j = JoinableTaskRef { task: t };
    assert_eq!(j.join(&tasks), None);
    assert!(!j.has_exited(&tasks));
    assert_eq!(t.kill(&mut tasks, &mut b, KillReason::Requested), Ok(()));
    assert!(j.has_exited(&tasks));
    assert_eq!(j.join(&tasks), Some(ExitValue::Killed(KillReason::Requested)));
    assert_eq!(t.kill(&mut tasks, &mut b, KillReason::Panic), Ok(()));
    assert_eq!(j.join(&tasks), Some(ExitValue::Killed(KillReason::Requested)));
    assert_eq!(t.block(&mut tasks, &mut b), Err(RunState::Exited(ExitValue::Killed(KillReason::Requested))));
}

#[test]
fn task_exits_once() {
    let mut tasks = TaskTable::new();
    let t = insert(&mut tasks, 1);
    let e = ExitableTaskRef::obtain_for_unwinder(t);
    assert_eq!(e.mark_as_exited(&mut tasks), Ok(()));
    assert!(e.mark_as_exited(&mut tasks).is_err());
    assert!(e.mark_as_killed(&mut tasks, KillReason::Exception(14)).is_err());
    assert_eq!(e.with_kstack(&tasks), STACK);
}

#[test]
fn kill_handler_is_taken_once() {
    let mut tasks = TaskTable::new();
    assert_eq!(task::set_kill_handler(&mut tasks, None), Err("could not get current task"));
    let t = insert(&mut tasks, 1);
    assert_eq!(task::set_kill_handler(&mut tasks, Some(t)), Ok(()));
    assert!(task::take_kill_handler(&mut tasks, Some(t)));
    assert!(!task::take_kill_handler(&mut tasks, Some(t)));
}

#[test]
fn task_identifiers_count_up() {
    let mut ids = TaskIdSource::new();
    let first = task::get_next_task_id(&mut ids);
    assert_eq!(task::get_next_task_id(&mut ids), first + 1);
    assert_eq!(task::get_my_current_task_id(Some(TaskRef { id: 9 })), 9);
    assert_eq!(task::get_my_current_task_id(None), 0);
}

#[test]
fn switch_hands_the_stack_over() {
    let mut tasks = TaskTable::new();
    let a = insert(&mut tasks, 1);
    let b = insert(&mut tasks, 2);
    tasks.write(b).saved_sp = 0x8000;
    let mut current = Some(a);
    tasks.write(a).running_on_cpu = Some(0);
    let d = task::task_switch(&mut tasks, &mut current, b, 0);
    assert!(d.switched());
    assert!(matches!(d, SwitchDecision::Switch { from, to, new_sp: 0x8000, .. } if from == a && to == b));
    assert_eq!(current, Some(b));
    assert!(b.is_running(&tasks));
    assert!(!a.is_running(&tasks));
    assert_eq!(task::task_switch(&mut tasks, &mut current, b, 0), SwitchDecision::Stay);
}

#[test]
fn bootstrap_task_becomes_current() {
    let mut tasks = TaskTable::new();
    let mut current = None;
    let t = task::init_bootstrap_task(&mut tasks, &mut current, 0, STACK, states());
    assert_eq!(current, Some(t));
    assert!(t.is_running(&tasks));
    let mut other = None;
    assert_eq!(
        task::init_current_task(&mut tasks, &mut other, 77, 0),
        Err("init_current_task: task ID not found in TASK_LIST")
    );
}

#[test]
fn schedule_runs_the_next_task() {
    let mut tasks = TaskTable::new();
    let mut b = backend(1);
    let a = insert(&mut tasks, 1);
    let mut current = Some(a);
    let next = insert(&mut tasks, 2);
    tasks.write(next).saved_sp = 0x8000;
    add_task(&mut b, &mut tasks, next, 0);
    assert_eq!(schedule(&mut b, &mut tasks, &mut current, 0, false, 0), SwitchDecision::Stay);
    assert!(schedule(&mut b, &mut tasks, &mut current, 0, true, 0).switched());
    assert_eq!(current, Some(next));
}

#[test]
fn tick_charges_the_scheduled_task() {
    let mut tasks = TaskTable::new();
    let mut b = backend(1);
    let a = insert(&mut tasks, 1);
    let next = insert(&mut tasks, 2);
    tasks.write(next).saved_sp = 0x8000;
    tasks.write(a).sched.last_cpu = 9;
    let mut current = Some(a);
    add_task(&mut b, &mut tasks, next, 0);
    tasks.write(next).sched.last_cpu = 9;
    assert!(schedule(&mut b, &mut tasks, &mut current, 0, true, 0).switched());
    let m = b.mks.as_ref().unwrap();
    assert_eq!(m.rqs[0].current, Some(next));
    assert_eq!(m.context_switches, 1);
    assert_eq!(m.rqs[0].stats.context_switches, 1);
    assert_eq!(tasks.read(next).sched.last_cpu, 0);
    let plan = scheduler::timer_tick(&mut b, &mut tasks, 0, 1_000_000);
    assert_eq!(tasks.read(next).sched.exec_runtime, 1_000_000);
    assert_eq!(tasks.read(next).sched.vruntime, 1_000_000);
    assert_eq!(tasks.read(a).sched.exec_runtime, 0);
    assert!(!plan.reschedule);
    assert_eq!(tasks.read(a).sched.last_cpu, 0);
    assert!(scheduler::timer_tick(&mut b, &mut tasks, 0, 10_000_000).reschedule);
    tasks.write(a).saved_sp = 0x8000;
    assert!(schedule(&mut b, &mut tasks, &mut current, 0, true, 0).switched());
    assert_eq!(current, Some(a));
    assert!(!b.mks.as_ref().unwrap().rqs[0].need_resched);
    assert_eq!(b.mks.as_ref().unwrap().rqs[0].stats.run_time_ns, 11_000_000);
}

#[test]
fn ended_task_is_switched_away_from() {
    let mut tasks = TaskTable::new();
    let mut b = backend(1);
    let a = insert(&mut tasks, 1);
    let next = insert(&mut tasks, 2);
    tasks.write(next).saved_sp = 0x8000;
    let mut current = Some(a);
    add_task(&mut b, &mut tasks, next, 0);
    assert_eq!(schedule(&mut b, &mut tasks, &mut current, 0, false, 0), SwitchDecision::Stay);
    assert!(tasks.remove(1).is_some());
    assert!(schedule(&mut b, &mut tasks, &mut current, 0, true, 0).switched());
    assert_eq!(current, Some(next));
    remove_task(&mut b, &mut tasks, next);
    assert!(tasks.remove(2).is_some());
    assert_eq!(schedule(&mut b, &mut tasks, &mut current, 0, true, 0), SwitchDecision::Stay);
    assert_eq!(b.mks.as_ref().unwrap().rqs[0].current, None);
    scheduler::timer_tick(&mut b, &mut tasks, 0, 700);
    assert_eq!(b.mks.as_ref().unwrap().rqs[0].stats.idle_time_ns, 700);
}

#[test]
fn deadline_task_is_throttled_by_the_timer() {
    let mut tasks = TaskTable::new();
    let mut b = backend(1);
    let a = insert(&mut tasks, 1);
    tasks.write(a).saved_sp = 0x8000;
    let dl = insert(&mut tasks, 2);
    tasks.write(dl).saved_sp = 0x8000;
    tasks.write(dl).sched.policy = SchedClass::Deadline { period_ns: 1000, runtime_ns: 600 };
    let mut current = Some(a);
    add_task(&mut b, &mut tasks, dl, 0);
    assert!(schedule(&mut b, &mut tasks, &mut current, 0, true, 0).switched());
    assert_eq!(current, Some(dl));
    assert!(!scheduler::timer_tick(&mut b, &mut tasks, 0, 300).reschedule);
    assert!(scheduler::timer_tick(&mut b, &mut tasks, 0, 300).reschedule);
    assert!(schedule(&mut b, &mut tasks, &mut current, 0, true, 600).switched());
    assert_eq!(current, Some(a));
    assert_eq!(schedule(&mut b, &mut tasks, &mut current, 0, true, 999), SwitchDecision::Stay);
    assert!(schedule(&mut b, &mut tasks, &mut current, 0, true, 1000).switched());
    assert_eq!(current, Some(dl));
}

#[test]
fn removed_task_is_not_scheduled() {
    let mut tasks = TaskTable::new();
    let mut b = backend(1);
    let t = insert(&mut tasks, 1);
    add_task(&mut b, &mut tasks, t, 0);
    remove_task(&mut b, &mut tasks, t);
    assert_eq!(b.mks.as_mut().unwrap().pick_next(&mut tasks, 0, 0), None);
}

#[test]
fn inherited_priority_is_given_back() {
    let mut tasks = TaskTable::new();
    let current = insert(&mut tasks, 1);
    let holder = insert(&mut tasks, 2);
    assert!(set_priority(&mut tasks, current, 40));
    assert!(set_priority(&mut tasks, holder, 10));
    let before = priority(&tasks, holder);
    let high = priority(&tasks, current);
    assert!(high > before);
    let g = inherit_priority(&mut tasks, current, holder);
    assert_eq!(priority(&tasks, holder), high);
    g.release(&mut tasks);
    assert_eq!(priority(&tasks, holder), before);
}

#[test]
fn nice_of_current_task() {
    let mut tasks = TaskTable::new();
    let t = insert(&mut tasks, 1);
    assert_eq!(scheduler::priority(&tasks, None), 0);
    scheduler::set_priority(&mut tasks, Some(t), -5);
    assert_eq!(scheduler::priority(&tasks, Some(t)), -5);
    let child = insert(&mut tasks, 2);
    scheduler::inherit_priority(&mut tasks, child, t);
    assert_eq!(tasks.read(child).sched.nice, -5);
}

#[test]
fn timer_tick_pumps_audio_on_first_cpu() {
    let mut tasks = TaskTable::new();
    let mut b = backend(2);
    assert!(scheduler::timer_tick(&mut b, &mut tasks, 0, 1000).pump_audio);
    assert!(!scheduler::timer_tick(&mut b, &mut tasks, 1, 1000).pump_audio);
    assert_eq!(scheduler::dump_stats(b.mks.as_ref().unwrap()).len(), 2);
}

#[test]
fn scheduler_grows_to_all_cpus() {
    let mut b = SchedulerBackend::new();
    scheduler::init_single_cpu(&mut b);
    assert_eq!(b.mks.as_ref().unwrap().num_cpus, 1);
    assert_eq!(scheduler::expand_to_all_cpus(&mut b, 4, CpuTopology::uniform(4)), Ok(()));
    assert_eq!(b.mks.as_ref().unwrap().num_cpus, 4);
}

#[test]
fn epoch_scheduler_shares_tokens() {
    let mut tasks = TaskTable::new();
    let idle = insert(&mut tasks, 1);
    let a = insert(&mut tasks, 2);
    let b = insert(&mut tasks, 3);
    let mut s = scheduler_epoch::Scheduler::new(idle);
    assert_eq!(s.next(&tasks, 0, 0), idle);
    s.add(a);
    s.add(b);
    assert_eq!(s.busyness(), 2);
    assert_eq!(s.priority(a), Some(scheduler_epoch::DEFAULT_PRIORITY));
    assert!(s.set_priority(a, 35));
    assert_eq!(s.priority(a), Some(35));
    assert!(!s.set_priority(TaskRef { id: 50 }, 1));
    let mut counts = [0usize; 4];
    for _ in 0..100 {
        counts[s.next(&tasks, 0, 0).id] += 1;
    }
    assert_eq!(counts[1], 0);
    assert!(counts[2] > counts[3]);
    assert!(counts[3] > 0);
    assert!(s.remove(a));
    assert!(!s.remove(a));
    assert_eq!(s.tasks(), vec![b]);
    assert_eq!(s.drain(), vec![b]);
    assert_eq!(s.busyness(), 0);
}

#[test]
fn priority_scheduler_takes_turns() {
    let mut tasks = TaskTable::new();
    let idle = insert(&mut tasks, 1);
    let a = insert(&mut tasks, 2);
    let b = insert(&mut tasks, 3);
    let c = insert(&mut tasks, 4);
    let mut s = scheduler_priority::Scheduler::new(idle);
    assert_eq!(s.next(&tasks, 0, 1), idle);
    s.add(a);
    s.add(b);
    s.add(c);
    assert_eq!(s.priority(b), Some(0));
    assert!(s.set_priority(a, 5));
    assert!(s.set_priority(b, 5));
    let first = s.next(&tasks, 0, 10);
    let second = s.next(&tasks, 0, 11);
    assert!(first != second);
    assert!(first != c && second != c);
    assert_eq!(s.next(&tasks, 0, 12), first);
    tasks.write(a).runstate = RunState::Blocked;
    tasks.write(b).runstate = RunState::Blocked;
    assert_eq!(s.next(&tasks, 0, 13), c);
    assert!(!s.remove(TaskRef { id: 99 }));
}

#[test]
fn spawned_task_is_queued() {
    let mut tasks = TaskTable::new();
    let mut ids = TaskIdSource::new();
    let mut b = backend(2);
    let parent = insert(&mut tasks, 100);
    let j = spawn::new_task_builder(5u8)
        .name(String::from("child"))
        .pin_on_cpu(1)
        .spawn(&mut tasks, &mut ids, &mut b, Some(parent), StackAllocation::Allocated(STACK), String::from("d"), 64, 0)
        .unwrap();
    let t = tasks.read(j.task);
    assert_eq!(t.name, "child");
    assert_eq!(t.runstate, RunState::Runnable);
    assert_eq!(t.pinned_core, Some(1));
    assert_eq!(t.states.env, 3);
    assert!(STACK.bottom <= t.saved_sp && t.saved_sp < STACK.top);
    assert_eq!(b.mks.as_mut().unwrap().rqs[1].load(), 1);
}

#[test]
fn cpu_gets_its_bootstrap_and_idle_tasks() {
    let mut tasks = TaskTable::new();
    let mut ids = TaskIdSource::new();
    let mut b = backend(2);
    let mut current = None;
    let other = insert(&mut tasks, 100);
    let refused = spawn::init(
        &mut tasks,
        &mut ids,
        &mut b,
        &mut current,
        1,
        STACK,
        states(),
        StackAllocation::NoKernelMmi,
        64,
        0,
    );
    assert_eq!(refused.err(), Some("spawn: couldn't get kernel MMI to allocate stack"));
    assert_eq!(current, Some(TaskRef { id: 0 }));
    let idle = TaskRef { id: ids.next };
    let boot = spawn::init(
        &mut tasks,
        &mut ids,
        &mut b,
        &mut current,
        1,
        STACK,
        states(),
        StackAllocation::Allocated(STACK),
        64,
        0,
    )
    .ok()
    .unwrap();
    assert_eq!(boot.cpu_id, 1);
    assert_eq!(ids.next, idle.id + 1);
    assert_eq!(tasks.read(idle).name, "idle_task_cpu_1");
    assert!(tasks.read(idle).is_an_idle_task);
    assert_eq!(tasks.read(other).name, "t");
    assert_eq!(b.mks.as_mut().unwrap().rqs[1].load(), 1);
    assert_eq!(b.mks.as_mut().unwrap().rqs[0].load(), 0);
}

#[test]
fn blocked_and_idle_builders() {
    let mut tasks = TaskTable::new();
    let mut ids = TaskIdSource::new();
    let mut b = backend(1);
    let parent = insert(&mut tasks, 100);
    let j = spawn::new_task_builder(())
        .block()
        .env(9)
        .spawn(&mut tasks, &mut ids, &mut b, Some(parent), StackAllocation::Allocated(STACK), String::from("d"), 64, 0)
        .unwrap();
    assert_eq!(tasks.read(j.task).runstate, RunState::Blocked);
    assert_eq!(tasks.read(j.task).states.env, 9);
    assert_eq!(tasks.read(j.task).name, "d");
    let i = spawn::idle_task_builder(0)
        .spawn(&mut tasks, &mut ids, &mut b, Some(parent), StackAllocation::Allocated(STACK), String::from("d"), 64, 0)
        .unwrap();
    assert!(tasks.read(i.task).is_an_idle_task);
    assert_eq!(tasks.read(i.task).sched.policy, SchedClass::Idle);
    let namespace = spawn::application_namespace(&tasks, Some(parent), Some(8)).unwrap();
    let app = spawn::new_application_task_builder(namespace, CrateLoad::Loaded(app_crate("app::main::h")), "::h")
        .ok()
        .unwrap()
        .spawn(&mut tasks, &mut ids, &mut b, Some(parent), StackAllocation::Allocated(STACK), String::from("d"), 64, 0)
        .unwrap();
    assert_eq!(tasks.read(app.task).get_namespace(), 8);
    assert_eq!(tasks.read(app.task).get_app_crate(), Some(7));
}

fn app_crate(section: &str) -> LoadedCrate {
    LoadedCrate {
        id: 7,
        crate_name: String::from("app"),
        prefix: String::from("app::"),
        sections: vec![
            CrateSection { is_text: false, name: String::from("app::main::h") },
            CrateSection { is_text: true, name: String::from(section) },
        ],
    }
}

#[test]
fn application_needs_a_main_section() {
    let mut tasks = TaskTable::new();
    let t = insert(&mut tasks, 1);
    assert_eq!(spawn::application_namespace(&tasks, Some(t), None), Ok(2));
    assert_eq!(
        spawn::application_namespace(&tasks, None, None),
        Err("spawn::new_application_task_builder(): couldn't get current task")
    );
    assert_eq!(
        spawn::new_application_task_builder(1, CrateLoad::NoFile, "::h").err(),
        Some("Couldn't find specified file path for new application crate")
    );
    assert_eq!(spawn::new_application_task_builder(1, CrateLoad::Failed("bad"), "::h").err(), Some("bad"));
    assert_eq!(
        spawn::new_application_task_builder(1, CrateLoad::Loaded(app_crate("app::start::h")), "::h").err(),
        Some("spawn::new_application_task_builder(): couldn't find \"main\" function")
    );
    let b = spawn::new_application_task_builder(1, CrateLoad::Loaded(app_crate("app::main::h")), "::h").ok().unwrap();
    assert_eq!(b.name, Some(String::from("app")));
    assert_eq!(b.app, Some((1, 7)));
    let b = b.spawn_restartable();
    assert!(b.restartable);
    assert_eq!(b.app, None);
}

#[test]
fn tasks_are_grouped_by_cpu() {
    let mut tasks = TaskTable::new();
    for (id, cpu) in [(5, 2), (3, 0), (9, 2), (1, 7)] {
        let t = insert(&mut tasks, id);
        tasks.write(t).sched.last_cpu = cpu;
    }
    let groups = tasks_by_cpu(&tasks);
    assert_eq!(
        groups,
        vec![
            (0, vec![TaskRef { id: 3 }]),
            (2, vec![TaskRef { id: 5 }, TaskRef { id: 9 }]),
            (7, vec![TaskRef { id: 1 }]),
        ]
    );
}

#[test]
fn spawn_fails_without_parent_or_stack() {
    let mut tasks = TaskTable::new();
    let mut ids = TaskIdSource::new();
    let mut b = backend(1);
    let parent = insert(&mut tasks, 100);
    let r = spawn::new_task_builder(())
        .spawn(&mut tasks, &mut ids, &mut b, None, StackAllocation::Allocated(STACK), String::new(), 64, 0);
    assert_eq!(r, Err("spawn: couldn't get current task"));
    let r = spawn::new_task_builder(())
        .spawn(&mut tasks, &mut ids, &mut b, Some(parent), StackAllocation::NoKernelMmi, String::new(), 64, 0);
    assert_eq!(r, Err("spawn: couldn't get kernel MMI to allocate stack"));
    let r = spawn::new_task_builder(())
        .spawn(&mut tasks, &mut ids, &mut b, Some(parent), StackAllocation::OutOfMemory, String::new(), 64, 0);
    assert_eq!(r, Err("spawn: failed to allocate stack for new task"));
    let r = spawn::new_task_builder(())
        .stack(STACK)
        .spawn(&mut tasks, &mut ids, &mut b, Some(parent), StackAllocation::OutOfMemory, String::new(), 64, 0);
    assert!(r.is_ok());
}

#[test]
fn context_needs_an_initing_task() {
    let mut t = Task::new(1, String::from("t"), STACK, states());
    assert_eq!(
        spawn::setup_context_trampoline(&mut t, 64),
        Err("`setup_context_trampoline()` can only be invoked on `Initing` tasks")
    );
    t.runstate = RunState::Initing;
    assert_eq!(spawn::setup_context_trampoline(&mut t, 64), Ok(()));
    assert_eq!(t.saved_sp, STACK.top - 8 - 64);
}

#[test]
fn finished_task_is_cleaned_up() {
    let mut tasks = TaskTable::new();
    let mut b = backend(1);
    let t = insert(&mut tasks, 1);
    let e = ExitableTaskRef::obtain_for_unwinder(t);
    spawn::task_wrapper(&mut b, &mut tasks, e, Ok(()), 4);
    assert!(JoinableTaskRef { task: t }.has_exited(&tasks));
    let k = insert(&mut tasks, 2);
    let e = ExitableTaskRef::obtain_for_unwinder(k);
    spawn::task_wrapper(&mut b, &mut tasks, e, Err(KillReason::Panic), 4);
    assert_eq!(JoinableTaskRef { task: k }.join(&tasks), Some(ExitValue::Killed(KillReason::Panic)));
    let o = insert(&mut tasks, 3);
    spawn::task_wrapper(&mut b, &mut tasks, ExitableTaskRef::obtain_for_unwinder(o), Ok(()), 3);
    assert_eq!(task::get_task(&tasks, 3), None);
}

#[test]
fn restartable_task_gets_a_new_builder() {
    let mut tasks = TaskTable::new();
    let t = insert(&mut tasks, 1);
    tasks.write(t).restartable = true;
    let e = ExitableTaskRef::obtain_for_unwinder(t);
    assert!(e.with_restart_info(&tasks));
    let again = spawn::task_wrapper_restartable(&mut tasks, e, Err(KillReason::Panic), 3u32).unwrap();
    assert_eq!(again.argument, 3);
    assert!(again.restartable);
    assert_eq!(again.name, Some(String::from("t")));
}

#[test]
fn bootstrap_tasks_are_counted() {
    let mut tasks = TaskTable::new();
    let a = insert(&mut tasks, 1);
    let b = insert(&mut tasks, 2);
    assert_eq!(ExitableTaskRef { task: a }.mark_as_exited(&mut tasks), Ok(()));
    let mut waiting = vec![JoinableTaskRef { task: b }, JoinableTaskRef { task: a }];
    let cleaned = spawn::cleanup_bootstrap_tasks(&mut waiting, &tasks, 0);
    assert_eq!(cleaned, 1);
    assert_eq!(spawn::cleanup_bootstrap_tasks(&mut waiting, &tasks, cleaned), 1);
    assert_eq!(waiting, vec![JoinableTaskRef { task: b }]);
}
