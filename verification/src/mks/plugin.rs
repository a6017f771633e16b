//! Scheduling plugins: a group of tasks may have its own way of picking the
//! next task, within a time limit.

use crate::mks;
use crate::ordered_map::OrderedMap;
use crate::task::{TaskRef, TaskTable};
use crate::task_struct::{RunState, Task};
use vstd::prelude::*;

verus! {

/// Nanoseconds that a plugin may take to pick a task.
pub const PLUGIN_TIMEOUT_NS: u64 = 10_000;

/// What a plugin knows when it decides.
pub struct SchedContext<'a> {
    /// Logical CPU identifier.
    pub cpu_id: usize,
    /// Runnable tasks of the plugin's group.
    pub runnable: &'a Vec<TaskRef>,
    /// Monotonic time in nanoseconds.
    pub now_ns: u64,
    /// The task that ran before.
    pub prev_task: Option<TaskRef>,
}

/// What a plugin asks for after an event.
#[derive(Clone, Copy, Debug, PartialEq, Eq, Structural)]
pub enum PluginAction {
    /// Go on as usual.
    Continue,
    /// Use the returned task instead.
    Override,
    /// Block the task.
    Block,
    /// Move the task to another CPU.
    Migrate(usize),
}

/// Why a task blocked.
#[derive(Clone, Copy, Debug, PartialEq, Eq, Structural)]
pub enum BlockReason {
    Sleep,
    WaitingForIo,
    Futex,
    MutexContention,
    ChannelRecv,
    Explicit,
}

/// A scheduling plugin. All events but the name have a default that does
/// nothing.
pub trait SchedPlugin {
    /// Name for diagnostics.
    fn name(&self) -> &'static str;

    /// A task of the group has become runnable.
    fn on_task_runnable(&self, _task: TaskRef, _cpu: usize) -> (r: PluginAction)
        default_ensures
            r == PluginAction::Continue,
    {
        PluginAction::Continue
    }

    /// A task of the group has blocked.
    fn on_task_blocked(&self, _task: TaskRef, _reason: BlockReason) {
    }

    /// A task of the group has exited.
    fn on_task_exit(&self, _task: TaskRef) {
    }

    /// Chooses the next task among the runnable ones, or leaves the choice to
    /// the fair scheduler.
    fn pick_next(&self, _ctx: &SchedContext<'_>, _tasks: &TaskTable) -> (r: Option<TaskRef>)
        requires
            _tasks.wf(),
            refs_valid(_ctx.runnable@, _tasks@),
        default_ensures
            r is None,
    {
        None
    }

    /// A tick while a task of the group runs; `true` asks for preemption.
    fn on_tick(&self, _task: TaskRef, _elapsed_ns: u64) -> (r: bool)
        default_ensures
            !r,
    {
        false
    }

    /// A task of the group was switched away from.
    fn on_preempted(&self, _task: TaskRef, _by: Option<TaskRef>) {
    }
}

/// A source of time stamp counter readings.
pub trait CycleCounter {
    /// The current reading.
    fn read_tsc(&self) -> u64;
}

/// All references name tasks of the table.
pub open spec fn refs_valid(s: Seq<TaskRef>, tasks: Map<usize, Task>) -> bool {
    forall|i: int| 0 <= i < s.len() ==> tasks.contains_key((#[trigger] s[i]).id)
}

/// Position `i` holds the first of the tasks that woke earliest.
pub open spec fn is_longest_waiting(s: Seq<TaskRef>, tasks: Map<usize, Task>, i: int) -> bool {
    &&& 0 <= i < s.len()
    &&& forall|j: int|
        0 <= j < s.len() ==> tasks[s[i].id].sched.wakeup_time_ns <= tasks[(#[trigger]
        s[j]).id].sched.wakeup_time_ns
    &&& forall|j: int|
        0 <= j < i ==> tasks[s[i].id].sched.wakeup_time_ns < tasks[(#[trigger]
        s[j]).id].sched.wakeup_time_ns
}

/// Position `i` holds the last of the heaviest tasks.
pub open spec fn is_heaviest(s: Seq<TaskRef>, tasks: Map<usize, Task>, i: int) -> bool {
    &&& 0 <= i < s.len()
    &&& forall|j: int|
        0 <= j < s.len() ==> tasks[(#[trigger] s[j]).id].sched.weight
            <= tasks[s[i].id].sched.weight
    &&& forall|j: int|
        i < j < s.len() ==> tasks[(#[trigger] s[j]).id].sched.weight < tasks[s[i].id].sched.weight
}

/// The task that has waited longest.
fn longest_waiting(runnable: &Vec<TaskRef>, tasks: &TaskTable) -> (r: Option<TaskRef>)
    requires
        tasks.wf(),
        refs_valid(runnable@, tasks@),
    ensures
        r is None <==> runnable@.len() == 0,
        r matches Some(t) ==> exists|i: int|
            is_longest_waiting(runnable@, tasks@, i) && t == runnable@[i],
{
    if runnable.len() == 0 {
        return None;
    }
    let mut best: usize = 0;
    let mut best_key: u64 = tasks.read(runnable[0]).sched.wakeup_time_ns;
    let mut i: usize = 1;
    while i < runnable.len()
        invariant
            tasks.wf(),
            refs_valid(runnable@, tasks@),
            best < i <= runnable@.len(),
            best_key == tasks@[runnable@[best as int].id].sched.wakeup_time_ns,
            forall|j: int|
                0 <= j < i ==> best_key <= tasks@[(#[trigger] runnable@[j]).id].sched.wakeup_time_ns,
            forall|j: int|
                0 <= j < best ==> best_key < tasks@[(#[trigger]
                runnable@[j]).id].sched.wakeup_time_ns,
        decreases runnable@.len() - i,
    {
        let key: u64 = tasks.read(runnable[i]).sched.wakeup_time_ns;
        if key < best_key {
            best = i;
            best_key = key;
        }
        i += 1;
    }
    assert(is_longest_waiting(runnable@, tasks@, best as int));
    Some(runnable[best])
}

/// Picks the task that has waited longest.
#[derive(Clone, Copy, Debug)]
pub struct LatencyFirstPlugin;

impl SchedPlugin for LatencyFirstPlugin {
    fn name(&self) -> (r: &'static str)
        ensures
            r@ == "LatencyFirst"@,
    {
        "LatencyFirst"
    }

    fn pick_next(&self, ctx: &SchedContext<'_>, tasks: &TaskTable) -> (r: Option<TaskRef>)
        ensures
            r is None <==> ctx.runnable@.len() == 0,
            r matches Some(t) ==> exists|i: int|
                is_longest_waiting(ctx.runnable@, tasks@, i) && t == ctx.runnable@[i],
    {
        longest_waiting(ctx.runnable, tasks)
    }
}

/// Picks the task with the largest weight.
#[derive(Clone, Copy, Debug)]
pub struct ThroughputFirstPlugin;

impl SchedPlugin for ThroughputFirstPlugin {
    fn name(&self) -> (r: &'static str)
        ensures
            r@ == "ThroughputFirst"@,
    {
        "ThroughputFirst"
    }

    fn pick_next(&self, ctx: &SchedContext<'_>, tasks: &TaskTable) -> (r: Option<TaskRef>)
        ensures
            r is None <==> ctx.runnable@.len() == 0,
            r matches Some(t) ==> exists|i: int|
                is_heaviest(ctx.runnable@, tasks@, i) && t == ctx.runnable@[i],
    {
        let runnable = ctx.runnable;
        if runnable.len() == 0 {
            return None;
        }
        let mut best: usize = 0;
        let mut best_key: u64 = tasks.read(runnable[0]).sched.weight;
        let mut i: usize = 1;
        while i < runnable.len()
            invariant
                tasks.wf(),
                refs_valid(runnable@, tasks@),
                best < i <= runnable@.len(),
                best_key == tasks@[runnable@[best as int].id].sched.weight,
                forall|j: int|
                    0 <= j < i ==> tasks@[(#[trigger] runnable@[j]).id].sched.weight <= best_key,
                forall|j: int|
                    best < j < i ==> tasks@[(#[trigger] runnable@[j]).id].sched.weight < best_key,
            decreases runnable@.len() - i,
        {
            let key: u64 = tasks.read(runnable[i]).sched.weight;
            if key >= best_key {
                best = i;
                best_key = key;
            }
            i += 1;
        }
        assert(is_heaviest(runnable@, tasks@, best as int));
        Some(runnable[best])
    }
}

/// Gives a group a CPU of its own.
#[derive(Clone, Copy, Debug)]
pub struct IsolatedCorePlugin {
    pub dedicated_cpu: usize,
}

impl SchedPlugin for IsolatedCorePlugin {
    fn name(&self) -> (r: &'static str)
        ensures
            r@ == "IsolatedCore"@,
    {
        "IsolatedCore"
    }

    fn on_task_runnable(&self, _task: TaskRef, _cpu: usize) -> (r: PluginAction)
        ensures
            r == PluginAction::Migrate(self.dedicated_cpu),
    {
        PluginAction::Migrate(self.dedicated_cpu)
    }

    fn pick_next(&self, ctx: &SchedContext<'_>, tasks: &TaskTable) -> (r: Option<TaskRef>)
        ensures
            r is None <==> ctx.cpu_id != self.dedicated_cpu || ctx.runnable@.len() == 0,
            r matches Some(t) ==> exists|i: int|
                is_longest_waiting(ctx.runnable@, tasks@, i) && t == ctx.runnable@[i],
    {
        if ctx.cpu_id != self.dedicated_cpu {
            return None;
        }
        longest_waiting(ctx.runnable, tasks)
    }
}

/// Identifier of a group of tasks that share a plugin.
pub type PluginGroupId = u32;

/// Plugins by group, and the runnable tasks of each group.
pub struct PluginRegistry<P> {
    plugins: OrderedMap<P>,
    runnable: OrderedMap<Vec<TaskRef>>,
}

/// What a plugin registry holds.
#[verifier::ext_equal]
pub struct RegistryState<P> {
    pub plugins: Map<u32, P>,
    pub runnable: Map<u32, Seq<TaskRef>>,
}

impl<P> RegistryState<P> {
    /// The runnable tasks of a group.
    pub open spec fn group(self, g: u32) -> Seq<TaskRef> {
        if self.runnable.contains_key(g) {
            self.runnable[g]
        } else {
            Seq::empty()
        }
    }
}

/// The tasks of `s` that can run.
pub open spec fn only_runnable(s: Seq<TaskRef>, tasks: Map<usize, Task>) -> Seq<TaskRef> {
    s.filter(|t: TaskRef| tasks[t.id].runstate == RunState::Runnable)
}

/// The condition of being another task than `t`.
pub open spec fn other_than(t: TaskRef) -> spec_fn(TaskRef) -> bool {
    |u: TaskRef| u != t
}

/// The tasks of `s` without `t`.
pub open spec fn without_task(s: Seq<TaskRef>, t: TaskRef) -> Seq<TaskRef> {
    s.filter(other_than(t))
}

spec fn plugin_map<P>(m: Map<(u64, u64), P>) -> Map<u32, P> {
    Map::new(|g: u32| m.contains_key((g as u64, 0)), |g: u32| m[(g as u64, 0)])
}

spec fn runnable_map(m: Map<(u64, u64), Vec<TaskRef>>) -> Map<u32, Seq<TaskRef>> {
    Map::new(|g: u32| m.contains_key((g as u64, 0)), |g: u32| m[(g as u64, 0)]@)
}

impl<P> View for PluginRegistry<P> {
    type V = RegistryState<P>;

    closed spec fn view(&self) -> RegistryState<P> {
        RegistryState {
            plugins: plugin_map(self.plugins@),
            runnable: runnable_map(self.runnable@),
        }
    }
}

/// Keeps the runnable tasks of a group.
fn keep_runnable(v: &Vec<TaskRef>, tasks: &TaskTable) -> (r: Vec<TaskRef>)
    requires
        tasks.wf(),
        refs_valid(v@, tasks@),
    ensures
        r@ == only_runnable(v@, tasks@),
        refs_valid(r@, tasks@),
{
    let ghost pred = |t: TaskRef| tasks@[t.id].runstate == RunState::Runnable;
    let mut r: Vec<TaskRef> = Vec::new();
    let mut i: usize = 0;
    assert(v@.take(0).filter(pred) =~= Seq::empty()) by {
        reveal(Seq::filter);
    }
    while i < v.len()
        invariant
            tasks.wf(),
            refs_valid(v@, tasks@),
            refs_valid(r@, tasks@),
            i <= v@.len(),
            pred == (|t: TaskRef| tasks@[t.id].runstate == RunState::Runnable),
            r@ == v@.take(i as int).filter(pred),
        decreases v@.len() - i,
    {
        proof {
            reveal(Seq::filter);
            assert(v@.take(i + 1).drop_last() =~= v@.take(i as int));
        }
        if tasks.read(v[i]).runstate == RunState::Runnable {
            r.push(v[i]);
        }
        i += 1;
    }
    assert(v@.take(v@.len() as int) =~= v@);
    r
}

/// Removes a task from a list.
fn remove_task(v: &Vec<TaskRef>, task: TaskRef) -> (r: Vec<TaskRef>)
    ensures
        r@ == without_task(v@, task),
{
    let ghost pred = other_than(task);
    let mut r: Vec<TaskRef> = Vec::new();
    let mut i: usize = 0;
    assert(v@.take(0).filter(pred) =~= Seq::empty()) by {
        reveal(Seq::filter);
    }
    while i < v.len()
        invariant
            i <= v@.len(),
            pred == other_than(task),
            r@ == v@.take(i as int).filter(pred),
        decreases v@.len() - i,
    {
        proof {
            reveal(Seq::filter);
            assert(v@.take(i + 1).drop_last() =~= v@.take(i as int));
        }
        if v[i].id != task.id {
            r.push(v[i]);
        }
        i += 1;
    }
    assert(v@.take(v@.len() as int) =~= v@);
    r
}

/// What becomes of a plugin's answer that took from one reading of the counter to
/// another: after the timeout it no longer counts.
pub open spec fn concluded(answer: Option<TaskRef>, start: u64, end: u64) -> Option<TaskRef> {
    if mks::monus(end as int, start as int) / 3 > PLUGIN_TIMEOUT_NS {
        None
    } else {
        answer
    }
}

impl<P: SchedPlugin> PluginRegistry<P> {
    /// Both maps are in order.
    pub closed spec fn wf(&self) -> bool {
        self.plugins.wf() && self.runnable.wf()
    }

    /// A registry without plugins.
    pub fn new() -> (r: Self)
        ensures
            r.wf(),
            r@.plugins == Map::<u32, P>::empty(),
            r@.runnable == Map::<u32, Seq<TaskRef>>::empty(),
    {
        let r = PluginRegistry { plugins: OrderedMap::new(), runnable: OrderedMap::new() };
        assert(r@.plugins =~= Map::<u32, P>::empty());
        assert(r@.runnable =~= Map::<u32, Seq<TaskRef>>::empty());
        r
    }

    /// Registers the plugin of a group, in place of an earlier one.
    pub fn register(&mut self, group: PluginGroupId, plugin: P)
        requires
            old(self).wf(),
        ensures
            final(self).wf(),
            final(self)@ == (RegistryState {
                plugins: old(self)@.plugins.insert(group, plugin),
                ..old(self)@
            }),
    {
        self.plugins.insert((group as u64, 0), plugin);
        assert(self@.plugins =~= old(self)@.plugins.insert(group, plugin));
    }

    /// Removes the plugin of a group and forgets its runnable tasks.
    pub fn unregister(&mut self, group: PluginGroupId)
        requires
            old(self).wf(),
        ensures
            final(self).wf(),
            final(self)@ == (RegistryState {
                plugins: old(self)@.plugins.remove(group),
                runnable: old(self)@.runnable.remove(group),
            }),
    {
        self.plugins.remove((group as u64, 0));
        self.runnable.remove((group as u64, 0));
        assert(self@.plugins =~= old(self)@.plugins.remove(group));
        assert(self@.runnable =~= old(self)@.runnable.remove(group));
    }

    /// The plugin of a group.
    pub fn get(&self, group: PluginGroupId) -> (r: Option<&P>)
        requires
            self.wf(),
        ensures
            match r {
                Some(p) => self@.plugins.contains_key(group) && *p == self@.plugins[group],
                None => !self@.plugins.contains_key(group),
            },
    {
        self.plugins.get((group as u64, 0))
    }

    /// Takes the runnable tasks of a group out of the registry.
    fn take_group(&mut self, group: PluginGroupId) -> (r: Vec<TaskRef>)
        requires
            old(self).wf(),
        ensures
            final(self).wf(),
            r@ == old(self)@.group(group),
            final(self)@ == (RegistryState {
                runnable: old(self)@.runnable.remove(group),
                ..old(self)@
            }),
            final(self).plugins == old(self).plugins,
    {
        let r = match self.runnable.remove((group as u64, 0)) {
            Some(v) => v,
            None => Vec::new(),
        };
        assert(self@.runnable =~= old(self)@.runnable.remove(group));
        r
    }

    /// Sets the runnable tasks of a group.
    fn put_group(&mut self, group: PluginGroupId, v: Vec<TaskRef>)
        requires
            old(self).wf(),
        ensures
            final(self).wf(),
            final(self)@ == (RegistryState {
                runnable: old(self)@.runnable.insert(group, v@),
                ..old(self)@
            }),
            final(self).plugins == old(self).plugins,
    {
        self.runnable.insert((group as u64, 0), v);
        assert(self@.runnable =~= old(self)@.runnable.insert(group, v@));
    }

    /// A task of a group has become runnable: it joins the runnable tasks, and
    /// the plugin is told. Without a plugin things go on as usual.
    pub fn notify_runnable(&mut self, group: PluginGroupId, task: TaskRef, cpu: usize) -> (r:
        PluginAction)
        requires
            old(self).wf(),
            old(self)@.plugins.contains_key(group) ==> call_requires(
                P::on_task_runnable,
                (&old(self)@.plugins[group], task, cpu),
            ),
        ensures
            final(self).wf(),
            final(self)@ == (RegistryState {
                runnable: old(self)@.runnable.insert(group, old(self)@.group(group).push(task)),
                ..old(self)@
            }),
            old(self)@.plugins.contains_key(group) ==> call_ensures(
                P::on_task_runnable,
                (&old(self)@.plugins[group], task, cpu),
                r,
            ),
            !old(self)@.plugins.contains_key(group) ==> r == PluginAction::Continue,
    {
        let mut v = self.take_group(group);
        v.push(task);
        self.put_group(group, v);
        assert(self@.runnable =~= old(self)@.runnable.insert(
            group,
            old(self)@.group(group).push(task),
        ));
        match self.plugins.get((group as u64, 0)) {
            Some(plugin) => plugin.on_task_runnable(task, cpu),
            None => PluginAction::Continue,
        }
    }

    /// What is left to do once a plugin has answered: an answer that came too
    /// late is dropped, a task that was picked leaves the runnable ones.
    pub fn conclude_pick(
        &mut self,
        group: PluginGroupId,
        answer: Option<TaskRef>,
        elapsed_ns: u64,
    ) -> (r: Option<TaskRef>)
        requires
            old(self).wf(),
        ensures
            final(self).wf(),
            elapsed_ns > PLUGIN_TIMEOUT_NS ==> r is None && final(self)@ == old(self)@,
            elapsed_ns <= PLUGIN_TIMEOUT_NS ==> r == answer,
            elapsed_ns <= PLUGIN_TIMEOUT_NS && answer is None ==> final(self)@ == old(self)@,
            elapsed_ns <= PLUGIN_TIMEOUT_NS ==> (answer matches Some(t) ==> final(self)@ == (
            RegistryState {
                runnable: old(self)@.runnable.insert(
                    group,
                    without_task(old(self)@.group(group), t),
                ),
                ..old(self)@
            })),
    {
        if elapsed_ns > PLUGIN_TIMEOUT_NS {
            return None;
        }
        if let Some(picked) = answer {
            let v = self.take_group(group);
            let kept = remove_task(&v, picked);
            self.put_group(group, kept);
            assert(self@.runnable =~= old(self)@.runnable.insert(
                group,
                without_task(old(self)@.group(group), picked),
            ));
        }
        answer
    }

    /// Asks the plugin of a group to pick the next task on a CPU. Tasks that
    /// cannot run leave the group first. There is no pick if the group has no
    /// plugin or no runnable task, or if the plugin defers or takes too long.
    pub fn pick_next<C: CycleCounter>(
        &mut self,
        tasks: &TaskTable,
        group: PluginGroupId,
        cpu_id: usize,
        prev: Option<TaskRef>,
        now_ns: u64,
        counter: &C,
    ) -> (r: Option<TaskRef>)
        requires
            old(self).wf(),
            tasks.wf(),
            refs_valid(old(self)@.group(group), tasks@),
        ensures
            final(self).wf(),
            !old(self)@.plugins.contains_key(group) ==> r is None && final(self)@ == old(self)@,
            old(self)@.plugins.contains_key(group) ==> {
                let kept = only_runnable(old(self)@.group(group), tasks@);
                &&& kept.len() == 0 ==> r is None
                &&& kept.len() > 0 ==> exists|
                    ctx: SchedContext<'_>,
                    answer: Option<TaskRef>,
                    start: u64,
                    end: u64,
                |
                    {
                        &&& ctx.cpu_id == cpu_id
                        &&& ctx.runnable@ == kept
                        &&& ctx.now_ns == now_ns
                        &&& ctx.prev_task == prev
                        &&& #[trigger] call_ensures(C::read_tsc, (counter,), start)
                        &&& #[trigger] call_ensures(
                            P::pick_next,
                            (&old(self)@.plugins[group], &ctx, tasks),
                            answer,
                        )
                        &&& #[trigger] call_ensures(C::read_tsc, (counter,), end)
                        &&& r == concluded(answer, start, end)
                    }
                &&& final(self)@ == (RegistryState {
                    runnable: old(self)@.runnable.insert(
                        group,
                        if r is Some {
                            without_task(kept, r->Some_0)
                        } else {
                            kept
                        },
                    ),
                    ..old(self)@
                })
            },
    {
        if self.plugins.get((group as u64, 0)).is_none() {
            return None;
        }
        let all = self.take_group(group);
        let kept = keep_runnable(&all, tasks);
        let ghost kept_seq = kept@;
        if kept.len() == 0 {
            self.put_group(group, kept);
            assert(self@.runnable =~= old(self)@.runnable.insert(group, kept_seq));
            return None;
        }
        let ctx = SchedContext { cpu_id, runnable: &kept, now_ns, prev_task: prev };
        let start: u64 = counter.read_tsc();
        let answer = match self.plugins.get((group as u64, 0)) {
            Some(plugin) => plugin.pick_next(&ctx, tasks),
            None => None,
        };
        let end: u64 = counter.read_tsc();
        assert(call_ensures(C::read_tsc, (counter,), start));
        assert(call_ensures(P::pick_next, (&old(self)@.plugins[group], &ctx, tasks), answer));
        assert(call_ensures(C::read_tsc, (counter,), end));
        let elapsed: u64 = tsc_to_ns(end.saturating_sub(start));
        self.put_group(group, kept);
        assert(self@.runnable =~= old(self)@.runnable.insert(group, kept_seq));
        assert(self@.group(group) == kept_seq);
        let r = self.conclude_pick(group, answer, elapsed);
        assert(self@.runnable =~= old(self)@.runnable.insert(
            group,
            if r is Some {
                without_task(kept_seq, r->Some_0)
            } else {
                kept_seq
            },
        ));
        r
    }
}

/// Nanoseconds that a difference of 3 GHz time stamp counter readings stands for.
pub fn tsc_to_ns(tsc: u64) -> (r: u64)
    ensures
        r == tsc / 3,
{
    tsc / 3
}

/// The answer of a plugin stands exactly if it came within ten microseconds, at three ticks
/// of the counter to a nanosecond.
pub proof fn late_answers_are_dropped(answer: Option<TaskRef>, start: u64, end: u64)
    ensures
        end - start <= 30_002 ==> concluded(answer, start, end) == answer,
        end - start > 30_002 ==> concluded(answer, start, end) is None,
        PLUGIN_TIMEOUT_NS == 10_000,
{
}

/// The task that has waited longest is the one that was woken first, and of several the
/// first of the list; the heaviest has the greatest weight, and of several it is the last.
pub proof fn plugins_choose_by_their_rule(
    s: Seq<TaskRef>,
    tasks: Map<usize, Task>,
    i: int,
    j: int,
)
    requires
        0 <= j < s.len(),
    ensures
        is_longest_waiting(s, tasks, i) ==> tasks[s[i].id].sched.wakeup_time_ns
            <= tasks[s[j].id].sched.wakeup_time_ns,
        is_longest_waiting(s, tasks, i) && tasks[s[i].id].sched.wakeup_time_ns
            == tasks[s[j].id].sched.wakeup_time_ns ==> i <= j,
        is_heaviest(s, tasks, i) ==> tasks[s[i].id].sched.weight >= tasks[s[j].id].sched.weight,
        is_heaviest(s, tasks, i) && tasks[s[i].id].sched.weight == tasks[s[j].id].sched.weight
            ==> j <= i,
        is_longest_waiting(s, tasks, i) || is_heaviest(s, tasks, i) ==> 0 <= i < s.len(),
{
}

/// Of a group those tasks are offered that can run; a task that was picked leaves it with
/// all its entries, and every other task stays.
pub proof fn groups_lose_only_the_picked_task(
    s: Seq<TaskRef>,
    tasks: Map<usize, Task>,
    t: TaskRef,
    u: TaskRef,
)
    ensures
        only_runnable(s, tasks).contains(u) <==> s.contains(u) && tasks[u.id].runstate
            == RunState::Runnable,
        without_task(s, t).contains(u) <==> s.contains(u) && u != t,
{
    broadcast use vstd::seq_lib::group_filter_ensures;

    let f = |t: TaskRef| tasks[t.id].runstate == RunState::Runnable;
    if s.contains(u) {
        let i = choose|i: int| 0 <= i < s.len() && s[i] == u;
        if f(u) {
            assert(s.filter(f).contains(s[i]));
        }
        if u != t {
            assert(s.filter(other_than(t)).contains(s[i]));
        }
    }
    if s.filter(f).contains(u) {
        s.lemma_filter_contains_rev(f, u);
        let i = choose|i: int| 0 <= i < s.filter(f).len() && s.filter(f)[i] == u;
        assert(f(s.filter(f)[i]));
    }
    if s.filter(other_than(t)).contains(u) {
        s.lemma_filter_contains_rev(other_than(t), u);
        let r = s.filter(other_than(t));
        let i = choose|i: int| 0 <= i < r.len() && r[i] == u;
        assert(other_than(t)(r[i]));
    }
}

} // verus!
