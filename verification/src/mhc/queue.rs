//! Software queues: GPU work by priority.
//!
//! Work waits in software and is given to the hardware in the order of its priority,
//! as long as not too much of it is in flight.

use crate::ordered_map;
use crate::id_map::IdMap;
use crate::mhc::command::CommandBuffer;
use crate::mhc::device::{GpuDevice, GpuError, QueueHandle, Submission};
use crate::mhc::fence::FenceId;
use crate::ordered_map::OrderedMap;
use vstd::prelude::*;

verus! {

/// Priority of GPU work.
#[derive(Clone, Copy, Debug, PartialEq, Eq, PartialOrd, Ord, Structural)]
pub enum GpuPriority {
    /// Background work.
    Background,
    /// Normal work.
    Normal,
    /// Interactive work.
    High,
    /// Real-time work.
    Realtime,
    /// Work with a hard deadline.
    Deadline,
}

impl GpuPriority {
    /// Rank of a priority: higher is more important.
    pub open spec fn level(self) -> u8 {
        match self {
            GpuPriority::Background => 0,
            GpuPriority::Normal => 1,
            GpuPriority::High => 2,
            GpuPriority::Realtime => 3,
            GpuPriority::Deadline => 4,
        }
    }

    /// Rank of a priority.
    pub fn rank(self) -> (r: u8)
        ensures
            r == self.level(),
    {
        match self {
            GpuPriority::Background => 0,
            GpuPriority::Normal => 1,
            GpuPriority::High => 2,
            GpuPriority::Realtime => 3,
            GpuPriority::Deadline => 4,
        }
    }
}

impl Default for GpuPriority {
    fn default() -> (p: Self)
        ensures
            p == GpuPriority::Normal,
    {
        GpuPriority::Normal
    }
}

/// A command buffer that waits.
pub struct PendingSubmission {
    /// Priority.
    pub priority: GpuPriority,
    /// Number in the order of arrival.
    pub sequence: u64,
    /// Commands.
    pub commands: CommandBuffer,
    /// Fence that is signaled on completion.
    pub fence: FenceId,
    /// Hardware queue.
    pub hw_queue: QueueHandle,
}

/// What the hardware is given for a command buffer that waits.
pub open spec fn submission_of(p: PendingSubmission) -> Submission {
    Submission { queue: p.hw_queue, commands: p.commands@.commands }
}

/// Key of a priority and a number: higher priorities come first, and earlier numbers
/// within a priority.
pub open spec fn queue_key(priority: GpuPriority, sequence: u64) -> (u64, u64) {
    ((4 - priority.level()) as u64, sequence)
}

/// What waits after the first `n` were taken.
pub open spec fn after_first(m: Map<(u64, u64), PendingSubmission>, n: nat) -> Map<
    (u64, u64),
    PendingSubmission,
>
    decreases n,
{
    if n == 0 {
        m
    } else {
        let p = after_first(m, (n - 1) as nat);
        p.remove(ordered_map::first_of(p))
    }
}

/// What is taken after the first `n`.
pub open spec fn nth_pending(
    m: Map<(u64, u64), PendingSubmission>,
    n: nat,
) -> PendingSubmission {
    let p = after_first(m, n);
    p[ordered_map::first_of(p)]
}

/// What the hardware is given for the first `n`.
pub open spec fn first_submissions(m: Map<(u64, u64), PendingSubmission>, n: nat) -> Seq<
    Submission,
> {
    Seq::new(n, |j: int| submission_of(nth_pending(m, j as nat)))
}

/// The fences of the submissions that succeeded.
pub open spec fn ok_fences(results: Seq<Result<FenceId, GpuError>>) -> Seq<FenceId>
    decreases results.len(),
{
    if results.len() == 0 {
        Seq::empty()
    } else {
        match results.last() {
            Ok(f) => ok_fences(results.drop_last()).push(f),
            Err(_) => ok_fences(results.drop_last()),
        }
    }
}

/// The fences that are not signaled.
pub open spec fn unsignaled<D: GpuDevice>(fences: Seq<FenceId>, device: D) -> Seq<FenceId>
    decreases fences.len(),
{
    if fences.len() == 0 {
        Seq::empty()
    } else if device.signaled(fences.last()) {
        unsignaled(fences.drop_last(), device)
    } else {
        unsignaled(fences.drop_last(), device).push(fences.last())
    }
}

/// What a software queue holds.
#[verifier::ext_equal]
pub struct SoftQueueState {
    /// Work that waits.
    pub pending: Map<(u64, u64), PendingSubmission>,
    /// Fences of the work in flight.
    pub in_flight: Seq<FenceId>,
    /// Next number.
    pub next_sequence: u64,
    /// Limit of the work in flight.
    pub max_in_flight: usize,
    /// Virtual runtime.
    pub vruntime: u64,
    /// GPU time in nanoseconds.
    pub total_gpu_time_ns: u64,
    /// Work that completed.
    pub completed_count: u64,
}

impl SoftQueueState {
    /// An empty queue.
    pub open spec fn empty(max_in_flight: usize) -> SoftQueueState {
        SoftQueueState {
            pending: Map::empty(),
            in_flight: Seq::empty(),
            next_sequence: 0,
            max_in_flight,
            vruntime: 0,
            total_gpu_time_ns: 0,
            completed_count: 0,
        }
    }

    /// The queue with one more command buffer.
    pub open spec fn enqueued(
        self,
        commands: CommandBuffer,
        priority: GpuPriority,
        fence: FenceId,
        hw_queue: QueueHandle,
    ) -> SoftQueueState {
        SoftQueueState {
            pending: self.pending.insert(
                queue_key(priority, self.next_sequence),
                PendingSubmission {
                    priority,
                    sequence: self.next_sequence,
                    commands,
                    fence,
                    hw_queue,
                },
            ),
            next_sequence: self.next_sequence.wrapping_add(1),
            ..self
        }
    }

    /// The keys fit what waits.
    pub open spec fn valid(self) -> bool {
        forall|k: (u64, u64)| #[trigger]
            self.pending.contains_key(k) ==> k == queue_key(
                self.pending[k].priority,
                self.pending[k].sequence,
            )
    }

    /// How much work has completed when only `retained` is still in flight.
    pub open spec fn completed_with(self, retained: Seq<FenceId>) -> u64 {
        self.completed_count.wrapping_add((self.in_flight.len() - retained.len()) as u64)
    }

    /// `after` is the queue after `results.len()` command buffers were given to the
    /// hardware with these results, while `retained` was in flight: each was given
    /// while there was room, and the queue stopped only when there was none or
    /// nothing waited.
    pub open spec fn drained(
        self,
        retained: Seq<FenceId>,
        results: Seq<Result<FenceId, GpuError>>,
        after: SoftQueueState,
    ) -> bool {
        &&& results.len() <= self.pending.dom().len()
        &&& after == (SoftQueueState {
            pending: after_first(self.pending, results.len()),
            in_flight: retained + ok_fences(results),
            completed_count: self.completed_with(retained),
            ..self
        })
        &&& forall|j: int|
            0 <= j < results.len() ==> retained.len() + #[trigger] ok_fences(results.take(j)).len()
                < self.max_in_flight
        &&& after.in_flight.len() >= self.max_in_flight || results.len()
            == self.pending.dom().len()
    }
}

/// A device goes through `stages` while it answers submissions one by one with results.
pub open spec fn answered<D: GpuDevice>(
    stages: Seq<D>,
    subs: Seq<Submission>,
    results: Seq<Result<FenceId, GpuError>>,
) -> bool {
    &&& stages.len() == subs.len() + 1
    &&& results.len() == subs.len()
    &&& forall|j: int|
        0 <= j < subs.len() ==> (#[trigger] stages[j]).answers(subs[j], results[j], stages[j + 1])
}

/// Draining a queue into `device` turns them into `after` and `device_after`: the
/// results are what the device answered to each command buffer.
pub open spec fn drained_into<D: GpuDevice>(
    before: SoftQueueState,
    device: D,
    results: Seq<Result<FenceId, GpuError>>,
    after: SoftQueueState,
    device_after: D,
) -> bool {
    &&& before.drained(unsignaled(before.in_flight, device), results, after)
    &&& exists|stages: Seq<D>|
        {
            &&& #[trigger] answered(stages, first_submissions(before.pending, results.len()), results)
            &&& stages[0] == device
            &&& stages.last() == device_after
        }
}

/// A queue of GPU work by priority.
pub struct SoftwareQueue {
    pending: OrderedMap<PendingSubmission>,
    in_flight: Vec<FenceId>,
    next_sequence: u64,
    max_in_flight: usize,
    /// Virtual runtime.
    pub vruntime: u64,
    /// GPU time in nanoseconds.
    pub total_gpu_time_ns: u64,
    /// Work that completed.
    pub completed_count: u64,
}

impl View for SoftwareQueue {
    type V = SoftQueueState;

    closed spec fn view(&self) -> SoftQueueState {
        SoftQueueState {
            pending: self.pending@,
            in_flight: self.in_flight@,
            next_sequence: self.next_sequence,
            max_in_flight: self.max_in_flight,
            vruntime: self.vruntime,
            total_gpu_time_ns: self.total_gpu_time_ns,
            completed_count: self.completed_count,
        }
    }
}

/// Taking one more from what waits.
proof fn lemma_after_first(m: Map<(u64, u64), PendingSubmission>, n: nat)
    requires
        m.dom().finite(),
        n <= m.dom().len(),
    ensures
        after_first(m, n).dom().finite(),
        after_first(m, n).dom().len() == m.dom().len() - n,
    decreases n,
{
    if n > 0 {
        lemma_after_first(m, (n - 1) as nat);
        let p = after_first(m, (n - 1) as nat);
        if p.dom().is_empty() {
            assert(p.dom() =~= Set::empty());
        }
        ordered_map::finite_map_has_first(p);
        assert(p.dom().contains(ordered_map::first_of(p)));
        assert(p.remove(ordered_map::first_of(p)).dom() =~= p.dom().remove(ordered_map::first_of(p)));
    }
}

impl SoftwareQueue {
    /// The keys are in order and fit.
    pub closed spec fn wf(&self) -> bool {
        &&& self.pending.wf()
        &&& self@.valid()
    }

    /// The work that waits is finite.
    pub proof fn lemma_finite(&self)
        requires
            self.wf(),
        ensures
            self@.pending.dom().finite(),
            self@.valid(),
    {
        self.pending.lemma_finite();
    }

    /// An empty queue.
    pub fn new(max_in_flight: usize) -> (q: Self)
        ensures
            q.wf(),
            q@ == SoftQueueState::empty(max_in_flight),
    {
        SoftwareQueue {
            pending: OrderedMap::new(),
            in_flight: Vec::new(),
            next_sequence: 0,
            max_in_flight,
            vruntime: 0,
            total_gpu_time_ns: 0,
            completed_count: 0,
        }
    }

    /// Adds a command buffer.
    pub fn enqueue(
        &mut self,
        commands: CommandBuffer,
        priority: GpuPriority,
        fence: FenceId,
        hw_queue: QueueHandle,
    )
        requires
            old(self).wf(),
        ensures
            final(self).wf(),
            final(self)@ == old(self)@.enqueued(commands, priority, fence, hw_queue),
    {
        let sequence: u64 = self.next_sequence;
        self.next_sequence = self.next_sequence.wrapping_add(1);
        let inv_priority: u64 = 4 - priority.rank() as u64;
        self.pending.insert(
            (inv_priority, sequence),
            PendingSubmission { priority, sequence, commands, fence, hw_queue },
        );
        assert(self@ =~= old(self)@.enqueued(commands, priority, fence, hw_queue));
    }

    /// Forgets the fences that are signaled.
    fn retire<D: GpuDevice>(&mut self, device: &D)
        requires
            old(self).wf(),
            device.inv(),
        ensures
            final(self).wf(),
            final(self)@ == (SoftQueueState {
                in_flight: unsignaled(old(self)@.in_flight, *device),
                completed_count: old(self)@.completed_with(
                    unsignaled(old(self)@.in_flight, *device),
                ),
                ..old(self)@
            }),
            final(self)@.in_flight.len() <= old(self)@.in_flight.len(),
    {
        let ghost all = self.in_flight@;
        let mut kept: Vec<FenceId> = Vec::new();
        let mut i: usize = 0;
        assert(all.take(0) =~= Seq::empty());
        while i < self.in_flight.len()
            invariant
                i <= all.len(),
                self.in_flight@ == all,
                device.inv(),
                kept@ == unsignaled(all.take(i as int), *device),
                kept@.len() <= i,
            decreases all.len() - i,
        {
            assert(all.take(i + 1).drop_last() =~= all.take(i as int));
            let f = self.in_flight[i];
            if !device.poll_fence(f) {
                kept.push(f);
            }
            i += 1;
        }
        assert(all.take(i as int) =~= all);
        let retired: usize = self.in_flight.len() - kept.len();
        self.completed_count = self.completed_count.wrapping_add(retired as u64);
        self.in_flight = kept;
    }

    /// Gives work to the hardware in the order of its priority, up to the limit of
    /// the work in flight.
    pub fn drain_to_hardware<D: GpuDevice>(&mut self, device: &mut D) -> (results: Vec<
        Result<FenceId, GpuError>,
    >)
        requires
            old(self).wf(),
            old(device).inv(),
        ensures
            final(self).wf(),
            final(device).inv(),
            final(device).label() == old(device).label(),
            drained_into(old(self)@, *old(device), results@, final(self)@, *final(device)),
            final(device).submissions() == old(device).submissions() + first_submissions(
                old(self)@.pending,
                results@.len(),
            ),
    {
        let ghost q = self@;
        let ghost retained = unsignaled(q.in_flight, *device);
        let ghost log = device.submissions();
        let ghost mut stages: Seq<D> = seq![*device];
        let mut results: Vec<Result<FenceId, GpuError>> = Vec::new();
        proof {
            self.lemma_finite();
        }
        self.retire(device);
        assert(ok_fences(results@) =~= Seq::empty());
        assert(self@.in_flight =~= retained + ok_fences(results@));
        assert(log + first_submissions(q.pending, 0) =~= log);
        while self.in_flight.len() < self.max_in_flight
            invariant
                self.wf(),
                device.inv(),
                device.label() == old(device).label(),
                q == old(self)@,
                q.pending.dom().finite(),
                log == old(device).submissions(),
                results@.len() <= q.pending.dom().len(),
                self@ == (SoftQueueState {
                    pending: after_first(q.pending, results@.len()),
                    in_flight: retained + ok_fences(results@),
                    completed_count: q.completed_with(retained),
                    ..q
                }),
                retained.len() <= q.in_flight.len(),
                device.submissions() == log + first_submissions(q.pending, results@.len()),
                answered(stages, first_submissions(q.pending, results@.len()), results@),
                stages[0] == *old(device),
                stages.last() == *device,
                forall|j: int|
                    0 <= j < results@.len() ==> retained.len() + #[trigger] ok_fences(
                        results@.take(j),
                    ).len() < q.max_in_flight,
            ensures
                self@.in_flight.len() >= q.max_in_flight || results@.len()
                    == q.pending.dom().len(),
            decreases q.pending.dom().len() - results@.len(),
        {
            let ghost n = results@.len();
            let ghost before = self@;
            let ghost res0 = results@;
            proof {
                lemma_after_first(q.pending, n);
            }
            match self.pending.first_key() {
                None => {
                    assert(before.pending.dom() =~= Set::empty());
                    break;
                },
                Some(key) => {
                    proof {
                        assert(before.pending.dom().contains(key));
                        if n == q.pending.dom().len() {
                            assert(before.pending.dom().len() == 0);
                            assert(before.pending.dom() =~= Set::empty());
                        }
                    }
                    match self.pending.remove(key) {
                        None => {
                            break;
                        },
                        Some(entry) => {
                            assert(entry == nth_pending(q.pending, n));
                            assert(self.pending@ == after_first(q.pending, n + 1));
                            match device.submit(entry.hw_queue, &entry.commands) {
                                Ok(fence) => {
                                    self.in_flight.push(fence);
                                    results.push(Ok(fence));
                                },
                                Err(e) => {
                                    results.push(Err(e));
                                },
                            }
                            proof {
                                let ghost stages0 = stages;
                                stages = stages.push(*device);
                                let subs0 = first_submissions(q.pending, n);
                                let subs = first_submissions(q.pending, n + 1);
                                assert forall|j: int|
                                    0 <= j < subs.len() implies (#[trigger] stages[j]).answers(
                                    subs[j],
                                    results@[j],
                                    stages[j + 1],
                                ) by {
                                    assert(stages[j] == stages0[j]);
                                    if j < n {
                                        assert(subs[j] == subs0[j]);
                                        assert(results@[j] == res0[j]);
                                    } else {
                                        assert(subs[j] == submission_of(entry));
                                    }
                                }
                                assert(results@.drop_last() =~= res0);
                                assert(self@.in_flight =~= retained + ok_fences(results@));
                                assert(first_submissions(q.pending, n + 1) =~= first_submissions(
                                    q.pending,
                                    n,
                                ).push(submission_of(entry)));
                                assert(log + first_submissions(q.pending, n + 1) =~= (log
                                    + first_submissions(q.pending, n)).push(submission_of(entry)));
                                assert forall|j: int| 0 <= j < results@.len() implies retained.len()
                                    + #[trigger] ok_fences(results@.take(j)).len()
                                    < q.max_in_flight by {
                                    if j < n {
                                        assert(results@.take(j) =~= res0.take(j));
                                    } else {
                                        assert(results@.take(j) =~= res0);
                                    }
                                }
                            }
                        },
                    }
                },
            }
        }
        results
    }

    /// Number of command buffers that wait.
    pub fn pending_count(&self) -> (n: usize)
        requires
            self.wf(),
        ensures
            n == self@.pending.dom().len(),
    {
        self.pending.len()
    }

    /// Number of command buffers in flight.
    pub fn in_flight_count(&self) -> (n: usize)
        ensures
            n == self@.in_flight.len(),
    {
        self.in_flight.len()
    }

    /// Whether anything waits or is in flight.
    pub fn is_busy(&self) -> (b: bool)
        requires
            self.wf(),
        ensures
            b == (!self@.pending.dom().is_empty() || self@.in_flight.len() > 0),
    {
        !self.pending.is_empty() || self.in_flight.len() > 0
    }
}

/// Statistics of a queue.
#[derive(Clone, Copy, Debug, PartialEq, Eq, Structural)]
pub struct QueueStats {
    pub pending: usize,
    pub in_flight: usize,
    pub completed: u64,
    pub vruntime: u64,
    pub total_gpu_time_ns: u64,
}

/// What a queue manager holds.
#[verifier::ext_equal]
pub struct ManagerState {
    /// Queues by context.
    pub queues: Map<u64, SoftQueueState>,
    /// Next context.
    pub next_ctx: u64,
    /// Limit of the work in flight of each queue.
    pub max_in_flight: usize,
}

/// Contexts stand in the order of their virtual runtime, and of their identifiers
/// within a runtime.
pub open spec fn is_fair_order(queues: Map<u64, SoftQueueState>, order: Seq<u64>) -> bool {
    &&& forall|c: u64| #[trigger] order.contains(c) <==> queues.contains_key(c)
    &&& forall|i: int, j: int|
        0 <= i < j < order.len() ==> ordered_map::key_lt(
            (queues[#[trigger] order[i]].vruntime, order[i]),
            (queues[#[trigger] order[j]].vruntime, order[j]),
        )
}

/// What the hardware is given when the queues are drained in an order with results.
pub open spec fn fair_submissions(
    queues: Map<u64, SoftQueueState>,
    order: Seq<u64>,
    results: Seq<Seq<Result<FenceId, GpuError>>>,
) -> Seq<Submission>
    decreases order.len(),
{
    if order.len() == 0 {
        Seq::empty()
    } else {
        fair_submissions(queues, order.drop_last(), results.drop_last()) + first_submissions(
            queues[order.last()].pending,
            results.last().len(),
        )
    }
}

/// Each queue in `order` is drained once, into a device that the queues before it have
/// been drained into: `devices` are the device before, between and after, and `results`
/// what each queue was answered.
pub open spec fn drained_in_order<D: GpuDevice>(
    before: Map<u64, SoftQueueState>,
    after: Map<u64, SoftQueueState>,
    order: Seq<u64>,
    devices: Seq<D>,
    results: Seq<Seq<Result<FenceId, GpuError>>>,
) -> bool {
    &&& devices.len() == order.len() + 1
    &&& results.len() == order.len()
    &&& forall|i: int|
        0 <= i < order.len() ==> drained_into(
            before[#[trigger] order[i]],
            devices[i],
            results[i],
            after[order[i]],
            devices[i + 1],
        )
}

/// The software queues of a device.
pub struct QueueManager {
    queues: IdMap<SoftwareQueue>,
    next_ctx: u64,
    max_in_flight_per_queue: usize,
}

impl View for QueueManager {
    type V = ManagerState;

    closed spec fn view(&self) -> ManagerState {
        ManagerState {
            queues: Map::new(|c: u64| self.queues@.contains_key(c), |c: u64| self.queues@[c]@),
            next_ctx: self.next_ctx,
            max_in_flight: self.max_in_flight_per_queue,
        }
    }
}

impl QueueManager {
    /// The queues are in order.
    pub closed spec fn wf(&self) -> bool {
        &&& self.queues.wf()
        &&& forall|c: u64| #[trigger] self.queues@.contains_key(c) ==> self.queues@[c].wf()
    }

    /// A manager without queues.
    pub fn new(max_in_flight: usize) -> (m: Self)
        ensures
            m.wf(),
            m@ == (ManagerState { queues: Map::empty(), next_ctx: 1, max_in_flight }),
    {
        let m = QueueManager {
            queues: IdMap::new(),
            next_ctx: 1,
            max_in_flight_per_queue: max_in_flight,
        };
        assert(m@.queues =~= Map::empty());
        m
    }

    /// Makes a queue and returns its context.
    pub fn create_context(&mut self) -> (ctx: u64)
        requires
            old(self).wf(),
            old(self)@.next_ctx < u64::MAX,
        ensures
            final(self).wf(),
            ctx == old(self)@.next_ctx,
            final(self)@ == (ManagerState {
                queues: old(self)@.queues.insert(
                    ctx,
                    SoftQueueState::empty(old(self)@.max_in_flight),
                ),
                next_ctx: (ctx + 1) as u64,
                ..old(self)@
            }),
    {
        let id: u64 = self.next_ctx;
        self.next_ctx = self.next_ctx + 1;
        self.queues.insert(id, SoftwareQueue::new(self.max_in_flight_per_queue));
        assert(self@.queues =~= old(self)@.queues.insert(
            id,
            SoftQueueState::empty(old(self)@.max_in_flight),
        ));
        id
    }

    /// Gives a queue up.
    pub fn destroy_context(&mut self, ctx: u64)
        requires
            old(self).wf(),
        ensures
            final(self).wf(),
            final(self)@ == (ManagerState {
                queues: old(self)@.queues.remove(ctx),
                ..old(self)@
            }),
    {
        self.queues.remove(ctx);
        assert(self@.queues =~= old(self)@.queues.remove(ctx));
    }

    /// Adds a command buffer to the queue of a context.
    pub fn enqueue(
        &mut self,
        ctx: u64,
        commands: CommandBuffer,
        priority: GpuPriority,
        fence: FenceId,
        hw_queue: QueueHandle,
    ) -> (r: Result<(), GpuError>)
        requires
            old(self).wf(),
        ensures
            final(self).wf(),
            r is Ok <==> old(self)@.queues.contains_key(ctx),
            r is Ok ==> final(self)@ == (ManagerState {
                queues: old(self)@.queues.insert(
                    ctx,
                    old(self)@.queues[ctx].enqueued(commands, priority, fence, hw_queue),
                ),
                ..old(self)@
            }),
            r matches Err(e) ==> e.is_invalid("unknown context ID"@) && final(self)@ == old(self)@,
    {
        match self.queues.remove(ctx) {
            None => {
                assert(self@.queues =~= old(self)@.queues);
                Err(GpuError::InvalidParameter("unknown context ID"))
            },
            Some(q0) => {
                let mut q = q0;
                q.enqueue(commands, priority, fence, hw_queue);
                self.queues.insert(ctx, q);
                assert(self@.queues =~= old(self)@.queues.insert(
                    ctx,
                    old(self)@.queues[ctx].enqueued(commands, priority, fence, hw_queue),
                ));
                Ok(())
            },
        }
    }

    /// The contexts in the order in which their queues are drained: the one with the
    /// least virtual runtime first.
    pub fn drain_order(&self) -> (r: Vec<u64>)
        requires
            self.wf(),
        ensures
            is_fair_order(self@.queues, r@),
    {
        let ids = self.queues.keys();
        let mut by_runtime: OrderedMap<()> = OrderedMap::new();
        let ghost queues = self@.queues;
        let mut i: usize = 0;
        while i < ids.len()
            invariant
                i <= ids@.len(),
                self.wf(),
                queues == self@.queues,
                by_runtime.wf(),
                forall|c: u64| #[trigger] ids@.contains(c) <==> self.queues@.contains_key(c),
                forall|k: (u64, u64)| #[trigger]
                    by_runtime@.contains_key(k) ==> ids@.contains(k.1) && k.0
                        == queues[k.1].vruntime,
                forall|x: int|
                    0 <= x < i ==> by_runtime@.contains_key(
                        (queues[#[trigger] ids@[x]].vruntime, ids@[x]),
                    ),
            decreases ids@.len() - i,
        {
            let id: u64 = ids[i];
            assert(ids@.contains(id));
            if let Some(q) = self.queues.get(id) {
                by_runtime.insert((q.vruntime, id), ());
            }
            i += 1;
        }
        let sorted = by_runtime.keys();
        let mut r: Vec<u64> = Vec::new();
        let mut j: usize = 0;
        while j < sorted.len()
            invariant
                j <= sorted@.len(),
                r@.len() == j,
                forall|x: int| 0 <= x < j ==> #[trigger] r@[x] == sorted@[x].1,
            decreases sorted@.len() - j,
        {
            r.push(sorted[j].1);
            j += 1;
        }
        proof {
            assert forall|x: int| 0 <= x < r@.len() implies sorted@[x] == (
                queues[#[trigger] r@[x]].vruntime,
                r@[x],
            ) && queues.contains_key(r@[x]) by {
                assert(sorted@.contains(sorted@[x]));
                assert(by_runtime@.contains_key(sorted@[x]));
            }
            assert forall|c: u64| #[trigger] r@.contains(c) <==> queues.contains_key(c) by {
                if r@.contains(c) {
                    let x = choose|x: int| 0 <= x < r@.len() && r@[x] == c;
                    assert(queues.contains_key(r@[x]));
                }
                if queues.contains_key(c) {
                    assert(ids@.contains(c));
                    let x = choose|x: int| 0 <= x < ids@.len() && ids@[x] == c;
                    assert(by_runtime@.contains_key((queues[ids@[x]].vruntime, ids@[x])));
                    let k = (queues[c].vruntime, c);
                    assert(sorted@.contains(k));
                    let y = choose|y: int| 0 <= y < sorted@.len() && sorted@[y] == k;
                    assert(r@[y] == c);
                }
            }
            assert forall|a: int, b: int| 0 <= a < b < r@.len() implies ordered_map::key_lt(
                (queues[#[trigger] r@[a]].vruntime, r@[a]),
                (queues[#[trigger] r@[b]].vruntime, r@[b]),
            ) by {
                assert(ordered_map::key_lt(sorted@[a], sorted@[b]));
            }
        }
        r
    }

    /// Drains all queues, the one with the least virtual runtime first.
    pub fn drain_all<D: GpuDevice>(&mut self, device: &mut D)
        requires
            old(self).wf(),
            old(device).inv(),
        ensures
            final(self).wf(),
            final(device).inv(),
            final(device).label() == old(device).label(),
            final(self)@.next_ctx == old(self)@.next_ctx,
            final(self)@.max_in_flight == old(self)@.max_in_flight,
            final(self)@.queues.dom() == old(self)@.queues.dom(),
            exists|
                order: Seq<u64>,
                devices: Seq<D>,
                results: Seq<Seq<Result<FenceId, GpuError>>>,
            |
                {
                    &&& is_fair_order(old(self)@.queues, order)
                    &&& #[trigger] drained_in_order(
                        old(self)@.queues,
                        final(self)@.queues,
                        order,
                        devices,
                        results,
                    )
                    &&& devices[0] == *old(device)
                    &&& devices.last() == *final(device)
                    &&& final(device).submissions() == old(device).submissions() + fair_submissions(
                        old(self)@.queues,
                        order,
                        results,
                    )
                },
    {
        let order = self.drain_order();
        let ghost start = self@.queues;
        let ghost log = device.submissions();
        let ghost mut devices: Seq<D> = seq![*device];
        let ghost mut results: Seq<Seq<Result<FenceId, GpuError>>> = Seq::empty();
        let mut i: usize = 0;
        assert(order@.take(0) =~= Seq::empty());
        assert(log + fair_submissions(start, order@.take(0), results) =~= log);
        while i < order.len()
            invariant
                i <= order@.len(),
                self.wf(),
                device.inv(),
                device.label() == old(device).label(),
                start == old(self)@.queues,
                log == old(device).submissions(),
                is_fair_order(start, order@),
                self@.next_ctx == old(self)@.next_ctx,
                self@.max_in_flight == old(self)@.max_in_flight,
                self@.queues.dom() == start.dom(),
                devices[0] == *old(device),
                devices.last() == *device,
                device.submissions() == log + fair_submissions(
                    start,
                    order@.take(i as int),
                    results,
                ),
                drained_in_order(start, self@.queues, order@.take(i as int), devices, results),
                forall|k: int|
                    i <= k < order@.len() ==> self@.queues[#[trigger] order@[k]]
                        == start[order@[k]],
            decreases order@.len() - i,
        {
            let ctx: u64 = order[i];
            let ghost before = self@.queues;
            let ghost devices0 = devices;
            let ghost results0 = results;
            assert(order@.contains(ctx));
            assert(start.contains_key(ctx));
            assert(self@.queues.dom().contains(ctx));
            match self.queues.remove(ctx) {
                None => {},
                Some(q0) => {
                    let mut q = q0;
                    let ghost q_before = q@;
                    let answers = q.drain_to_hardware(device);
                    let ghost q_after = q@;
                    self.queues.insert(ctx, q);
                    proof {
                        devices = devices.push(*device);
                        results = results.push(answers@);
                        assert(self@.queues =~= before.insert(ctx, q_after));
                        assert(self@.queues.dom() =~= start.dom());
                        let done = order@.take(i as int);
                        let now = order@.take(i + 1);
                        assert(now.drop_last() =~= done);
                        assert(results.drop_last() =~= results0);
                        assert(log + fair_submissions(start, now, results) =~= (log
                            + fair_submissions(start, done, results0)) + first_submissions(
                            q_before.pending,
                            answers@.len(),
                        ));
                        assert forall|k: int| 0 <= k < now.len() implies drained_into(
                            start[#[trigger] now[k]],
                            devices[k],
                            results[k],
                            self@.queues[now[k]],
                            devices[k + 1],
                        ) by {
                            assert(devices[k] == devices0[k]);
                            if k < i {
                                assert(ordered_map::key_lt(
                                    (start[order@[k]].vruntime, order@[k]),
                                    (start[order@[i as int]].vruntime, order@[i as int]),
                                ));
                                assert(order@[k] != ctx);
                                assert(done[k] == now[k]);
                                assert(devices[k + 1] == devices0[k + 1]);
                                assert(results[k] == results0[k]);
                            }
                        }
                        assert forall|k: int| i + 1 <= k < order@.len() implies self@.queues[
                        #[trigger] order@[k]] == start[order@[k]] by {
                            assert(ordered_map::key_lt(
                                (start[order@[i as int]].vruntime, order@[i as int]),
                                (start[order@[k]].vruntime, order@[k]),
                            ));
                        }
                    }
                },
            }
            i += 1;
        }
        assert(order@.take(i as int) =~= order@);
    }

    /// Statistics of a context.
    pub fn stats(&self, ctx: u64) -> (r: Option<QueueStats>)
        requires
            self.wf(),
        ensures
            r is Some <==> self@.queues.contains_key(ctx),
            r matches Some(s) ==> {
                let q = self@.queues[ctx];
                &&& s.pending == q.pending.dom().len()
                &&& s.in_flight == q.in_flight.len()
                &&& s.completed == q.completed_count
                &&& s.vruntime == q.vruntime
                &&& s.total_gpu_time_ns == q.total_gpu_time_ns
            },
    {
        match self.queues.get(ctx) {
            Some(q) => Some(
                QueueStats {
                    pending: q.pending_count(),
                    in_flight: q.in_flight_count(),
                    completed: q.completed_count,
                    vruntime: q.vruntime,
                    total_gpu_time_ns: q.total_gpu_time_ns,
                },
            ),
            None => None,
        }
    }
}

/// What is given to the hardware first has the highest priority of all that waits,
/// and arrived first among those of its priority.
pub proof fn first_has_highest_priority(q: SoftQueueState, k: (u64, u64))
    requires
        q.valid(),
        q.pending.dom().finite(),
        q.pending.contains_key(k),
    ensures
        nth_pending(q.pending, 0).priority.level() >= q.pending[k].priority.level(),
        nth_pending(q.pending, 0).priority == q.pending[k].priority ==> nth_pending(
            q.pending,
            0,
        ).sequence <= q.pending[k].sequence,
{
    assert(q.pending.dom().contains(k));
    ordered_map::finite_map_has_first(q.pending);
    let f = ordered_map::first_of(q.pending);
    assert(q.pending.contains_key(f));
    assert(ordered_map::key_le(f, k));
}

/// Draining never has more in flight than the limit, unless more was before.
pub proof fn in_flight_stays_within_limit(
    q: SoftQueueState,
    retained: Seq<FenceId>,
    results: Seq<Result<FenceId, GpuError>>,
    after: SoftQueueState,
)
    requires
        q.drained(retained, results, after),
        retained.len() <= q.max_in_flight,
    ensures
        after.in_flight.len() <= q.max_in_flight,
{
    if results.len() > 0 {
        let last = results.len() - 1;
        assert(results.take(last as int) =~= results.drop_last());
        assert(retained.len() + ok_fences(results.take(last as int)).len() < q.max_in_flight);
    }
}

/// Work of a higher priority leaves before work of a lower one, and work of one priority in
/// the order of its sequence numbers. The priorities rise from `Background` over `Normal`,
/// `High` and `Realtime` to `Deadline`.
pub proof fn queue_orders_by_priority_and_age(a: GpuPriority, b: GpuPriority, m: u64, n: u64)
    ensures
        a.level() > b.level() ==> ordered_map::key_lt(queue_key(a, m), queue_key(b, n)),
        ordered_map::key_lt(queue_key(a, m), queue_key(a, n)) <==> m < n,
        queue_key(a, m) == queue_key(b, n) <==> a == b && m == n,
        GpuPriority::Background.level() < GpuPriority::Normal.level(),
        GpuPriority::Normal.level() < GpuPriority::High.level(),
        GpuPriority::High.level() < GpuPriority::Realtime.level(),
        GpuPriority::Realtime.level() < GpuPriority::Deadline.level(),
{
}

/// Work that is queued is kept as it was given, with the next sequence number, and nothing
/// else changes but what stood under the same priority and number.
pub proof fn queued_work_is_kept(
    q: SoftQueueState,
    commands: CommandBuffer,
    priority: GpuPriority,
    fence: FenceId,
    hw_queue: QueueHandle,
    k: (u64, u64),
)
    ensures
        ({
            let e = q.enqueued(commands, priority, fence, hw_queue);
            let own = queue_key(priority, q.next_sequence);
            &&& e.pending.contains_key(own)
            &&& e.pending[own].commands == commands
            &&& e.pending[own].priority == priority
            &&& e.pending[own].fence == fence
            &&& e.pending[own].hw_queue == hw_queue
            &&& e.pending[own].sequence == q.next_sequence
            &&& q.next_sequence < u64::MAX ==> e.next_sequence == q.next_sequence + 1
            &&& k != own ==> e.pending.contains_key(k) == q.pending.contains_key(k)
                && e.pending[k] == q.pending[k]
            &&& e.in_flight == q.in_flight
            &&& e.max_in_flight == q.max_in_flight
            &&& e.vruntime == q.vruntime
            &&& e.total_gpu_time_ns == q.total_gpu_time_ns
            &&& e.completed_count == q.completed_count
        }),
{
}

/// Of the fences in flight those stay that the device has not signaled, in their order.
pub proof fn unsignaled_fences_stay<D: GpuDevice>(fences: Seq<FenceId>, device: D, f: FenceId)
    ensures
        unsignaled(fences, device) == fences.filter(|g: FenceId| !device.signaled(g)),
        unsignaled(fences, device).contains(f) <==> fences.contains(f) && !device.signaled(f),
        unsignaled(fences, device).len() <= fences.len(),
    decreases fences.len(),
{
    reveal_with_fuel(Seq::filter, 2);
    if fences.len() > 0 {
        let rest = fences.drop_last();
        unsignaled_fences_stay(rest, device, f);
        let u = unsignaled(rest, device);
        let n = fences.len() - 1;
        assert(fences =~= rest.push(fences.last()));
        assert(fences[n] == fences.last());
        if fences.contains(f) {
            let i = choose|i: int| 0 <= i < fences.len() && fences[i] == f;
            if i < n {
                assert(rest[i] == f);
            }
        }
        if rest.contains(f) {
            let i = choose|i: int| 0 <= i < rest.len() && rest[i] == f;
            assert(fences[i] == f);
        }
        if !device.signaled(fences.last()) {
            let p = u.push(fences.last());
            assert(p[u.len() as int] == fences.last());
            if u.contains(f) {
                let i = choose|i: int| 0 <= i < u.len() && u[i] == f;
                assert(p[i] == f);
            }
            if p.contains(f) {
                let i = choose|i: int| 0 <= i < p.len() && p[i] == f;
                if i < u.len() {
                    assert(u[i] == f);
                }
            }
        }
    }
}

/// The fences of a round are those of its accepted submissions, in their order.
pub proof fn fences_of_accepted_work(results: Seq<Result<FenceId, GpuError>>, j: int)
    requires
        0 <= j < results.len(),
    ensures
        ok_fences(results).len() <= results.len(),
        results[j] matches Ok(f) ==> {
            let n = ok_fences(results.take(j)).len() as int;
            n < ok_fences(results).len() && ok_fences(results)[n] == f
        },
        (forall|i: int| 0 <= i < results.len() ==> #[trigger] results[i] is Err) ==> ok_fences(
            results,
        ).len() == 0,
    decreases results.len(),
{
    let rest = results.drop_last();
    let n = results.len() - 1;
    if j < n {
        fences_of_accepted_work(rest, j);
        assert(rest.take(j) =~= results.take(j));
    } else {
        assert(results.take(j) =~= rest);
        if rest.len() > 0 {
            fences_of_accepted_work(rest, 0);
        }
    }
    assert(results[n] == results.last());
    if forall|i: int| 0 <= i < results.len() ==> #[trigger] results[i] is Err {
        assert forall|i: int| 0 <= i < rest.len() implies #[trigger] rest[i] is Err by {
            assert(results[i] is Err);
        }
        if rest.len() > 0 {
            fences_of_accepted_work(rest, 0);
        }
    }
}

/// A round hands work over until the limit of work in flight is reached or none is left:
/// what has finished is counted and makes room, and what is not handed over stays queued.
pub proof fn round_fills_the_room<D: GpuDevice>(
    q: SoftQueueState,
    device: D,
    results: Seq<Result<FenceId, GpuError>>,
    after: SoftQueueState,
    device_after: D,
)
    requires
        q.pending.dom().finite(),
        drained_into(q, device, results, after, device_after),
    ensures
        ({
            let kept = q.in_flight.filter(|f: FenceId| !device.signaled(f));
            &&& after.pending.dom().len() + results.len() == q.pending.dom().len()
            &&& after.in_flight.len() < q.max_in_flight ==> after.pending.dom().len() == 0
            &&& kept.len() >= q.max_in_flight ==> results.len() == 0
            &&& after.in_flight == kept + ok_fences(results)
            &&& after.completed_count == q.completed_count.wrapping_add(
                (q.in_flight.len() - kept.len()) as u64,
            )
            &&& after.next_sequence == q.next_sequence
            &&& after.max_in_flight == q.max_in_flight
            &&& after.vruntime == q.vruntime
            &&& after.total_gpu_time_ns == q.total_gpu_time_ns
        }),
{
    unsignaled_fences_stay(q.in_flight, device, FenceId(0));
    lemma_after_first(q.pending, results.len());
    if results.len() > 0 {
        assert(unsignaled(q.in_flight, device).len() + ok_fences(results.take(0)).len()
            < q.max_in_flight);
    }
}

/// Work leaves in order: of two pieces the one that leaves earlier has the higher priority,
/// or the same one and the lower sequence number.
pub proof fn work_leaves_by_priority_and_age(q: SoftQueueState, i: nat, j: nat)
    requires
        q.valid(),
        q.pending.dom().finite(),
        i < j < q.pending.dom().len(),
    ensures
        ({
            let a = nth_pending(q.pending, i);
            let b = nth_pending(q.pending, j);
            a.priority.level() > b.priority.level() || (a.priority == b.priority && a.sequence
                < b.sequence)
        }),
{
    let mi = after_first(q.pending, i);
    let mj = after_first(q.pending, j);
    lemma_after_first(q.pending, i);
    lemma_after_first(q.pending, j);
    lemma_after_keeps(q.pending, i, j);
    ordered_map::finite_map_has_first(mi);
    ordered_map::finite_map_has_first(mj);
    let ki = ordered_map::first_of(mi);
    let kj = ordered_map::first_of(mj);
    assert(mj.contains_key(kj));
    assert(mi.contains_key(kj) && kj != ki);
    assert(ordered_map::key_le(ki, kj));
    lemma_after_keeps(q.pending, 0, i);
    assert(q.pending.contains_key(ki));
    assert(q.pending.contains_key(kj));
}

/// What is left later was there earlier, unchanged, and the first of the earlier is gone.
proof fn lemma_after_keeps(m: Map<(u64, u64), PendingSubmission>, i: nat, j: nat)
    requires
        i <= j,
    ensures
        forall|k: (u64, u64)| #[trigger]
            after_first(m, j).contains_key(k) ==> after_first(m, i).contains_key(k) && after_first(
                m,
                i,
            )[k] == after_first(m, j)[k],
        i < j ==> !after_first(m, j).contains_key(ordered_map::first_of(after_first(m, i))),
    decreases j - i,
{
    if i < j {
        lemma_after_keeps(m, i, (j - 1) as nat);
    }
}

/// Contexts take their turns by the GPU time that they have had, the least first; of two
/// with the same time the one that was made first.
pub proof fn contexts_take_turns_by_time(
    queues: Map<u64, SoftQueueState>,
    order: Seq<u64>,
    i: int,
    j: int,
)
    requires
        is_fair_order(queues, order),
        0 <= i < j < order.len(),
    ensures
        queues[order[i]].vruntime < queues[order[j]].vruntime || (queues[order[i]].vruntime
            == queues[order[j]].vruntime && order[i] < order[j]),
        queues.contains_key(order[i]),
        order[i] != order[j],
{
    assert(order.contains(order[i]));
    assert(ordered_map::key_lt(
        (queues[order[i]].vruntime, order[i]),
        (queues[order[j]].vruntime, order[j]),
    ));
}

/// The work of a context follows that of the contexts before it, in the order in which it
/// leaves the queue of the context.
pub proof fn work_follows_that_of_earlier_contexts(
    queues: Map<u64, SoftQueueState>,
    order: Seq<u64>,
    results: Seq<Seq<Result<FenceId, GpuError>>>,
    i: int,
    n: nat,
)
    requires
        results.len() == order.len(),
        0 <= i < order.len(),
        n < results[i].len(),
    ensures
        ({
            let all = fair_submissions(queues, order, results);
            let at = fair_submissions(queues, order.take(i), results.take(i)).len() + n;
            let p = nth_pending(queues[order[i]].pending, n);
            &&& at < all.len()
            &&& all[at as int].queue == p.hw_queue
            &&& all[at as int].commands == p.commands@.commands
        }),
    decreases order.len(),
{
    let m = order.len() - 1;
    if i < m {
        work_follows_that_of_earlier_contexts(queues, order.drop_last(), results.drop_last(), i, n);
        assert(order.drop_last().take(i) =~= order.take(i));
        assert(results.drop_last().take(i) =~= results.take(i));
    } else {
        assert(order.take(i) =~= order.drop_last());
        assert(results.take(i) =~= results.drop_last());
    }
}

} // verus!
