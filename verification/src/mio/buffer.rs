//! Pools of registered buffers of one size.

use vstd::prelude::*;

verus! {

/// State of a buffer.
#[derive(Clone, Copy, Debug, PartialEq, Eq, Structural)]
pub enum BufferState {
    /// Available for allocation, or allocated without further claim.
    Free,
    /// Owned by the kernel while I/O is in progress.
    KernelOwned,
    /// Owned by user space.
    UserOwned,
    /// Pinned for DMA: cannot be reclaimed.
    DmaPinned,
}

/// A registered buffer.
#[derive(Clone, Copy, Debug, PartialEq, Eq, Structural)]
pub struct BufferEntry {
    /// Virtual address.
    pub addr: u64,
    /// Length in bytes.
    pub len: u32,
    /// State.
    pub state: BufferState,
    /// Identifier within the pool.
    pub buf_id: u16,
    /// Reference count.
    pub ref_count: u32,
}

impl BufferEntry {
    fn new(addr: u64, len: u32, buf_id: u16) -> (e: Self)
        ensures
            e == (BufferEntry { addr, len, state: BufferState::Free, buf_id, ref_count: 0 }),
    {
        BufferEntry { addr, len, state: BufferState::Free, buf_id, ref_count: 0 }
    }
}

/// What a buffer pool holds.
#[verifier::ext_equal]
pub struct PoolState {
    /// Identifier that submissions refer to.
    pub group_id: u16,
    /// Size of a buffer.
    pub buf_size: u32,
    /// Buffers by identifier.
    pub entries: Seq<BufferEntry>,
    /// Identifiers that can be allocated: the last one is next.
    pub free: Seq<u16>,
    /// Number of allocated buffers, modulo the width of the counter.
    pub allocated: u32,
}

/// The buffers of a new pool.
pub open spec fn pool_entries(buf_size: u32, count: u32, base_addr: u64) -> Seq<BufferEntry> {
    Seq::new(
        count as nat,
        |i: int|
            BufferEntry {
                addr: (base_addr + i * buf_size) as u64,
                len: buf_size,
                state: BufferState::Free,
                buf_id: i as u16,
                ref_count: 0,
            },
    )
}

impl PoolState {
    /// The buffer exists and is not pinned.
    pub open spec fn can_free(self, id: u16) -> bool {
        id < self.entries.len() && self.entries[id as int].state != BufferState::DmaPinned
    }

    /// Identifier and address of a buffer.
    pub open spec fn handle(self, id: u16) -> (u16, u64) {
        (self.entries[id as int].buf_id, self.entries[id as int].addr)
    }

    /// The pool after the `n` next buffers were allocated.
    pub open spec fn after_alloc(self, n: int) -> PoolState {
        PoolState {
            free: self.free.take(self.free.len() - n),
            allocated: self.allocated.wrapping_add(n as u32),
            ..self
        }
    }

    /// Those of `ids` that the pool takes back.
    pub open spec fn freeable(self, ids: Seq<u16>) -> Seq<u16> {
        ids.filter(|id: u16| self.can_free(id))
    }

    /// The pool after `ids` were freed one after the other.
    pub open spec fn after_free(self, ids: Seq<u16>) -> PoolState {
        PoolState {
            free: self.free + self.freeable(ids),
            allocated: self.allocated.wrapping_sub(self.freeable(ids).len() as u32),
            ..self
        }
    }

    /// The pool with another state of a buffer.
    pub open spec fn with_state(self, id: u16, state: BufferState) -> PoolState {
        PoolState {
            entries: self.entries.update(
                id as int,
                BufferEntry { state, ..self.entries[id as int] },
            ),
            ..self
        }
    }

    /// No buffer can be allocated twice, and free and allocated buffers add up.
    pub open spec fn exclusive(self) -> bool {
        &&& self.entries.len() <= 0x1_0000
        &&& self.free.no_duplicates()
        &&& self.allocated + self.free.len() == self.entries.len()
    }
}

/// A pool of buffers of one size.
pub struct BufferPool {
    /// Identifier that submissions refer to.
    pub group_id: u16,
    /// Size of a buffer.
    pub buf_size: u32,
    /// Buffers.
    entries: Vec<BufferEntry>,
    /// Indices of free buffers.
    free_list: Vec<u16>,
    /// Number of buffers.
    pub count: u32,
    /// Number of allocated buffers.
    pub allocated: u32,
}

impl View for BufferPool {
    type V = PoolState;

    closed spec fn view(&self) -> PoolState {
        PoolState {
            group_id: self.group_id,
            buf_size: self.buf_size,
            entries: self.entries@,
            free: self.free_list@,
            allocated: self.allocated,
        }
    }
}

impl BufferPool {
    /// Free buffers exist, and each buffer knows its own identifier.
    pub closed spec fn wf(&self) -> bool {
        &&& self@.entries.len() == self.count
        &&& forall|i: int| 0 <= i < self@.free.len() ==> #[trigger] self@.free[i] < self.count
        &&& forall|i: int|
            0 <= i < self@.entries.len() ==> (#[trigger] self@.entries[i]).buf_id == i as u16
    }

    /// Makes a pool of `count` buffers that lie one after the other from
    /// `base_addr` on.
    pub fn new(group_id: u16, buf_size: u32, count: u32, base_addr: u64) -> (p: Self)
        requires
            count > 0 ==> base_addr + (count - 1) * buf_size <= u64::MAX,
        ensures
            p.wf(),
            p@ == (PoolState {
                group_id,
                buf_size,
                entries: pool_entries(buf_size, count, base_addr),
                free: Seq::new(count as nat, |i: int| i as u16),
                allocated: 0,
            }),
            count <= 0x1_0000 ==> p@.exclusive(),
    {
        let mut entries: Vec<BufferEntry> = Vec::with_capacity(count as usize);
        let mut free_list: Vec<u16> = Vec::with_capacity(count as usize);
        let mut i: u32 = 0;
        while i < count
            invariant
                i <= count,
                count > 0 ==> base_addr + (count - 1) * buf_size <= u64::MAX,
                entries@ =~= pool_entries(buf_size, i, base_addr),
                free_list@ =~= Seq::new(i as nat, |j: int| j as u16),
            decreases count - i,
        {
            assert(i * buf_size <= (count - 1) * buf_size) by (nonlinear_arith)
                requires
                    i <= count - 1,
                    buf_size >= 0,
            ;
            assert(0 <= i * buf_size) by (nonlinear_arith);
            let addr: u64 = base_addr + (i as u64) * (buf_size as u64);
            let id: u16 = #[verifier::truncate] (i as u16);
            entries.push(BufferEntry::new(addr, buf_size, id));
            free_list.push(id);
            i += 1;
        }
        BufferPool { group_id, buf_size, entries, free_list, count, allocated: 0 }
    }

    /// Allocates a buffer: its identifier and its address. `None` if all are
    /// allocated.
    pub fn allocate(&mut self) -> (r: Option<(u16, u64)>)
        requires
            old(self).wf(),
        ensures
            final(self).wf(),
            r is None <==> old(self)@.free.len() == 0,
            r is None ==> final(self)@ == old(self)@,
            r matches Some(h) ==> h == old(self)@.handle(old(self)@.free.last()) && final(self)@
                == old(self)@.after_alloc(1),
    {
        match self.free_list.pop() {
            Some(idx) => {
                assert(idx == old(self)@.free.last());
                let entry = &self.entries[idx as usize];
                self.allocated = self.allocated.wrapping_add(1);
                assert(self@ =~= old(self)@.after_alloc(1));
                Some((entry.buf_id, entry.addr))
            },
            None => None,
        }
    }

    /// Gives a buffer back. An unknown buffer and one that is pinned for DMA are
    /// left alone.
    pub fn free(&mut self, buf_id: u16)
        requires
            old(self).wf(),
        ensures
            final(self).wf(),
            final(self)@ == old(self)@.after_free(seq![buf_id]),
    {
        reveal_with_fuel(Seq::filter, 2);
        assert(seq![buf_id].drop_last() =~= Seq::empty());
        if (buf_id as u32) < self.count && self.entries[buf_id as usize].state
            != BufferState::DmaPinned {
            self.free_list.push(buf_id);
            self.allocated = self.allocated.wrapping_sub(1);
        }
        assert(self@ =~= old(self)@.after_free(seq![buf_id]));
    }

    /// Allocates up to `max` buffers.
    pub fn alloc_batch(&mut self, max: u32) -> (r: Vec<(u16, u64)>)
        requires
            old(self).wf(),
        ensures
            final(self).wf(),
            r.len() == if max <= old(self)@.free.len() {
                max as int
            } else {
                old(self)@.free.len() as int
            },
            final(self)@ == old(self)@.after_alloc(r.len() as int),
            forall|i: int|
                0 <= i < r.len() ==> #[trigger] r[i] == old(self)@.handle(
                    old(self)@.free[old(self)@.free.len() - 1 - i],
                ),
    {
        let take: usize = if (max as usize) < self.free_list.len() {
            max as usize
        } else {
            self.free_list.len()
        };
        let mut result: Vec<(u16, u64)> = Vec::with_capacity(take);
        let ghost start = self@;
        let mut i: usize = 0;
        while i < take
            invariant
                i <= take <= start.free.len(),
                take <= u32::MAX,
                result.len() == i,
                self.wf(),
                self.group_id == old(self).group_id,
                self.buf_size == old(self).buf_size,
                self.count == old(self).count,
                start == old(self)@,
                self@.entries == start.entries,
                self@.allocated == start.allocated,
                self@.free == start.free.take(start.free.len() - i),
                forall|k: int|
                    0 <= k < i ==> #[trigger] result[k] == start.handle(
                        start.free[start.free.len() - 1 - k],
                    ),
            decreases take - i,
        {
            match self.free_list.pop() {
                Some(idx) => {
                    assert(idx == start.free[start.free.len() - 1 - i]);
                    assert(start.free.take(start.free.len() - i)[start.free.len() - 1 - i] == idx);
                    assert(start.free.take(start.free.len() - i).drop_last()
                        =~= start.free.take(start.free.len() - (i + 1)));
                    let entry = &self.entries[idx as usize];
                    result.push((entry.buf_id, entry.addr));
                },
                None => {},
            }
            i += 1;
        }
        self.allocated = self.allocated.wrapping_add(result.len() as u32);
        assert(self@ =~= old(self)@.after_alloc(result.len() as int));
        result
    }

    /// Gives buffers back, one after the other.
    pub fn free_batch(&mut self, buf_ids: &[u16])
        requires
            old(self).wf(),
            buf_ids@.len() <= u32::MAX,
        ensures
            final(self).wf(),
            final(self)@ == old(self)@.after_free(buf_ids@),
    {
        let ghost start = self@;
        let ghost keeps = |id: u16| start.can_free(id);
        let mut count: u32 = 0;
        let mut i: usize = 0;
        assert(buf_ids@.take(0).filter(keeps) =~= Seq::empty()) by {
            reveal(Seq::filter);
        }
        while i < buf_ids.len()
            invariant
                i <= buf_ids.len() <= u32::MAX,
                self.wf(),
                self.group_id == old(self).group_id,
                self.buf_size == old(self).buf_size,
                self.count == old(self).count,
                start == old(self)@,
                keeps == (|id: u16| start.can_free(id)),
                self@.entries == start.entries,
                self@.allocated == start.allocated,
                self@.free == start.free + buf_ids@.take(i as int).filter(keeps),
                count == buf_ids@.take(i as int).filter(keeps).len(),
                count <= i,
            decreases buf_ids.len() - i,
        {
            let id: u16 = buf_ids[i];
            proof {
                reveal(Seq::filter);
                assert(buf_ids@.take(i + 1).drop_last() =~= buf_ids@.take(i as int));
                assert(buf_ids@.take(i + 1).last() == id);
            }
            if (id as u32) < self.count && self.entries[id as usize].state
                != BufferState::DmaPinned {
                self.free_list.push(id);
                count += 1;
                assert(self@.free =~= start.free + buf_ids@.take(i + 1).filter(keeps));
            }
            i += 1;
        }
        assert(buf_ids@.take(i as int) =~= buf_ids@);
        self.allocated = self.allocated.wrapping_sub(count);
        assert(self@ =~= old(self)@.after_free(buf_ids@));
    }

    /// Number of buffers that are not allocated.
    pub fn free_count(&self) -> (n: u32)
        requires
            self.wf(),
            self@.allocated <= self@.entries.len(),
        ensures
            n == self@.entries.len() - self@.allocated,
            self@.exclusive() ==> n == self@.free.len(),
    {
        self.count - self.allocated
    }

    /// The buffer with an identifier.
    pub fn get(&self, buf_id: u16) -> (r: Option<&BufferEntry>)
        ensures
            r is Some <==> buf_id < self@.entries.len(),
            r matches Some(e) ==> *e == self@.entries[buf_id as int],
    {
        self.entries.get(buf_id as usize)
    }

    /// Pins a buffer for DMA: it cannot be freed until it is unpinned. Whether the
    /// buffer exists.
    pub fn pin_for_dma(&mut self, buf_id: u16) -> (r: bool)
        requires
            old(self).wf(),
        ensures
            final(self).wf(),
            r == (buf_id < old(self)@.entries.len()),
            final(self)@ == if r {
                old(self)@.with_state(buf_id, BufferState::DmaPinned)
            } else {
                old(self)@
            },
    {
        if (buf_id as u32) < self.count {
            let entry = self.entries[buf_id as usize];
            self.entries.set(
                buf_id as usize,
                BufferEntry { state: BufferState::DmaPinned, ..entry },
            );
            assert(self@ =~= old(self)@.with_state(buf_id, BufferState::DmaPinned));
            true
        } else {
            false
        }
    }

    /// Unpins a buffer that was pinned for DMA. Whether the buffer exists.
    pub fn unpin_dma(&mut self, buf_id: u16) -> (r: bool)
        requires
            old(self).wf(),
        ensures
            final(self).wf(),
            r == (buf_id < old(self)@.entries.len()),
            final(self)@ == if r && old(self)@.entries[buf_id as int].state
                == BufferState::DmaPinned {
                old(self)@.with_state(buf_id, BufferState::Free)
            } else {
                old(self)@
            },
    {
        if (buf_id as u32) < self.count {
            let entry = self.entries[buf_id as usize];
            if entry.state == BufferState::DmaPinned {
                self.entries.set(
                    buf_id as usize,
                    BufferEntry { state: BufferState::Free, ..entry },
                );
                assert(self@ =~= old(self)@.with_state(buf_id, BufferState::Free));
            }
            true
        } else {
            false
        }
    }
}

/// Buffers of a new pool do not overlap.
pub proof fn buffers_are_disjoint(buf_size: u32, count: u32, base_addr: u64, i: int, j: int)
    requires
        0 <= i < j < count,
        base_addr + (count - 1) * buf_size <= u64::MAX,
    ensures
        pool_entries(buf_size, count, base_addr)[i].addr + buf_size <= pool_entries(
            buf_size,
            count,
            base_addr,
        )[j].addr,
{
    assert(i * buf_size + buf_size <= j * buf_size && j * buf_size <= (count - 1) * buf_size && 0
        <= i * buf_size) by (nonlinear_arith)
        requires
            0 <= i < j < count,
            buf_size >= 0,
    ;
}

/// A buffer that was allocated is not handed out again before it is freed.
pub proof fn allocated_buffer_is_not_free(p: PoolState)
    requires
        p.exclusive(),
        p.free.len() > 0,
    ensures
        p.after_alloc(1).exclusive(),
        !p.after_alloc(1).free.contains(p.free.last()),
{
    let rest = p.free.take(p.free.len() - 1);
    assert(!rest.contains(p.free.last())) by {
        if rest.contains(p.free.last()) {
            let k = choose|k: int| 0 <= k < rest.len() && rest[k] == p.free.last();
            assert(p.free[k] == p.free[p.free.len() - 1]);
        }
    }
}

/// Freeing what was just allocated restores the pool.
pub proof fn free_undoes_alloc(p: PoolState)
    requires
        p.free.len() > 0,
        p.can_free(p.free.last()),
    ensures
        p.after_alloc(1).after_free(seq![p.free.last()]) == p,
{
    reveal_with_fuel(Seq::filter, 2);
    let id = p.free.last();
    let q = p.after_alloc(1);
    assert(seq![id].drop_last() =~= Seq::empty());
    assert(q.can_free(id));
    assert(q.freeable(seq![id]) =~= seq![id]);
    assert(q.after_free(seq![id]) =~= p);
}

/// Freeing a buffer that is allocated keeps the pool exclusive.
pub proof fn free_keeps_exclusive(p: PoolState, id: u16)
    requires
        p.exclusive(),
        p.can_free(id),
        !p.free.contains(id),
        p.allocated > 0,
    ensures
        p.after_free(seq![id]).exclusive(),
        p.after_free(seq![id]).free.last() == id,
{
    reveal_with_fuel(Seq::filter, 2);
    assert(seq![id].drop_last() =~= Seq::empty());
    assert(p.freeable(seq![id]) =~= seq![id]);
}

/// A pinned buffer is not taken back until it is unpinned.
pub proof fn pinned_buffer_is_not_freed(p: PoolState, id: u16)
    requires
        id < p.entries.len(),
    ensures
        p.with_state(id, BufferState::DmaPinned).after_free(seq![id]) == p.with_state(
            id,
            BufferState::DmaPinned,
        ),
        p.with_state(id, BufferState::DmaPinned).with_state(id, BufferState::Free).can_free(id),
{
    reveal_with_fuel(Seq::filter, 2);
    let q = p.with_state(id, BufferState::DmaPinned);
    assert(seq![id].drop_last() =~= Seq::empty());
    assert(q.freeable(seq![id]) =~= Seq::empty());
    assert(q.after_free(seq![id]) =~= q);
}

/// Each buffer of a pool begins where the one before ends, the first at the base, and has the
/// size and the number of its place. All are free.
pub proof fn buffers_follow_one_another(buf_size: u32, count: u32, base_addr: u64, i: int)
    requires
        0 <= i < count <= 0x1_0000,
        base_addr + (count - 1) * buf_size <= u64::MAX,
    ensures
        ({
            let e = pool_entries(buf_size, count, base_addr);
            &&& e.len() == count
            &&& e[0].addr == base_addr
            &&& i > 0 ==> e[i].addr - e[i - 1].addr == buf_size
            &&& e[i].len == buf_size
            &&& e[i].buf_id == i
            &&& e[i].state == BufferState::Free && e[i].ref_count == 0
        }),
{
    assert(0 <= i * buf_size <= (count - 1) * buf_size) by (nonlinear_arith)
        requires
            0 <= i <= count - 1,
            buf_size >= 0,
    ;
    assert(0 * buf_size == 0);
    if i > 0 {
        assert(i * buf_size - (i - 1) * buf_size == buf_size && 0 <= (i - 1) * buf_size)
            by (nonlinear_arith)
            requires
                i > 0,
                buf_size >= 0,
        ;
    }
}

/// A buffer that is handed out is the one its number names, at its address, and is counted;
/// as many are free less.
pub proof fn handed_out_buffer_is_counted(p: PoolState, n: int)
    requires
        0 <= n <= p.free.len(),
        p.exclusive(),
    ensures
        p.after_alloc(n).allocated == p.allocated + n,
        p.after_alloc(n).free.len() == p.free.len() - n,
        p.after_alloc(n).entries == p.entries,
        n > 0 ==> p.handle(p.free.last()).1 == p.entries[p.free.last() as int].addr,
        n > 0 ==> p.handle(p.free.last()).0 == p.entries[p.free.last() as int].buf_id,
{
}

/// A buffer can be given back unless it is unknown or pinned, and its state is all that
/// pinning changes.
pub proof fn only_known_unpinned_buffers_are_freed(p: PoolState, id: u16, state: BufferState)
    ensures
        p.can_free(id) <==> id < p.entries.len() && p.entries[id as int].state
            != BufferState::DmaPinned,
        id < p.entries.len() ==> {
            let q = p.with_state(id, state);
            &&& q.entries[id as int].state == state
            &&& q.entries[id as int].addr == p.entries[id as int].addr
            &&& q.free == p.free && q.allocated == p.allocated
            &&& forall|o: int|
                0 <= o < p.entries.len() && o != id ==> #[trigger] q.entries[o] == p.entries[o]
        },
        id >= p.entries.len() ==> p.after_free(seq![id]) == p,
{
    if id >= p.entries.len() {
        let s = seq![id];
        reveal_with_fuel(Seq::filter, 2);
        assert(s.drop_last() =~= Seq::<u16>::empty());
        assert(p.freeable(s) =~= Seq::<u16>::empty());
        assert(p.after_free(s) =~= p);
    }
}

} // verus!
