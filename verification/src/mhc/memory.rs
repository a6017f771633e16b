//! GPU memory with one address space for CPU and GPU.

pub mod gpu_mem_flags;

use vstd::prelude::*;

verus! {

/// An address that the GPU sees.
#[derive(Clone, Copy, Debug, PartialEq, Eq, Structural)]
pub struct GpuAddress(pub u64);

impl GpuAddress {
    /// The null address.
    pub fn null() -> (a: Self)
        ensures
            a == GpuAddress(0),
    {
        GpuAddress(0)
    }

    /// Whether this is the null address.
    pub fn is_null(self) -> (r: bool)
        ensures
            r == (self == GpuAddress(0)),
    {
        self.0 == 0
    }

    /// The address `bytes` further on.
    pub fn offset(self, bytes: u64) -> (a: Self)
        requires
            self.0 + bytes <= u64::MAX,
        ensures
            a.0 == self.0 + bytes,
    {
        GpuAddress(self.0 + bytes)
    }
}

/// A set of allocation flags.
#[derive(Clone, Copy, Debug, PartialEq, Eq, Structural)]
pub struct GpuMemFlags {
    /// Union of the flags.
    pub bits: u32,
}

impl GpuMemFlags {
    /// The flags of both sets.
    pub fn union(self, other: GpuMemFlags) -> (r: GpuMemFlags)
        ensures
            r.bits == self.bits | other.bits,
    {
        GpuMemFlags { bits: self.bits | other.bits }
    }

    /// Whether all flags of the other set are in this one.
    pub fn contains(self, other: GpuMemFlags) -> (r: bool)
        ensures
            r == (self.bits & other.bits == other.bits),
    {
        self.bits & other.bits == other.bits
    }
}

impl Default for GpuMemFlags {
    /// Visible to the CPU, coherent, and open to shaders.
    fn default() -> (f: Self)
        ensures
            f.bits == 0x1d,
            f.bits == gpu_mem_flags::HOST_VISIBLE | gpu_mem_flags::HOST_COHERENT
                | gpu_mem_flags::SHADER_READ | gpu_mem_flags::SHADER_WRITE,
    {
        assert(0x1u32 | 0x4u32 | 0x8u32 | 0x10u32 == 0x1du32) by (bit_vector);
        GpuMemFlags {
            bits: gpu_mem_flags::HOST_VISIBLE | gpu_mem_flags::HOST_COHERENT
                | gpu_mem_flags::SHADER_READ | gpu_mem_flags::SHADER_WRITE,
        }
    }
}

/// A GPU memory allocation.
#[derive(Clone, Copy, Debug, PartialEq, Eq, Structural)]
pub struct GpuAllocation {
    /// Address for the CPU.
    pub cpu_addr: u64,
    /// Address for the GPU.
    pub gpu_addr: GpuAddress,
    /// Size in bytes.
    pub size: usize,
    /// Flags.
    pub flags: GpuMemFlags,
    /// Identifier within the allocator.
    pub alloc_id: u64,
}

/// Alignment of allocations.
pub const ALLOC_ALIGN: usize = 16;

/// Greatest size of an allocation: rounded up to the alignment it must not exceed
/// the greatest signed value.
pub open spec fn max_alloc_size() -> int {
    isize::MAX - (ALLOC_ALIGN - 1)
}

/// A live region of memory.
#[verifier::ext_equal]
pub struct Region {
    /// Identifier.
    pub id: u64,
    /// First address.
    pub start: u64,
    /// Contents.
    pub bytes: Seq<u8>,
}

impl Region {
    /// The `len` bytes from `addr` on lie in the region.
    pub open spec fn covers(self, addr: int, len: int) -> bool {
        self.start <= addr && addr + len <= self.start + self.bytes.len()
    }

    /// No byte of the region is among the `len` bytes from `addr` on.
    pub open spec fn apart(self, addr: int, len: int) -> bool {
        addr + len <= self.start || self.start + self.bytes.len() <= addr
    }

    /// The region after `data` was written at `addr`.
    pub open spec fn written(self, addr: int, data: Seq<u8>) -> Region {
        Region {
            bytes: Seq::new(
                self.bytes.len(),
                |i: int|
                    if addr <= self.start + i < addr + data.len() {
                        data[self.start + i - addr]
                    } else {
                        self.bytes[i]
                    },
            ),
            ..self
        }
    }
}

/// What a memory pool holds.
#[verifier::ext_equal]
pub struct MemoryState {
    /// Live regions.
    pub regions: Seq<Region>,
    /// Next identifier.
    pub next_id: u64,
}

impl MemoryState {
    /// A pool without regions.
    pub open spec fn fresh() -> MemoryState {
        MemoryState { regions: Seq::empty(), next_id: 1 }
    }

    /// No region has a byte among the `len` bytes from `addr` on.
    pub open spec fn is_free(self, addr: int, len: int) -> bool {
        forall|i: int| 0 <= i < self.regions.len() ==> (#[trigger] self.regions[i]).apart(addr, len)
    }

    /// Regions are not empty, do not wrap around, and have no byte in common.
    pub open spec fn disjoint(self) -> bool {
        &&& forall|i: int|
            0 <= i < self.regions.len() ==> {
                &&& (#[trigger] self.regions[i]).bytes.len() > 0
                &&& self.regions[i].start > 0
                &&& self.regions[i].start + self.regions[i].bytes.len() <= u64::MAX
            }
        &&& forall|i: int, j: int|
            0 <= i < self.regions.len() && 0 <= j < self.regions.len() && i != j ==> (
            #[trigger] self.regions[i]).apart(
                (#[trigger] self.regions[j]).start as int,
                self.regions[j].bytes.len() as int,
            )
    }

    /// Region `i` covers the bytes.
    pub open spec fn is_home(self, addr: int, len: int, i: int) -> bool {
        0 <= i < self.regions.len() && self.regions[i].covers(addr, len)
    }

    /// The bytes can be accessed: there are some, and a region covers them.
    pub open spec fn accessible(self, addr: int, len: int) -> bool {
        addr > 0 && len > 0 && exists|i: int| self.is_home(addr, len, i)
    }

    /// The region that covers the bytes.
    pub open spec fn home(self, addr: int, len: int) -> int {
        choose|i: int| self.is_home(addr, len, i)
    }

    /// The `len` bytes from `addr` on.
    pub open spec fn read(self, addr: int, len: int) -> Seq<u8> {
        let r = self.regions[self.home(addr, len)];
        r.bytes.subrange(addr - r.start, addr - r.start + len)
    }

    /// The pool after `data` was written at `addr`, where that is accessible.
    pub open spec fn written(self, addr: int, data: Seq<u8>) -> MemoryState {
        if self.accessible(addr, data.len() as int) {
            let i = self.home(addr, data.len() as int);
            MemoryState {
                regions: self.regions.update(i, self.regions[i].written(addr, data)),
                ..self
            }
        } else {
            self
        }
    }

    /// The pool with one more region of zeros.
    pub open spec fn allocated(self, start: u64, size: usize) -> MemoryState {
        MemoryState {
            regions: self.regions.push(
                Region { id: self.next_id, start, bytes: Seq::new(size as nat, |i: int| 0u8) },
            ),
            next_id: self.next_id.wrapping_add(1),
        }
    }

    /// Every region has an identifier of its own, which comes before the next one.
    pub open spec fn identifiers_differ(self) -> bool {
        &&& forall|i: int|
            0 <= i < self.regions.len() ==> (#[trigger] self.regions[i]).id < self.next_id
        &&& forall|i: int, j: int|
            0 <= i < j < self.regions.len() ==> (#[trigger] self.regions[i]).id != (
            #[trigger] self.regions[j]).id
    }

    /// `i` is the first region with an identifier.
    pub open spec fn is_first_with(self, id: u64, i: int) -> bool {
        &&& 0 <= i < self.regions.len()
        &&& self.regions[i].id == id
        &&& forall|k: int| 0 <= k < i ==> (#[trigger] self.regions[k]).id != id
    }

    /// The pool after region `i` was freed: the last region takes its place.
    pub open spec fn freed(self, i: int) -> MemoryState {
        MemoryState {
            regions: self.regions.update(i, self.regions.last()).drop_last(),
            ..self
        }
    }
}

/// Identifiers that were given out before are not given out again, whatever is
/// allocated, freed or written in between: every one of them comes before the next one,
/// as long as the counter does not wrap around.
pub proof fn no_identifier_is_given_twice(
    m: MemoryState,
    given: Set<u64>,
    start: u64,
    size: usize,
    i: int,
    addr: int,
    data: Seq<u8>,
)
    requires
        m.next_id < u64::MAX,
        forall|id: u64| #[trigger] given.contains(id) ==> id < m.next_id,
    ensures
        !given.contains(m.next_id),
        forall|id: u64| #[trigger]
            given.insert(m.next_id).contains(id) ==> id < m.allocated(start, size).next_id,
        forall|id: u64| #[trigger] given.contains(id) ==> id < m.freed(i).next_id,
        forall|id: u64| #[trigger] given.contains(id) ==> id < m.written(addr, data).next_id,
{
}

/// Live regions have identifiers of their own, which come before the next one, as long
/// as the counter does not wrap around.
pub proof fn live_identifiers_differ(m: MemoryState, start: u64, size: usize, i: int)
    requires
        m.next_id < u64::MAX,
        m.identifiers_differ(),
        0 <= i < m.regions.len(),
    ensures
        MemoryState::fresh().identifiers_differ(),
        m.allocated(start, size).identifiers_differ(),
        m.freed(i).identifiers_differ(),
{
    let f = m.freed(i);
    assert forall|j: int| 0 <= j < f.regions.len() implies (#[trigger] f.regions[j]).id
        < f.next_id by {
        if j == i {
            assert(f.regions[j] == m.regions[m.regions.len() - 1]);
        } else {
            assert(f.regions[j] == m.regions[j]);
        }
    }
    assert forall|j: int, k: int| 0 <= j < k < f.regions.len() implies (#[trigger] f.regions[j]).id
        != (#[trigger] f.regions[k]).id by {
        let last = m.regions.len() - 1;
        let from = if j == i { last } else { j };
        let to = if k == i { last } else { k };
        assert(f.regions[j] == m.regions[from]);
        assert(f.regions[k] == m.regions[to]);
        if from < to {
            assert(m.regions[from].id != m.regions[to].id);
        } else {
            assert(m.regions[to].id != m.regions[from].id);
        }
    }
}

struct SoftAllocation {
    id: u64,
    start: u64,
    bytes: Vec<u8>,
}

impl View for SoftAllocation {
    type V = Region;

    closed spec fn view(&self) -> Region {
        Region { id: self.id, start: self.start, bytes: self.bytes@ }
    }
}

/// Memory of the software GPU. The host says where an allocation lies; CPU and GPU
/// have the same address for it.
pub struct SoftwareMemoryPool {
    allocations: Vec<SoftAllocation>,
    next_id: u64,
}

impl View for SoftwareMemoryPool {
    type V = MemoryState;

    closed spec fn view(&self) -> MemoryState {
        MemoryState {
            regions: Seq::new(self.allocations@.len(), |i: int| self.allocations@[i]@),
            next_id: self.next_id,
        }
    }
}

impl SoftwareMemoryPool {
    /// The regions are apart from each other.
    pub open spec fn wf(&self) -> bool {
        self@.disjoint()
    }

    /// A pool without allocations.
    pub fn new() -> (p: Self)
        ensures
            p.wf(),
            p@ == MemoryState::fresh(),
    {
        let p = SoftwareMemoryPool { allocations: Vec::new(), next_id: 1 };
        assert(p@ =~= MemoryState::fresh());
        p
    }

    /// Allocates `size` bytes of zeros at the address that the host provides. It fails
    /// for an empty or too large allocation and where the host provides none.
    pub fn allocate(&mut self, size: usize, flags: GpuMemFlags, host: Option<u64>) -> (r: Result<
        GpuAllocation,
        (),
    >)
        requires
            old(self).wf(),
            host matches Some(start) ==> start > 0 && start % 16 == 0 && start + size <= u64::MAX && old(
                self,
            )@.is_free(start as int, size as int),
        ensures
            final(self).wf(),
            r is Ok <==> 0 < size <= max_alloc_size() && host is Some,
            r is Err ==> final(self)@ == old(self)@,
            r matches Ok(a) ==> a.gpu_addr.0 % 16 == 0,
            r matches Ok(a) ==> {
                &&& a == (GpuAllocation {
                    cpu_addr: host.unwrap(),
                    gpu_addr: GpuAddress(host.unwrap()),
                    size,
                    flags,
                    alloc_id: old(self)@.next_id,
                })
                &&& final(self)@ == old(self)@.allocated(host.unwrap(), size)
            },
    {
        if size == 0 || size > isize::MAX as usize - (ALLOC_ALIGN - 1) {
            return Err(());
        }
        match host {
            None => Err(()),
            Some(start) => {
                let mut bytes: Vec<u8> = Vec::with_capacity(size);
                let mut i: usize = 0;
                while i < size
                    invariant
                        i <= size,
                        bytes@ =~= Seq::new(i as nat, |k: int| 0u8),
                    decreases size - i,
                {
                    bytes.push(0);
                    i += 1;
                }
                let id: u64 = self.next_id;
                self.next_id = self.next_id.wrapping_add(1);
                self.allocations.push(SoftAllocation { id, start, bytes });
                assert(self@ =~= old(self)@.allocated(start, size));
                Ok(
                    GpuAllocation {
                        cpu_addr: start,
                        gpu_addr: GpuAddress(start),
                        size,
                        flags,
                        alloc_id: id,
                    },
                )
            },
        }
    }

    /// Frees the allocation with an identifier, if there is one.
    pub fn free(&mut self, alloc_id: u64) -> (r: Result<(), ()>)
        requires
            old(self).wf(),
        ensures
            final(self).wf(),
            r is Ok <==> exists|i: int| old(self)@.is_first_with(alloc_id, i),
            r is Err ==> final(self)@ == old(self)@,
            r is Ok ==> exists|i: int| #[trigger]
                old(self)@.is_first_with(alloc_id, i) && final(self)@ == old(self)@.freed(i),
    {
        let mut i: usize = 0;
        while i < self.allocations.len()
            invariant
                i <= self.allocations.len(),
                *self == *old(self),
                self.wf(),
                forall|k: int| 0 <= k < i ==> (#[trigger] self@.regions[k]).id != alloc_id,
            decreases self.allocations.len() - i,
        {
            assert(self@.regions[i as int] == self.allocations@[i as int]@);
            if self.allocations[i].id == alloc_id {
                assert(self@.is_first_with(alloc_id, i as int));
                self.allocations.swap_remove(i);
                assert(self@ =~= old(self)@.freed(i as int));
                proof {
                    lemma_freed_disjoint(old(self)@, i as int);
                }
                return Ok(());
            }
            i += 1;
        }
        Err(())
    }

    /// The allocation that covers the bytes.
    fn find(&self, addr: GpuAddress, len: usize) -> (r: Option<usize>)
        requires
            self.wf(),
        ensures
            r is Some <==> self@.accessible(addr.0 as int, len as int),
            r matches Some(i) ==> {
                &&& i < self.allocations@.len()
                &&& i == self@.home(addr.0 as int, len as int)
                &&& self@.is_home(addr.0 as int, len as int, i as int)
            },
    {
        if addr.0 == 0 || len == 0 {
            return None;
        }
        let mut i: usize = 0;
        while i < self.allocations.len()
            invariant
                i <= self.allocations.len(),
                self.wf(),
                addr.0 > 0,
                len > 0,
                forall|k: int| 0 <= k < i ==> !#[trigger] self@.is_home(addr.0 as int, len as int, k),
            decreases self.allocations.len() - i,
        {
            assert(self@.regions[i as int] == self.allocations@[i as int]@);
            let start: u64 = self.allocations[i].start;
            let size: u64 = self.allocations[i].bytes.len() as u64;
            if addr.0 >= start && addr.0 - start <= size && len as u64 <= size - (addr.0 - start) {
                proof {
                    assert(self@.is_home(addr.0 as int, len as int, i as int));
                    lemma_home_is_unique(
                        self@,
                        addr.0 as int,
                        len as int,
                        i as int,
                        self@.home(addr.0 as int, len as int),
                    );
                }
                return Some(i);
            }
            assert(!self@.is_home(addr.0 as int, len as int, i as int));
            i += 1;
        }
        None
    }

    /// Whether an allocation covers the bytes.
    pub fn covers(&self, addr: GpuAddress, len: usize) -> (r: bool)
        requires
            self.wf(),
        ensures
            r == self@.accessible(addr.0 as int, len as int),
    {
        self.find(addr, len).is_some()
    }

    /// No allocation has more bytes than an index can count.
    pub proof fn too_much_is_not_accessible(&self, addr: int, len: int)
        requires
            len > usize::MAX,
        ensures
            !self@.accessible(addr, len),
    {
        if self@.accessible(addr, len) {
            let i = self@.home(addr, len);
            assert(self@.is_home(addr, len, i));
            assert(self.allocations@[i].bytes@.len() == self.allocations@[i].bytes.len());
        }
    }

    /// A copy of the bytes from `addr` on, if an allocation covers them.
    pub fn get_slice(&self, addr: GpuAddress, len: usize) -> (r: Option<Vec<u8>>)
        requires
            self.wf(),
        ensures
            r is Some <==> self@.accessible(addr.0 as int, len as int),
            r matches Some(v) ==> v@ == self@.read(addr.0 as int, len as int),
    {
        match self.find(addr, len) {
            None => None,
            Some(i) => {
                assert(self@.regions[i as int] == self.allocations@[i as int]@);
                let size: usize = self.allocations[i].bytes.len();
                let base: usize = (addr.0 - self.allocations[i].start) as usize;
                let mut v: Vec<u8> = Vec::with_capacity(len);
                let mut j: usize = 0;
                while j < len
                    invariant
                        j <= len,
                        i < self.allocations@.len(),
                        size == self.allocations@[i as int].bytes@.len(),
                        base + len <= size,
                        v@ =~= self.allocations@[i as int].bytes@.subrange(
                            base as int,
                            base + j,
                        ),
                    decreases len - j,
                {
                    v.push(self.allocations[i].bytes[base + j]);
                    j += 1;
                }
                Some(v)
            },
        }
    }

    /// Writes bytes at `addr`, if an allocation covers them. Whether it does.
    pub fn write_slice(&mut self, addr: GpuAddress, data: &[u8]) -> (r: bool)
        requires
            old(self).wf(),
        ensures
            final(self).wf(),
            r == old(self)@.accessible(addr.0 as int, data@.len() as int),
            final(self)@ == old(self)@.written(addr.0 as int, data@),
    {
        match self.find(addr, data.len()) {
            None => false,
            Some(i) => {
                let ghost before = self.allocations@[i as int];
                assert(self@.regions[i as int] == before@);
                let size: usize = self.allocations[i].bytes.len();
                let base: usize = (addr.0 - self.allocations[i].start) as usize;
                let mut j: usize = 0;
                while j < data.len()
                    invariant
                        j <= data.len(),
                        i < old(self).allocations@.len(),
                        before == old(self).allocations@[i as int],
                        size == before.bytes@.len(),
                        base + data@.len() <= size,
                        self.next_id == old(self).next_id,
                        self.allocations@.len() == old(self).allocations@.len(),
                        forall|k: int|
                            0 <= k < self.allocations@.len() && k != i ==> #[trigger] self.allocations@[k]
                                == old(self).allocations@[k],
                        self.allocations@[i as int].id == before.id,
                        self.allocations@[i as int].start == before.start,
                        self.allocations@[i as int].bytes@.len() == before.bytes@.len(),
                        forall|k: int|
                            0 <= k < before.bytes@.len()
                                ==> #[trigger] self.allocations@[i as int].bytes@[k] == if base <= k
                                < base + j {
                                data@[k - base]
                            } else {
                                before.bytes@[k]
                            },
                    decreases data.len() - j,
                {
                    let b: u8 = data[j];
                    self.allocations[i].bytes[base + j] = b;
                    j += 1;
                }
                proof {
                    let old_state = old(self)@;
                    let region = old_state.regions[i as int].written(addr.0 as int, data@);
                    assert(self.allocations@[i as int]@ =~= region);
                    assert(self@ =~= old_state.written(addr.0 as int, data@));
                    lemma_written_disjoint(old_state, addr.0 as int, data@);
                }
                true
            },
        }
    }
}

/// Only one region covers the bytes.
proof fn lemma_home_is_unique(m: MemoryState, addr: int, len: int, a: int, b: int)
    requires
        m.disjoint(),
        len > 0,
        m.is_home(addr, len, a),
        m.is_home(addr, len, b),
    ensures
        a == b,
{
    if a != b {
        assert(m.regions[a].apart(m.regions[b].start as int, m.regions[b].bytes.len() as int));
    }
}

/// Freeing a region keeps the others apart.
proof fn lemma_freed_disjoint(m: MemoryState, i: int)
    requires
        m.disjoint(),
        0 <= i < m.regions.len(),
    ensures
        m.freed(i).disjoint(),
{
    let f = m.freed(i);
    let last = m.regions.len() - 1;
    assert forall|a: int, b: int|
        0 <= a < f.regions.len() && 0 <= b < f.regions.len() && a != b implies (
    #[trigger] f.regions[a]).apart(
        (#[trigger] f.regions[b]).start as int,
        f.regions[b].bytes.len() as int,
    ) by {
        let x = if a == i {
            last
        } else {
            a
        };
        let y = if b == i {
            last
        } else {
            b
        };
        assert(m.regions[x].apart(m.regions[y].start as int, m.regions[y].bytes.len() as int));
    }
    assert forall|a: int| 0 <= a < f.regions.len() implies {
        &&& (#[trigger] f.regions[a]).bytes.len() > 0
        &&& f.regions[a].start > 0
        &&& f.regions[a].start + f.regions[a].bytes.len() <= u64::MAX
    } by {
        let x = if a == i {
            last
        } else {
            a
        };
        assert(m.regions[x].bytes.len() > 0);
    }
}

/// Writing keeps the regions where they are.
proof fn lemma_written_disjoint(m: MemoryState, addr: int, data: Seq<u8>)
    requires
        m.disjoint(),
    ensures
        m.written(addr, data).disjoint(),
{
    if m.accessible(addr, data.len() as int) {
        let i = m.home(addr, data.len() as int);
        let w = m.written(addr, data);
        assert forall|a: int, b: int|
            0 <= a < w.regions.len() && 0 <= b < w.regions.len() && a != b implies (
        #[trigger] w.regions[a]).apart(
            (#[trigger] w.regions[b]).start as int,
            w.regions[b].bytes.len() as int,
        ) by {
            assert(m.regions[a].apart(m.regions[b].start as int, m.regions[b].bytes.len() as int));
        }
        assert forall|a: int| 0 <= a < w.regions.len() implies {
            &&& (#[trigger] w.regions[a]).bytes.len() > 0
            &&& w.regions[a].start > 0
            &&& w.regions[a].start + w.regions[a].bytes.len() <= u64::MAX
        } by {
            assert(m.regions[a].bytes.len() > 0);
        }
    }
}

/// A read gives back what was written.
pub proof fn read_gives_back_the_write(m: MemoryState, addr: int, data: Seq<u8>)
    requires
        m.disjoint(),
        m.accessible(addr, data.len() as int),
    ensures
        m.written(addr, data).accessible(addr, data.len() as int),
        m.written(addr, data).read(addr, data.len() as int) == data,
{
    let n = data.len() as int;
    let i = m.home(addr, n);
    assert(m.is_home(addr, n, i));
    let w = m.written(addr, data);
    assert(w.is_home(addr, n, i));
    lemma_written_disjoint(m, addr, data);
    lemma_home_is_unique(w, addr, n, i, w.home(addr, n));
    assert(w.read(addr, n) =~= data);
}

/// A write leaves all other bytes as they were.
pub proof fn write_leaves_other_bytes(
    m: MemoryState,
    addr: int,
    data: Seq<u8>,
    other: int,
    len: int,
)
    requires
        m.disjoint(),
        m.accessible(other, len),
        other + len <= addr || addr + data.len() <= other,
    ensures
        m.written(addr, data).accessible(other, len),
        m.written(addr, data).read(other, len) == m.read(other, len),
{
    let j = m.home(other, len);
    assert(m.is_home(other, len, j));
    let w = m.written(addr, data);
    if m.accessible(addr, data.len() as int) {
        assert(w.is_home(other, len, j));
        lemma_written_disjoint(m, addr, data);
        lemma_home_is_unique(w, other, len, j, w.home(other, len));
        assert(w.read(other, len) =~= m.read(other, len));
    }
}

/// A new allocation reads as zeros.
pub proof fn new_allocation_is_zero(m: MemoryState, start: u64, size: usize)
    requires
        m.disjoint(),
        m.is_free(start as int, size as int),
        start > 0,
        size > 0,
        start + size <= u64::MAX,
    ensures
        m.allocated(start, size).disjoint(),
        m.allocated(start, size).accessible(start as int, size as int),
        m.allocated(start, size).read(start as int, size as int) == Seq::new(
            size as nat,
            |i: int| 0u8,
        ),
{
    let w = m.allocated(start, size);
    let n = m.regions.len() as int;
    assert forall|a: int, b: int|
        0 <= a < w.regions.len() && 0 <= b < w.regions.len() && a != b implies (
    #[trigger] w.regions[a]).apart(
        (#[trigger] w.regions[b]).start as int,
        w.regions[b].bytes.len() as int,
    ) by {
        if a < n && b < n {
            assert(m.regions[a].apart(m.regions[b].start as int, m.regions[b].bytes.len() as int));
        } else if a < n {
            assert(m.regions[a].apart(start as int, size as int));
        } else {
            assert(m.regions[b].apart(start as int, size as int));
        }
    }
    assert(w.is_home(start as int, size as int, n));
    lemma_home_is_unique(
        w,
        start as int,
        size as int,
        n,
        w.home(start as int, size as int),
    );
    assert(w.read(start as int, size as int) =~= Seq::new(size as nat, |i: int| 0u8));
}

/// What is read is what the region that covers it holds, byte by byte.
pub proof fn read_gives_the_bytes_of_a_region(m: MemoryState, i: int, addr: int, len: int, k: int)
    requires
        m.disjoint(),
        0 <= i < m.regions.len(),
        m.regions[i].start <= addr,
        addr + len <= m.regions[i].start + m.regions[i].bytes.len(),
        0 <= k < len,
    ensures
        m.accessible(addr, len),
        m.read(addr, len).len() == len,
        m.read(addr, len)[k] == m.regions[i].bytes[addr - m.regions[i].start + k],
{
    assert(m.is_home(addr, len, i));
    lemma_home_is_unique(m, addr, len, i, m.home(addr, len));
}

/// No access reaches past the end of a region, touches the address zero or is empty. A write
/// that cannot be made changes nothing.
pub proof fn access_stays_in_a_region(m: MemoryState, addr: int, data: Seq<u8>)
    ensures
        m.accessible(addr, data.len() as int) ==> addr > 0 && data.len() > 0 && exists|i: int|
            0 <= i < m.regions.len() && (#[trigger] m.regions[i]).start <= addr && addr + data.len()
                <= m.regions[i].start + m.regions[i].bytes.len(),
        !m.accessible(addr, data.len() as int) ==> m.written(addr, data) == m,
{
    if m.accessible(addr, data.len() as int) {
        let i = m.home(addr, data.len() as int);
        assert(m.is_home(addr, data.len() as int, i));
        assert(m.regions[i].start <= addr);
    }
}

/// Freed memory cannot be reached any more, and all other memory can, with the bytes that it
/// held.
pub proof fn freed_memory_is_gone(m: MemoryState, i: int, addr: int, len: int)
    requires
        m.disjoint(),
        0 <= i < m.regions.len(),
        len > 0,
    ensures
        m.freed(i).regions.len() == m.regions.len() - 1,
        m.freed(i).next_id == m.next_id,
        m.regions[i].start <= addr < m.regions[i].start + m.regions[i].bytes.len()
            ==> !m.freed(i).accessible(addr, len),
        m.accessible(addr, len) && !m.is_home(addr, len, i) ==> m.freed(i).accessible(addr, len)
            && m.freed(i).read(addr, len) == m.read(addr, len),
{
    let f = m.freed(i);
    let last = m.regions.len() - 1;
    lemma_freed_disjoint(m, i);
    if m.regions[i].start <= addr < m.regions[i].start + m.regions[i].bytes.len() {
        assert forall|j: int| !f.is_home(addr, len, j) by {
            if f.is_home(addr, len, j) {
                let o = if j == i {
                    last
                } else {
                    j
                };
                assert(f.regions[j] == m.regions[o]);
                assert(m.regions[i].apart(m.regions[o].start as int, m.regions[o].bytes.len() as int));
            }
        }
    }
    if m.accessible(addr, len) && !m.is_home(addr, len, i) {
        let h = m.home(addr, len);
        assert(m.is_home(addr, len, h));
        let o = if h == last {
            i
        } else {
            h
        };
        assert(f.regions[o] == m.regions[h]);
        assert(f.is_home(addr, len, o));
        lemma_home_is_unique(f, addr, len, o, f.home(addr, len));
    }
}

/// Each new region gets the next number, and a region may have any size from one byte to
/// what leaves 15 bytes to align it.
pub proof fn regions_are_numbered_from_one(m: MemoryState, start: u64, size: usize)
    requires
        m.next_id < u64::MAX,
    ensures
        MemoryState::fresh().next_id == 1,
        MemoryState::fresh().regions.len() == 0,
        m.allocated(start, size).next_id == m.next_id + 1,
        m.allocated(start, size).regions.drop_last() == m.regions,
        m.allocated(start, size).regions.last().id == m.next_id,
        m.allocated(start, size).regions.last().start == start,
        m.allocated(start, size).regions.last().bytes.len() == size,
        max_alloc_size() == isize::MAX - 15,
{
    assert(m.allocated(start, size).regions.drop_last() =~= m.regions);
}

} // verus!
