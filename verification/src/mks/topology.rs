//! CPU topology, for cache-aware work stealing and NUMA-aware placement.

use vstd::prelude::*;

verus! {

/// Cache and NUMA relationship between two CPUs, from close to far.
#[derive(Clone, Copy, Debug, PartialEq, Eq, PartialOrd, Ord, Structural)]
pub enum CacheDistance {
    /// Hyperthreading sibling.
    HyperThread,
    /// Same physical core.
    SameCore,
    /// Different core with the same last-level cache.
    SameL3,
    /// No shared cache.
    CrossNuma,
}

impl CacheDistance {
    /// Position in the order from close to far.
    pub open spec fn rank(self) -> int {
        match self {
            CacheDistance::HyperThread => 0,
            CacheDistance::SameCore => 1,
            CacheDistance::SameL3 => 2,
            CacheDistance::CrossNuma => 3,
        }
    }

    fn level(self) -> (r: u8)
        ensures
            r == self.rank(),
    {
        match self {
            CacheDistance::HyperThread => 0,
            CacheDistance::SameCore => 1,
            CacheDistance::SameL3 => 2,
            CacheDistance::CrossNuma => 3,
        }
    }
}

/// Topology of one CPU.
#[derive(Clone, Copy, Debug, PartialEq, Eq, Structural)]
pub struct CpuInfo {
    /// Logical CPU identifier.
    pub logical_id: usize,
    /// Physical core identifier.
    pub core_id: u32,
    /// Socket identifier.
    pub package_id: u32,
    /// NUMA node.
    pub numa_node: usize,
    /// Last-level cache group.
    pub l3_group: u32,
}

impl CpuInfo {
    /// A CPU of which nothing but the identifier is known.
    pub fn unknown(logical_id: usize) -> (r: Self)
        ensures
            r == (CpuInfo {
                logical_id,
                core_id: logical_id as u32,
                package_id: 0,
                numa_node: 0,
                l3_group: 0,
            }),
    {
        CpuInfo {
            logical_id,
            core_id: #[verifier::truncate] (logical_id as u32),
            package_id: 0,
            numa_node: 0,
            l3_group: 0,
        }
    }
}

/// Cache distance between two CPUs.
pub open spec fn cache_distance(a: CpuInfo, b: CpuInfo) -> CacheDistance {
    if a.numa_node != b.numa_node || a.l3_group != b.l3_group {
        CacheDistance::CrossNuma
    } else if a.core_id != b.core_id {
        CacheDistance::SameL3
    } else {
        CacheDistance::HyperThread
    }
}

/// How far a CPU is from another for stealing: by cache distance, and among CPUs
/// that share no cache those of the same NUMA node are closer.
pub open spec fn steal_distance(a: CpuInfo, b: CpuInfo) -> int {
    cache_distance(a, b).rank() * 2 + if a.numa_node == b.numa_node {
        0int
    } else {
        1
    }
}

/// CPU `a` comes before CPU `b` in the steal order of CPU `me`: it is closer,
/// or as close with a smaller number.
pub open spec fn steals_before(cpus: Seq<CpuInfo>, me: int, a: int, b: int) -> bool {
    let da = steal_distance(cpus[me], cpus[a]);
    let db = steal_distance(cpus[me], cpus[b]);
    da < db || (da == db && a < b)
}

/// `order` lists every CPU but `me`, once, from close to far.
pub open spec fn is_steal_order(cpus: Seq<CpuInfo>, me: int, order: Seq<usize>) -> bool {
    &&& forall|i: int|
        0 <= i < order.len() ==> (#[trigger] order[i]) < cpus.len() && order[i] != me
    &&& forall|i: int, j: int|
        0 <= i < j < order.len() ==> steals_before(
            cpus,
            me,
            (#[trigger] order[i]) as int,
            (#[trigger] order[j]) as int,
        )
    &&& forall|c: int|
        0 <= c < cpus.len() && c != me ==> #[trigger] order.contains(c as usize)
}

/// The CPU topology of the system.
pub struct CpuTopology {
    cpus: Vec<CpuInfo>,
    steal_orders: Vec<Vec<usize>>,
}

impl CpuTopology {
    /// The CPUs in this topology.
    pub closed spec fn cpus(self) -> Seq<CpuInfo> {
        self.cpus@
    }

    /// The order in which CPU `me` looks at the others.
    pub closed spec fn order(self, me: int) -> Seq<usize> {
        self.steal_orders@[me]@
    }

    /// There is one steal order for each CPU.
    pub closed spec fn wf(self) -> bool {
        &&& self.steal_orders@.len() == self.cpus@.len()
        &&& forall|me: int|
            0 <= me < self.cpus@.len() ==> is_steal_order(
                self.cpus@,
                me,
                (#[trigger] self.steal_orders@[me])@,
            )
    }

    /// Every steal order lists the other CPUs, once each, from close to far.
    pub proof fn steal_order_is_complete(self, me: int)
        requires
            self.wf(),
            0 <= me < self.cpus().len(),
        ensures
            is_steal_order(self.cpus(), me, self.order(me)),
    {
        assert(self.steal_orders@[me]@ == self.order(me));
    }

    /// Builds the topology from what is known of each CPU.
    pub fn from_cpus(cpus: Vec<CpuInfo>) -> (t: Self)
        ensures
            t.wf(),
            t.cpus() == cpus@,
    {
        let num: usize = cpus.len();
        let mut steal_orders: Vec<Vec<usize>> = Vec::new();
        let mut me: usize = 0;
        while me < num
            invariant
                num == cpus@.len(),
                me <= num,
                steal_orders@.len() == me,
                forall|x: int|
                    0 <= x < me ==> is_steal_order(cpus@, x, (#[trigger] steal_orders@[x])@),
            decreases num - me,
        {
            let order = Self::order_for(&cpus, me);
            steal_orders.push(order);
            me += 1;
        }
        CpuTopology { cpus, steal_orders }
    }

    /// Sorts all other CPUs by their distance from `me`.
    fn order_for(cpus: &Vec<CpuInfo>, me: usize) -> (order: Vec<usize>)
        requires
            me < cpus@.len(),
        ensures
            is_steal_order(cpus@, me as int, order@),
    {
        let num: usize = cpus.len();
        let mut order: Vec<usize> = Vec::new();
        let mut other: usize = 0;
        while other < num
            invariant
                num == cpus@.len(),
                me < num,
                other <= num,
                forall|i: int|
                    0 <= i < order@.len() ==> (#[trigger] order@[i]) < other && order@[i] != me,
                forall|i: int, j: int|
                    0 <= i < j < order@.len() ==> steals_before(
                        cpus@,
                        me as int,
                        (#[trigger] order@[i]) as int,
                        (#[trigger] order@[j]) as int,
                    ),
                forall|c: int|
                    0 <= c < other && c != me ==> #[trigger] order@.contains(c as usize),
            decreases num - other,
        {
            if other != me {
                let d: u8 = Self::steal_level(&cpus[me], &cpus[other]);
                let mut at: usize = 0;
                while at < order.len() && Self::steal_level(&cpus[me], &cpus[order[at]]) <= d
                    invariant
                        num == cpus@.len(),
                        me < num,
                        other < num,
                        at <= order@.len(),
                        d == steal_distance(cpus@[me as int], cpus@[other as int]),
                        forall|i: int|
                            0 <= i < order@.len() ==> (#[trigger] order@[i]) < other,
                        forall|i: int|
                            0 <= i < at ==> steals_before(
                                cpus@,
                                me as int,
                                (#[trigger] order@[i]) as int,
                                other as int,
                            ),
                    decreases order@.len() - at,
                {
                    at += 1;
                }
                let ghost before = order@;
                proof {
                    if at < before.len() {
                        assert(steal_distance(
                            cpus@[me as int],
                            cpus@[before[at as int] as int],
                        ) > d);
                        assert forall|i: int| at <= i < before.len() implies steals_before(
                            cpus@,
                            me as int,
                            other as int,
                            (#[trigger] before[i]) as int,
                        ) by {
                            if i > at {
                                assert(steals_before(
                                    cpus@,
                                    me as int,
                                    before[at as int] as int,
                                    before[i] as int,
                                ));
                            }
                        }
                    }
                }
                order.insert(at, other);
                proof {
                    assert forall|i: int, j: int| 0 <= i < j < order@.len() implies steals_before(
                        cpus@,
                        me as int,
                        (#[trigger] order@[i]) as int,
                        (#[trigger] order@[j]) as int,
                    ) by {
                        let oi = if i < at { before[i] } else if i == at { other } else { before[i - 1] };
                        let oj = if j < at { before[j] } else if j == at { other } else { before[j - 1] };
                        assert(order@[i] == oi && order@[j] == oj);
                    }
                    assert forall|c: int| 0 <= c < other + 1 && c != me implies #[trigger]
                        order@.contains(c as usize) by {
                        if c == other {
                            assert(order@[at as int] == c as usize);
                        } else {
                            assert(before.contains(c as usize));
                            let x = choose|x: int| 0 <= x < before.len() && before[x] == c as usize;
                            if x < at {
                                assert(order@[x] == c as usize);
                            } else {
                                assert(order@[x + 1] == c as usize);
                            }
                        }
                    }
                }
            }
            other += 1;
        }
        order
    }

    /// A single-socket topology with two hyperthreads per core.
    pub fn uniform(num_cpus: usize) -> (t: Self)
        ensures
            t.wf(),
            t.cpus() == Seq::new(
                num_cpus as nat,
                |i: int|
                    CpuInfo {
                        logical_id: i as usize,
                        core_id: (i / 2) as u32,
                        package_id: 0,
                        numa_node: 0,
                        l3_group: 0,
                    },
            ),
    {
        let mut cpus: Vec<CpuInfo> = Vec::new();
        let mut i: usize = 0;
        while i < num_cpus
            invariant
                i <= num_cpus,
                cpus@.len() == i,
                forall|x: int|
                    0 <= x < i ==> (#[trigger] cpus@[x]) == (CpuInfo {
                        logical_id: x as usize,
                        core_id: (x / 2) as u32,
                        package_id: 0,
                        numa_node: 0,
                        l3_group: 0,
                    }),
            decreases num_cpus - i,
        {
            cpus.push(
                CpuInfo {
                    logical_id: i,
                    core_id: #[verifier::truncate] ((i / 2) as u32),
                    package_id: 0,
                    numa_node: 0,
                    l3_group: 0,
                },
            );
            i += 1;
        }
        assert(cpus@ =~= Seq::new(
            num_cpus as nat,
            |i: int|
                CpuInfo {
                    logical_id: i as usize,
                    core_id: (i / 2) as u32,
                    package_id: 0,
                    numa_node: 0,
                    l3_group: 0,
                },
        ));
        Self::from_cpus(cpus)
    }

    /// NUMA node of a CPU; unknown CPUs count as node 0.
    pub open spec fn numa_of(self, cpu: int) -> usize {
        if 0 <= cpu < self.cpus().len() {
            self.cpus()[cpu].numa_node
        } else {
            0
        }
    }

    /// Looks up the NUMA node of a CPU.
    pub fn cpu_to_numa(&self, cpu: usize) -> (r: usize)
        ensures
            r == self.numa_of(cpu as int),
    {
        if cpu < self.cpus.len() {
            self.cpus[cpu].numa_node
        } else {
            0
        }
    }

    /// The CPUs to look at when CPU `cpu_id` steals, from close to far.
    pub fn steal_order(&self, cpu_id: usize) -> (r: &[usize])
        requires
            self.wf(),
        ensures
            cpu_id < self.cpus().len() ==> r@ == self.order(cpu_id as int),
            cpu_id >= self.cpus().len() ==> r@.len() == 0,
    {
        if cpu_id < self.steal_orders.len() {
            self.steal_orders[cpu_id].as_slice()
        } else {
            &[]
        }
    }

    /// The CPUs of a NUMA node, in the order of the topology.
    pub fn cpus_in_numa(&self, node: usize) -> (r: Vec<usize>)
        ensures
            r@ == self.cpus().filter(|c: CpuInfo| c.numa_node == node).map_values(
                |c: CpuInfo| c.logical_id,
            ),
    {
        let ghost pred = |c: CpuInfo| c.numa_node == node;
        let ghost pick = |c: CpuInfo| c.logical_id;
        let mut r: Vec<usize> = Vec::new();
        let mut i: usize = 0;
        assert(self.cpus@.take(0).filter(pred).map_values(pick) =~= Seq::empty()) by {
            reveal(Seq::filter);
        }
        while i < self.cpus.len()
            invariant
                i <= self.cpus@.len(),
                pred == (|c: CpuInfo| c.numa_node == node),
                pick == (|c: CpuInfo| c.logical_id),
                r@ == self.cpus@.take(i as int).filter(pred).map_values(pick),
            decreases self.cpus@.len() - i,
        {
            proof {
                reveal(Seq::filter);
                let longer = self.cpus@.take(i + 1);
                assert(longer.drop_last() =~= self.cpus@.take(i as int));
                assert(longer.last() == self.cpus@[i as int]);
            }
            if self.cpus[i].numa_node == node {
                r.push(self.cpus[i].logical_id);
            }
            proof {
                assert(r@ =~= self.cpus@.take(i + 1).filter(pred).map_values(pick));
            }
            i += 1;
        }
        assert(self.cpus@.take(self.cpus@.len() as int) =~= self.cpus@);
        r
    }

    /// Computes how far a CPU is from another for stealing.
    fn steal_level(a: &CpuInfo, b: &CpuInfo) -> (r: u8)
        ensures
            r == steal_distance(*a, *b),
    {
        let remote: u8 = if a.numa_node == b.numa_node {
            0
        } else {
            1
        };
        Self::distance(a, b).level() * 2 + remote
    }

    /// Cache distance between two CPUs.
    fn distance(a: &CpuInfo, b: &CpuInfo) -> (r: CacheDistance)
        ensures
            r == cache_distance(*a, *b),
    {
        if a.numa_node != b.numa_node {
            return CacheDistance::CrossNuma;
        }
        if a.l3_group != b.l3_group {
            return CacheDistance::CrossNuma;
        }
        if a.core_id != b.core_id {
            return CacheDistance::SameL3;
        }
        CacheDistance::HyperThread
    }
}

/// CPUs of the own NUMA node are looked at before those of any other node.
pub proof fn own_node_comes_first(t: CpuTopology, me: int, near: int, far: int)
    requires
        t.wf(),
        0 <= me < t.cpus().len(),
        0 <= near < t.order(me).len(),
        0 <= far < t.order(me).len(),
        t.cpus()[t.order(me)[near] as int].numa_node == t.cpus()[me].numa_node,
        t.cpus()[t.order(me)[far] as int].numa_node != t.cpus()[me].numa_node,
    ensures
        near < far,
{
    t.steal_order_is_complete(me);
    if far <= near {
        assert(far != near);
        assert(steals_before(
            t.cpus(),
            me,
            t.order(me)[far] as int,
            t.order(me)[near] as int,
        ));
    }
}

/// The distance between two CPUs does not depend on which of them asks.
pub proof fn distance_is_symmetric(a: CpuInfo, b: CpuInfo)
    ensures
        cache_distance(a, b) == cache_distance(b, a),
{
}

/// A CPU steals from the other threads of its own core first, then from CPUs that share its
/// last-level cache, then from others of its NUMA node, and last from other nodes.
pub proof fn nearer_caches_come_first(t: CpuTopology, me: int, near: int, far: int)
    requires
        t.wf(),
        0 <= me < t.cpus().len(),
        0 <= near < t.order(me).len(),
        0 <= far < t.order(me).len(),
        ({
            let m = t.cpus()[me];
            let n = t.cpus()[t.order(me)[near] as int];
            let f = t.cpus()[t.order(me)[far] as int];
            let n_cache = n.numa_node == m.numa_node && n.l3_group == m.l3_group;
            let f_cache = f.numa_node == m.numa_node && f.l3_group == m.l3_group;
            ||| n_cache && n.core_id == m.core_id && !(f_cache && f.core_id == m.core_id)
            ||| n_cache && !f_cache
            ||| n.numa_node == m.numa_node && f.numa_node != m.numa_node
        }),
    ensures
        near < far,
{
    let o = t.order(me);
    t.steal_order_is_complete(me);
    if far < near {
        assert(steals_before(t.cpus(), me, o[far] as int, o[near] as int));
    }
}

/// Every other CPU stands in the steal order, once, and the CPU itself does not.
pub proof fn steal_order_names_each_other_cpu_once(t: CpuTopology, me: int, i: int, j: int, c: int)
    requires
        t.wf(),
        0 <= me < t.cpus().len(),
        0 <= i < j < t.order(me).len(),
        0 <= c < t.cpus().len(),
        c != me,
    ensures
        t.order(me)[i] != t.order(me)[j],
        t.order(me)[i] != me,
        t.order(me)[i] < t.cpus().len(),
        t.order(me).contains(c as usize),
{
    let o = t.order(me);
    t.steal_order_is_complete(me);
    assert(steals_before(t.cpus(), me, o[i] as int, o[j] as int));
}

} // verus!
