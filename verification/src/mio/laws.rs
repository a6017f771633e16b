//! What holds across the operations of the I/O subsystem.

use crate::mio;
use crate::mio::ops;
use crate::mio::ring;
use crate::mio::sqe::SubmissionEntry;
use crate::mio::{InstanceState, MioError, MioParams, MioState};
use crate::mio::{MAX_CQ_DEPTH, MAX_INSTANCES, MAX_SQ_DEPTH};
use vstd::prelude::*;

verus! {

/// Replacing a slot changes the number of instances by the difference.
proof fn lemma_occupied_update(
    slots: Seq<Option<InstanceState>>,
    i: int,
    slot: Option<InstanceState>,
)
    requires
        0 <= i < slots.len(),
    ensures
        mio::occupied(slots.update(i, slot)) == mio::occupied(slots) - (if slots[i] is Some {
            1int
        } else {
            0
        }) + (if slot is Some {
            1int
        } else {
            0
        }),
    decreases slots.len(),
{
    let u = slots.update(i, slot);
    if i == slots.len() - 1 {
        assert(u.drop_last() =~= slots.drop_last());
    } else {
        assert(u.drop_last() =~= slots.drop_last().update(i, slot));
        lemma_occupied_update(slots.drop_last(), i, slot);
    }
}

/// There are no more instances than slots.
proof fn lemma_occupied_bound(slots: Seq<Option<InstanceState>>)
    ensures
        0 <= mio::occupied(slots) <= slots.len(),
    decreases slots.len(),
{
    if slots.len() > 0 {
        lemma_occupied_bound(slots.drop_last());
    }
}

/// An occupied slot is counted.
proof fn lemma_occupied_positive(slots: Seq<Option<InstanceState>>, i: int)
    requires
        0 <= i < slots.len(),
        slots[i] is Some,
    ensures
        mio::occupied(slots) >= 1,
{
    lemma_occupied_update(slots, i, None);
    lemma_occupied_bound(slots.update(i, None));
}

/// A new instance gets an identifier that no other has, and the subsystem stays
/// consistent, as long as the identifiers do not wrap around.
pub proof fn setup_gives_a_fresh_identifier(m: MioState, p: MioParams)
    requires
        m.consistent(),
        m.next_id < u32::MAX,
        m.next_slot() is Some,
    ensures
        forall|i: int| 0 <= i < m.slots.len() ==> !mio::holds_id(#[trigger] m.slots[i], m.next_id),
        m.set_up(m.next_slot().unwrap(), InstanceState::fresh(m.next_id, p)).consistent(),
        mio::is_first_active(
            m.set_up(m.next_slot().unwrap(), InstanceState::fresh(m.next_id, p)).slots,
            m.next_id,
            m.next_slot().unwrap(),
        ),
{
    let i = m.next_slot().unwrap();
    let inst = InstanceState::fresh(m.next_id, p);
    let after = m.set_up(i, inst);
    lemma_occupied_bound(m.slots);
    if exists|i: int| mio::is_first_empty(m.slots, i) {
        assert(mio::is_first_empty(m.slots, i));
        lemma_occupied_update(m.slots, i, Some(inst));
    } else {
        assert(after.slots.drop_last() =~= m.slots);
    }
}

/// Setting up fails only while the maximum number of instances exists.
pub proof fn setup_fails_only_when_full(m: MioState)
    requires
        m.consistent(),
        m.next_slot() is None,
    ensures
        m.active == MAX_INSTANCES,
{
    lemma_no_empty_slot(m.slots, m.slots.len() as int);
}

/// Without an empty slot all slots are occupied.
proof fn lemma_no_empty_slot(slots: Seq<Option<InstanceState>>, n: int)
    requires
        0 <= n <= slots.len(),
        forall|i: int| !mio::is_first_empty(slots, i),
    ensures
        mio::occupied(slots.take(n)) == n,
        forall|k: int| 0 <= k < n ==> #[trigger] slots[k] is Some,
        n == slots.len() ==> mio::occupied(slots) == n,
    decreases n,
{
    if n > 0 {
        lemma_no_empty_slot(slots, n - 1);
        assert(slots.take(n).drop_last() =~= slots.take(n - 1));
        assert(!mio::is_first_empty(slots, n - 1));
    }
    if n == slots.len() {
        assert(slots.take(n) =~= slots);
    }
}

/// An instance that was torn down cannot be found any more, and the subsystem
/// stays consistent.
pub proof fn teardown_removes_the_instance(m: MioState, id: u32, i: int)
    requires
        m.consistent(),
        mio::is_first_with(m.slots, id, i),
    ensures
        m.torn_down(i).consistent(),
        forall|k: int| 0 <= k < m.slots.len() ==> !mio::holds_id(#[trigger] m.torn_down(i).slots[k], id),
        forall|k: int| !mio::is_first_active(m.torn_down(i).slots, id, k),
{
    lemma_occupied_update(m.slots, i, None);
    lemma_occupied_positive(m.slots, i);
    let after = m.torn_down(i);
    assert forall|k: int| 0 <= k < m.slots.len() implies !mio::holds_id(#[trigger] after.slots[k], id) by {
        if k != i && after.slots[k] is Some {
            if k < i {
                assert(m.slots[k].unwrap().id != m.slots[i].unwrap().id);
            } else {
                assert(m.slots[i].unwrap().id != m.slots[k].unwrap().id);
            }
        }
    }
}

/// Submissions complete in their order: with room in the completion queue, each
/// submission has its completion behind those that were there before.
pub proof fn submissions_complete_in_order(s: InstanceState)
    requires
        s.sq.ready.len() == 0,
        s.sq.pending.len() <= s.cq.free(),
    ensures
        s.submitted().cq.ready == s.cq.ready + mio::completions_of(s.sq.pending),
        s.submitted().cq.overflow == s.cq.overflow,
        s.submitted().sq.used() == 0,
        forall|i: int|
            0 <= i < s.sq.pending.len() ==> #[trigger] mio::completions_of(s.sq.pending)[i].user_data
                == s.sq.pending[i].user_data,
{
    let n = s.sq.pending.len() as int;
    assert((s.sq.ready + s.sq.pending).take(n) =~= s.sq.pending);
    let c = mio::completions_of(s.sq.pending);
    assert(c.take(n) =~= c);
    assert(s.submitted().cq.ready =~= s.cq.ready + c);
}

/// The failure of a submission that is linked to the next cancels the next, which in
/// turn cancels those that it is linked to.
pub proof fn failed_link_cancels_the_chain(subs: Seq<SubmissionEntry>, i: int)
    requires
        0 <= i < subs.len() - 1,
        mio::is_linked(subs[i]),
        mio::is_cancelled(subs, i) || mio::breaks_chain(subs[i]),
    ensures
        mio::completions_of(subs)[i + 1].result == MioError::Cancelled.code(),
        mio::is_cancelled(subs, i + 1),
{
}

/// A submission runs where the one before it is not linked to it, was run and
/// succeeded, or was run and has a hard link to it.
pub proof fn unbroken_submission_runs(subs: Seq<SubmissionEntry>, i: int)
    requires
        0 <= i < subs.len(),
        i == 0 || !mio::is_linked(subs[i - 1]) || (!mio::is_cancelled(subs, i - 1)
            && !mio::breaks_chain(subs[i - 1])),
    ensures
        mio::completions_of(subs)[i].result == ops::op_result(subs[i]),
{
}

/// A completion that finds no room is dropped and counted.
pub proof fn overflow_counts_dropped_completions(s: InstanceState)
    requires
        s.sq.ready.len() == 0,
        0 <= s.cq.free() <= s.sq.pending.len(),
        s.cq.overflow + s.sq.pending.len() <= u32::MAX,
    ensures
        s.submitted().cq.overflow == s.cq.overflow + s.sq.pending.len() - s.cq.free(),
        s.submitted().cq.free() == 0,
{
    assert((s.sq.ready + s.sq.pending).take(s.sq.pending.len() as int) =~= s.sq.pending);
}

/// The completion queue is at least as deep as the submission queue unless the
/// caller asks for less, so that one full round of submissions finds room.
pub proof fn completions_of_one_round_fit(p: MioParams)
    requires
        p.cq_depth == 0,
    ensures
        mio::sq_depth_of(p) <= mio::cq_depth_of(p),
        mio::sq_depth_of(p) <= MAX_SQ_DEPTH,
        mio::cq_depth_of(p) <= MAX_CQ_DEPTH,
{
}

/// What a submission does to the one after it. One that fails cancels it with -125 if it is
/// linked to it by a soft link; if it is linked by a hard link, or not at all, or succeeds,
/// the next one runs. One that was cancelled itself cancels what it is linked to in any way.
pub proof fn links_decide_what_runs(subs: Seq<SubmissionEntry>, i: int)
    requires
        0 <= i < subs.len() - 1,
    ensures
        ({
            let soft = subs[i].flags & 1 != 0;
            let hard = subs[i].flags & 2 != 0;
            let was_cancelled = mio::is_cancelled(subs, i);
            let next = mio::completions_of(subs)[i + 1].result;
            &&& !was_cancelled && soft && !hard && ops::op_result(subs[i]) < 0 ==> next == -125
            &&& !was_cancelled && (hard || !soft || ops::op_result(subs[i]) >= 0) ==> next
                == ops::op_result(subs[i + 1])
            &&& was_cancelled && (soft || hard) ==> next == -125
            &&& was_cancelled && !soft && !hard ==> next == ops::op_result(subs[i + 1])
            &&& was_cancelled ==> mio::completions_of(subs)[i].result == -125
            &&& !was_cancelled ==> mio::completions_of(subs)[i].result == ops::op_result(subs[i])
        }),
        !mio::is_cancelled(subs, 0),
{
}

/// Every submission has one completion, in its place, that carries its user data.
pub proof fn each_submission_has_its_completion(subs: Seq<SubmissionEntry>, i: int)
    requires
        0 <= i < subs.len(),
    ensures
        mio::completions_of(subs).len() == subs.len(),
        mio::completions_of(subs)[i].user_data == subs[i].user_data,
        mio::completions_of(subs)[i].flags == 0,
{
}

/// Processing takes the oldest submissions, at most as many as were asked for and as there
/// are, and the rest stays as it is; what is pending is not touched.
pub proof fn processing_takes_the_oldest(s: InstanceState, count: int)
    requires
        count >= 0,
    ensures
        ({
            let n = s.available(count);
            let p = s.processed(n);
            &&& n <= count && n <= s.sq.ready.len() && (n == count || n == s.sq.ready.len())
            &&& p.sq.ready == s.sq.ready.skip(n)
            &&& p.sq.pending == s.sq.pending
            &&& n <= s.cq.free() ==> p.cq.ready == s.cq.ready + mio::completions_of(
                s.sq.ready.take(n),
            )
            &&& p.submissions == s.submissions
            &&& p.id == s.id && p.active == s.active && p.pools == s.pools && p.flags == s.flags
        }),
{
    let n = s.available(count);
    let all = mio::completions_of(s.sq.ready.take(n));
    assert(all.take(n) =~= all);
}

/// Reaping takes at most as many completions as were asked for and as there are.
pub proof fn reaping_is_bounded(s: InstanceState, max: int)
    requires
        max >= 0,
    ensures
        s.reapable(max) <= max,
        s.reapable(max) <= s.cq.ready.len(),
        s.reapable(max) == max || s.reapable(max) == s.cq.ready.len(),
{
}

/// There is a least power of two that is not below a value.
proof fn lemma_rounded_up_exists(v: u32, n: nat)
    requires
        n < 32,
        v <= vstd::arithmetic::power2::pow2(n),
    ensures
        exists|r: u32| mio::is_rounded_up(v, r),
    decreases n,
{
    vstd::arithmetic::power2::lemma2_to64();
    vstd::arithmetic::power2::lemma_pow2_pos(n);
    if n > 0 && v <= vstd::arithmetic::power2::pow2((n - 1) as nat) {
        lemma_rounded_up_exists(v, (n - 1) as nat);
    } else {
        if n < 31 {
            vstd::arithmetic::power2::lemma_pow2_strictly_increases(n, 31);
        }
        let r = vstd::arithmetic::power2::pow2(n) as u32;
        assert(ring::is_power_of_two(r));
        assert forall|q: u32| ring::is_power_of_two(q) && v <= q implies r <= q by {
            let m = choose|m: nat| m < 32 && q as nat == #[trigger] vstd::arithmetic::power2::pow2(m);
            if m < n {
                if m < n - 1 {
                    vstd::arithmetic::power2::lemma_pow2_strictly_increases(m, (n - 1) as nat);
                }
                assert(false);
            } else if n < m {
                vstd::arithmetic::power2::lemma_pow2_strictly_increases(n, m);
            }
        }
        assert(mio::is_rounded_up(v, r));
    }
}

/// Rounding up gives a power of two that is not below the value, and half of it would be.
pub proof fn rounding_up_at_most_doubles(v: u32)
    requires
        0 < v <= 0x8000_0000,
    ensures
        ring::is_power_of_two(mio::rounded_up(v)),
        v <= mio::rounded_up(v) < 2 * v,
{
    vstd::arithmetic::power2::lemma2_to64();
    lemma_rounded_up_exists(v, 31);
    let r = mio::rounded_up(v);
    assert(mio::is_rounded_up(v, r));
    let n = choose|n: nat| n < 32 && r as nat == #[trigger] vstd::arithmetic::power2::pow2(n);
    if n > 0 {
        vstd::arithmetic::power2::lemma_pow2_unfold(n);
        let half = vstd::arithmetic::power2::pow2((n - 1) as nat) as u32;
        assert(ring::is_power_of_two(half));
        if v <= half {
            assert(r <= half);
        }
    }
}

/// The rings of an instance: the submissions have at least as many slots as were asked for,
/// and fewer than twice as many, up to 4096; the completions as many as were asked for in the
/// same way, up to 8192, or else twice as many as the submissions, or four times with the flag
/// for that. A new instance is active and has nothing in its rings.
pub proof fn ring_depths_follow_the_parameters(id: u32, p: MioParams)
    requires
        0 < p.sq_depth <= 0x8000_0000,
        p.cq_depth <= 0x8000_0000,
    ensures
        ({
            let s = InstanceState::fresh(id, p);
            &&& p.sq_depth <= 4096 ==> p.sq_depth <= s.sq.depth < 2 * p.sq_depth
            &&& s.sq.depth <= 4096
            &&& p.sq_depth >= 4096 ==> s.sq.depth == 4096
            &&& 0 < p.cq_depth <= 8192 ==> p.cq_depth <= s.cq.depth < 2 * p.cq_depth
            &&& p.cq_depth >= 8192 ==> s.cq.depth == 8192
            &&& p.cq_depth == 0 && p.flags & 2 == 0 ==> s.cq.depth == 2 * s.sq.depth
            &&& p.cq_depth == 0 && p.flags & 2 != 0 ==> s.cq.depth == (if 4 * s.sq.depth <= 8192 {
                4 * s.sq.depth
            } else {
                8192
            })
            &&& s.id == id && s.active && s.flags == p.flags && !s.sqpoll
            &&& s.sq.ready.len() == 0 && s.sq.pending.len() == 0 && s.cq.ready.len() == 0
            &&& s.cq.overflow == 0 && s.submissions == 0 && s.completions == 0
        }),
{
    rounding_up_at_most_doubles(p.sq_depth);
    if p.cq_depth > 0 {
        rounding_up_at_most_doubles(p.cq_depth);
    }
    lemma_power_up_to(p.sq_depth, 4096);
    if p.cq_depth > 0 {
        lemma_power_up_to(p.cq_depth, 8192);
    }
}

/// Rounding up does not pass a power of two that is not below the value.
proof fn lemma_power_up_to(v: u32, limit: u32)
    requires
        0 < v <= 0x8000_0000,
        limit == 4096 || limit == 8192,
    ensures
        v <= limit ==> mio::rounded_up(v) <= limit,
{
    vstd::arithmetic::power2::lemma2_to64();
    lemma_rounded_up_exists(v, 31);
    assert(mio::is_rounded_up(v, mio::rounded_up(v)));
    let n: nat = if limit == 4096 {
        12
    } else {
        13
    };
    assert(vstd::arithmetic::power2::pow2(n) == limit);
    assert(ring::is_power_of_two(limit));
}

/// The codes of errors are those of the operating system, all of them negative and different.
pub proof fn error_codes_are_negative(a: MioError, b: MioError)
    requires
        !(a is Success),
    ensures
        a.code() < 0,
        a != b ==> a.code() != b.code(),
        MioError::Success.code() == 0,
        MioError::Cancelled.code() == -125,
        MioError::Busy.code() == -16,
        MioError::InvalidArg.code() == -22,
        MioError::TimedOut.code() == -110,
{
}

/// A flush makes all pending submissions visible, behind those that already were, and counts
/// each of them once.
pub proof fn flush_shows_all_pending(s: InstanceState, i: int)
    requires
        0 <= i < s.sq.pending.len(),
        s.submissions + s.sq.pending.len() <= u64::MAX,
    ensures
        ({
            let f = s.flushed();
            &&& f.sq.pending.len() == 0
            &&& f.sq.ready.len() == s.sq.ready.len() + s.sq.pending.len()
            &&& f.sq.ready[s.sq.ready.len() + i] == s.sq.pending[i]
            &&& f.sq.ready.subrange(0, s.sq.ready.len() as int) == s.sq.ready
            &&& f.submissions == s.submissions + s.sq.pending.len()
            &&& f.cq == s.cq
        }),
{
    assert(s.flushed().sq.ready.subrange(0, s.sq.ready.len() as int) =~= s.sq.ready);
}

/// Slots with an instance are counted one by one.
pub proof fn occupied_slots_are_counted(
    slots: Seq<Option<InstanceState>>,
    slot: Option<InstanceState>,
)
    ensures
        mio::occupied(slots.push(slot)) == mio::occupied(slots) + (if slot is Some {
            1int
        } else {
            0
        }),
        mio::occupied(Seq::empty()) == 0,
        0 <= mio::occupied(slots) <= slots.len(),
    decreases slots.len(),
{
    assert(slots.push(slot).drop_last() =~= slots);
    if slots.len() > 0 {
        occupied_slots_are_counted(slots.drop_last(), slots.last());
    }
}

} // verus!
