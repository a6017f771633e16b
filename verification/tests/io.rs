use maios_kernel::id_map::IdMap;
use maios_kernel::mio;
use maios_kernel::mio::buffer::{BufferPool, BufferState};
use maios_kernel::mio::cqe::{cqe_flags, CompletionEntry};
use maios_kernel::mio::ops::dispatch;
use maios_kernel::mio::poll::{SqPollContext, SqPollState};
use maios_kernel::mio::ring::{CompletionQueue, SubmissionQueue};
use maios_kernel::mio::setup_flags;
use maios_kernel::mio::sqe::{fsync_flags, sqe_flags, OpCode, SubmissionEntry};
use maios_kernel::mio::stats::{MioStats, LATENCY_BUCKETS};
use maios_kernel::mio::worker::{WorkItem, WorkerPool};
use maios_kernel::mio::{MaiIO, MioError, MioInstance, MioParams};

fn entry(opcode: OpCode) -> SubmissionEntry {
    let mut e = SubmissionEntry::zeroed();
    e.opcode = opcode;
    e.fd = 1;
    e.addr = 0x1000;
    e.len = 10;
    e
}

#[test]
fn error_codes() {
    assert_eq!(MioError::Success.as_i32(), 0);
    assert_eq!(MioError::InvalidArg.as_i32(), -22);
    assert_eq!(MioError::NoMemory.as_i32(), -12);
    assert_eq!(MioError::Busy.as_i32(), -16);
    assert_eq!(MioError::NotSupported.as_i32(), -95);
    assert_eq!(MioError::BadFd.as_i32(), -9);
    assert_eq!(MioError::IoError.as_i32(), -5);
    assert_eq!(MioError::Cancelled.as_i32(), -125);
    assert_eq!(MioError::Overflow.as_i32(), -75);
    assert_eq!(MioError::TimedOut.as_i32(), -110);
    assert_eq!(MioError::WouldBlock.as_i32(), -11);
}

#[test]
fn operations_give_results() {
    assert_eq!(dispatch(&SubmissionEntry::nop(1)), 0);
    assert_eq!(dispatch(&SubmissionEntry::read(1, 0x1000, 512, 0, 1)), 512);
    assert_eq!(dispatch(&SubmissionEntry::read(-1, 0x1000, 512, 0, 1)), -9);
    assert_eq!(dispatch(&SubmissionEntry::read(1, 0, 512, 0, 1)), -22);
    assert_eq!(dispatch(&SubmissionEntry::write(1, 0x1000, 0, 0, 1)), -22);
    assert_eq!(dispatch(&SubmissionEntry::fsync(-1, false, 1)), -9);
    assert_eq!(dispatch(&SubmissionEntry::close(2, 1)), 0);
    assert_eq!(dispatch(&SubmissionEntry::read(1, 0x1000, 0x7fff_ffff, 0, 1)), i32::MAX);
    assert_eq!(dispatch(&SubmissionEntry::read(1, 0x1000, 0x8000_0000, 0, 1)), i32::MAX);
    assert_eq!(dispatch(&SubmissionEntry::write(1, 0x1000, u32::MAX, 0, 1)), i32::MAX);
    assert_eq!(dispatch(&entry(OpCode::Accept)), 3);
    assert_eq!(dispatch(&entry(OpCode::OpenAt)), 4);
    assert_eq!(dispatch(&entry(OpCode::Send)), 10);
    let mut statx = entry(OpCode::Statx);
    statx.fd = -1;
    assert_eq!(dispatch(&statx), 0);
    statx.addr = 0;
    assert_eq!(dispatch(&statx), -22);
}

#[test]
fn entries_carry_their_flags() {
    let e = SubmissionEntry::fsync(3, true, 9).linked().drain().async_dispatch();
    assert_eq!(e.op_flags, fsync_flags::DATASYNC);
    assert_eq!(e.flags, sqe_flags::IO_LINK | sqe_flags::IO_DRAIN | sqe_flags::ASYNC);
    assert_eq!(e.user_data, 9);
    let f = SubmissionEntry::read_fixed(3, 7, 100, 4, 5);
    assert!(matches!(f.opcode, OpCode::ReadFixed));
    assert_eq!(f.addr, 7);
    assert_eq!(f.flags, sqe_flags::FIXED_FILE);
    assert_eq!(SubmissionEntry::cancel(77, 5).addr, 77);
}

#[test]
fn completion_is_value_or_error() {
    let ok = CompletionEntry::success(1, 5);
    assert!(ok.is_success() && !ok.is_error());
    let bad = CompletionEntry::error(1, -5);
    assert!(bad.is_error() && !bad.is_success());
    assert_eq!(ok.buffer_id(), None);
    let picked = CompletionEntry { user_data: 0, result: 1, flags: (7 << 16) | cqe_flags::BUFFER | cqe_flags::MORE };
    assert_eq!(picked.buffer_id(), Some(7));
    assert!(picked.has_more());
}

#[test]
fn submission_queue_is_first_in_first_out() {
    let mut q = SubmissionQueue::new(2);
    assert!(q.push(SubmissionEntry::nop(1)).is_ok());
    assert!(q.push(SubmissionEntry::nop(2)).is_ok());
    let refused = q.push(SubmissionEntry::nop(3));
    assert_eq!(refused.unwrap_err().user_data, 3);
    assert_eq!(q.ready_count(), 0);
    assert!(q.consume_one().is_none());
    assert_eq!(q.flush_pending(), 2);
    assert_eq!(q.ready_count(), 2);
    assert_eq!(q.free_count(), 0);
    assert_eq!(q.consume_one().unwrap().user_data, 1);
    assert_eq!(q.consume_one().unwrap().user_data, 2);
    assert!(q.consume_one().is_none());
    assert_eq!(q.depth(), 2);
}

#[test]
fn rings_keep_their_order_across_wraps() {
    let mut q = SubmissionQueue::new(4);
    let mut c = CompletionQueue::new(4);
    let (mut pushed, mut taken, mut reaped) = (0u64, 0u64, 0u64);
    for round in 0..40u64 {
        for _ in 0..(round % 5) {
            if q.push(SubmissionEntry::nop(pushed)).is_ok() {
                pushed += 1;
            }
        }
        if round % 3 != 0 {
            q.flush_pending();
        }
        for _ in 0..(round % 4) {
            if let Some(e) = q.consume_one() {
                assert_eq!(e.user_data, taken);
                assert!(c.produce(CompletionEntry::success(taken, 0)).is_ok());
                taken += 1;
                assert_eq!(c.consume_one().unwrap().user_data, reaped);
                reaped += 1;
            }
        }
    }
    assert!(taken > 16 && pushed - taken <= 4);
}

#[test]
fn full_completion_queue_counts_overflow() {
    let mut q = CompletionQueue::new(1);
    assert!(q.produce(CompletionEntry::success(1, 0)).is_ok());
    assert!(q.produce(CompletionEntry::success(2, 0)).is_err());
    assert_eq!(q.overflow_count(), 1);
    assert_eq!(q.consume_one().unwrap().user_data, 1);
    assert!(q.consume_one().is_none());
    assert_eq!(q.ready_count(), 0);
    assert_eq!(q.depth(), 1);
}

#[test]
fn instance_completes_in_order() {
    let mut i = MioInstance::new(1, &MioParams::default()).ok().unwrap();
    assert!(i.sq.push(SubmissionEntry::read(1, 0x1000, 64, 0, 10)).is_ok());
    assert!(i.sq.push(SubmissionEntry::read(-1, 0x1000, 64, 0, 11)).is_ok());
    assert!(matches!(i.submit(2), Ok(2)));
    assert_eq!(i.reap_completions(10), vec![(10, 64), (11, -9)]);
    assert_eq!(i.reap_completions(10), vec![]);
    assert_eq!(i.total_submissions, 2);
    assert_eq!(i.total_completions, 2);
}

#[test]
fn failed_link_cancels_the_rest() {
    let mut i = MioInstance::new(1, &MioParams::default()).ok().unwrap();
    let bad = SubmissionEntry::close(-1, 1).linked();
    let hard = SubmissionEntry { flags: sqe_flags::IO_HARDLINK, ..SubmissionEntry::close(-1, 4) };
    assert!(i.sq.push(bad).is_ok());
    assert!(i.sq.push(SubmissionEntry::nop(2).linked()).is_ok());
    assert!(i.sq.push(SubmissionEntry::nop(3)).is_ok());
    assert!(i.sq.push(hard).is_ok());
    assert!(i.sq.push(SubmissionEntry::nop(5)).is_ok());
    assert!(matches!(i.submit(5), Ok(5)));
    assert_eq!(i.reap_completions(9), vec![(1, -9), (2, -125), (3, -125), (4, -9), (5, 0)]);
}

#[test]
fn submit_without_completions_times_out() {
    let mut i = MioInstance::new(1, &MioParams::default()).ok().unwrap();
    assert!(matches!(i.submit(0), Ok(0)));
    assert!(matches!(i.submit(1), Err(MioError::TimedOut)));
}

#[test]
fn instance_depths_are_powers_of_two() {
    let mut p = MioParams::default();
    p.sq_depth = mio::MAX_SQ_DEPTH + 1;
    let i = MioInstance::new(1, &p).ok().unwrap();
    assert_eq!(i.sq.depth(), mio::MAX_SQ_DEPTH);
    p.sq_depth = 100;
    p.cq_depth = 0;
    let i = MioInstance::new(1, &p).ok().unwrap();
    assert_eq!(i.sq.depth(), 128);
    assert_eq!(i.cq.depth(), 256);
    p.flags = setup_flags::CQ_4X;
    assert_eq!(MioInstance::new(1, &p).ok().unwrap().cq.depth(), 512);
    p.sq_depth = 0;
    assert_eq!(MioInstance::new(1, &p).ok().unwrap().sq.depth(), 1);
}

#[test]
fn setup_and_teardown() {
    let mut slot = None;
    mio::init(&mut slot);
    assert_eq!(mio::get(&slot).active_count, 0);
    let m = slot.as_mut().unwrap();
    let a = m.setup(&MioParams::default()).ok().unwrap();
    let b = m.setup(&MioParams::default()).ok().unwrap();
    assert!(a != b);
    assert_eq!(m.with_instance(a).ok().unwrap().id, a);
    assert!(m.teardown(a).is_ok());
    assert!(matches!(m.teardown(a), Err(MioError::InvalidArg)));
    assert!(m.with_instance(a).is_err());
    assert_eq!(m.active_count, 1);
    assert_eq!(m.total_created, 2);
}

#[test]
fn setup_fails_when_all_slots_are_taken() {
    let mut m = MaiIO::new();
    let mut p = MioParams::default();
    p.sq_depth = 1;
    p.cq_depth = 1;
    for _ in 0..mio::MAX_INSTANCES {
        assert!(m.setup(&p).is_ok());
    }
    assert!(matches!(m.setup(&p), Err(MioError::Busy)));
}

#[test]
fn buffer_pools_are_limited() {
    let mut i = MioInstance::new(1, &MioParams::default()).ok().unwrap();
    for n in 0..mio::MAX_BUFFER_POOLS {
        assert!(matches!(i.register_buffers(BufferPool::new(n as u16, 64, 2, 0x1000)), Ok(k) if k as usize == n));
    }
    assert!(i.register_buffers(BufferPool::new(99, 64, 2, 0x1000)).is_err());
}

#[test]
fn buffers_are_lent_and_given_back() {
    let mut p = BufferPool::new(3, 4096, 2, 0x10000);
    let (a, addr_a) = p.allocate().unwrap();
    let (b, addr_b) = p.allocate().unwrap();
    assert!(a != b);
    assert_eq!(addr_a, 0x10000 + 4096 * a as u64);
    assert_eq!(addr_b, 0x10000 + 4096 * b as u64);
    assert_eq!(p.allocate(), None);
    assert_eq!(p.free_count(), 0);
    p.free(a);
    assert_eq!(p.free_count(), 1);
    assert_eq!(p.allocate(), Some((a, addr_a)));
    p.free_batch(&[a, b]);
    assert_eq!(p.alloc_batch(10).len(), 2);
    assert!(p.get(9).is_none());
}

#[test]
fn pinned_buffer_waits_for_unpin() {
    let mut p = BufferPool::new(0, 512, 1, 0);
    assert!(!p.pin_for_dma(5));
    let (a, _) = p.allocate().unwrap();
    assert!(p.pin_for_dma(a));
    assert_eq!(p.get(a).unwrap().state, BufferState::DmaPinned);
    p.free(a);
    assert_eq!(p.free_count(), 0);
    assert!(p.unpin_dma(a));
    assert_eq!(p.get(a).unwrap().state, BufferState::Free);
    assert!(!p.unpin_dma(5));
    p.free(a);
    assert_eq!(p.free_count(), 1);
}

#[test]
fn poller_parks_after_idling() {
    let mut c = SqPollContext::new(1, 32);
    assert_eq!(c.state(), SqPollState::Running);
    for _ in 0..999 {
        assert!(!c.record_idle());
    }
    assert!(c.record_idle());
    assert!(c.is_parked());
    assert_eq!(c.park_count, 1);
    c.wake();
    assert_eq!(c.wake_count, 1);
    assert!(c.needs_wakeup());
    assert!(c.check_and_clear_wake());
    assert!(!c.check_and_clear_wake());
    assert_eq!(c.poll_iteration_count(100), 32);
    assert_eq!(c.poll_iteration_count(5), 5);
    c.record_work(4);
    c.wake();
    assert_eq!(c.wake_count, 1);
    assert_eq!(c.sqes_processed, 4);
    c.request_stop();
    assert!(c.should_stop());
    c.mark_stopped();
    assert_eq!(c.state(), SqPollState::Stopped);
}

#[test]
fn poller_counts_long_timeouts() {
    let mut c = SqPollContext::new(4_294_968, 32);
    for _ in 0..2_000 {
        assert!(!c.record_idle());
    }
    assert_eq!(c.state(), SqPollState::Running);
}

#[test]
fn submission_entry_fills_a_cache_line() {
    assert_eq!(std::mem::size_of::<SubmissionEntry>(), 64);
}

#[test]
fn latencies_fill_the_histogram() {
    let mut s = MioStats::new();
    assert_eq!(s.average_latency_us(), 0);
    s.record_completion(1, 100, false);
    s.record_completion(5, 50, true);
    s.record_completion(2_000_000, 0, false);
    assert_eq!(s.latency_buckets[0], 1);
    assert_eq!(s.latency_buckets[2], 1);
    assert_eq!(s.latency_buckets[11], 1);
    assert_eq!(LATENCY_BUCKETS[11], u64::MAX);
    assert_eq!(s.latency_min_us, 1);
    assert_eq!(s.latency_max_us, 2_000_000);
    assert_eq!(s.bytes_read, 100);
    assert_eq!(s.bytes_written, 50);
    s.record_error();
    s.record_overflow();
    s.update_sq_peak(9);
    s.update_sq_peak(3);
    s.update_cq_peak(4);
    let snap = s.snapshot();
    assert_eq!(snap.completions, 3);
    assert_eq!(snap.errors, 1);
    assert_eq!(snap.cq_overflows, 1);
    assert_eq!(snap.avg_latency_us, 2_000_006 / 3);
    assert_eq!(snap.sq_peak, 9);
    assert_eq!(snap.cq_peak, 4);
}

fn item(n: u64) -> WorkItem {
    WorkItem { sqe: SubmissionEntry::nop(n), instance_id: 0 }
}

#[test]
fn work_goes_to_the_least_loaded_worker() {
    let mut p = WorkerPool::new(2);
    assert!(p.submit(item(1)));
    assert!(p.submit(item(2)));
    assert_eq!(p.bounded[0].pending_count(), 1);
    assert_eq!(p.bounded[1].pending_count(), 1);
    p.bounded[0].set_busy();
    assert_eq!(p.idle_count(), 1);
    assert!(p.submit(item(3)));
    assert_eq!(p.bounded[1].pending_count(), 2);
    assert_eq!(p.total_pending(), 3);
    p.bounded[1].set_busy();
    assert!(p.submit(item(4)));
    assert_eq!(p.bounded[0].pending_count(), 2);
    let stolen = p.try_steal(0).unwrap();
    assert!(stolen.sqe.user_data == 2 || stolen.sqe.user_data == 3);
    assert_eq!(p.bounded[1].pending_count(), 1);
    p.record_completion();
    assert_eq!(p.total_completed, 1);
    p.shutdown();
    assert!(!p.submit(item(5)));
}

#[test]
fn identifiers_map_to_values() {
    let mut m = IdMap::new();
    assert!(m.insert(5, 'a').is_none());
    assert_eq!(m.insert(5, 'b'), Some('a'));
    assert_eq!(m.get(5), Some(&'b'));
    assert_eq!(m.remove(5), Some('b'));
    assert_eq!(m.get(5), None);
}
