//! Kernel-side polling of a submission queue.
//!
//! The polling thread processes submissions while there are any and parks after a
//! time without work. A submission wakes it.

use crate::mio::{SQPOLL_BATCH_SIZE, SQPOLL_IDLE_TIMEOUT_MS};
use vstd::prelude::*;

verus! {

/// State of the polling thread.
#[derive(Clone, Copy, Debug, PartialEq, Eq, Structural)]
pub enum SqPollState {
    /// Polls the submission queue.
    Running,
    /// Waits to be woken.
    Parked,
    /// Has been asked to stop.
    Stopping,
    /// Has exited.
    Stopped,
}

/// Context of the polling thread.
pub struct SqPollContext {
    state: SqPollState,
    needs_wakeup: bool,
    /// Submissions that the thread processed.
    pub sqes_processed: u64,
    /// Times that the thread parked.
    pub park_count: u64,
    /// Times that the thread was woken.
    pub wake_count: u64,
    /// Milliseconds without work before the thread parks.
    pub idle_timeout_ms: u64,
    /// Maximum number of submissions in one round.
    pub batch_size: u32,
    idle_iterations: u64,
}

/// What a polling context holds.
pub struct SqPollView {
    /// State of the thread.
    pub state: SqPollState,
    /// The wake flag.
    pub wake: bool,
    /// Submissions that the thread processed.
    pub processed: u64,
    /// Times that the thread parked.
    pub parks: u64,
    /// Times that the thread was woken.
    pub wakes: u64,
    /// Milliseconds without work before the thread parks.
    pub timeout_ms: u64,
    /// Maximum number of submissions in one round.
    pub batch: u32,
    /// Rounds without work since the last work.
    pub idle: u64,
}

impl SqPollView {
    /// Rounds without work after which the thread parks, at one microsecond a
    /// round.
    pub open spec fn threshold(self) -> int {
        self.timeout_ms * 1000
    }

    /// The next round without work parks the thread.
    pub open spec fn parks_next(self) -> bool {
        self.idle + 1 >= self.threshold()
    }
}

impl View for SqPollContext {
    type V = SqPollView;

    closed spec fn view(&self) -> SqPollView {
        SqPollView {
            state: self.state,
            wake: self.needs_wakeup,
            processed: self.sqes_processed,
            parks: self.park_count,
            wakes: self.wake_count,
            timeout_ms: self.idle_timeout_ms,
            batch: self.batch_size,
            idle: self.idle_iterations,
        }
    }
}

impl SqPollContext {
    /// Makes the context of a running thread. Zero asks for the default timeout or
    /// the default batch size.
    pub fn new(idle_timeout_ms: u64, batch_size: u32) -> (c: Self)
        ensures
            c@ == (SqPollView {
                state: SqPollState::Running,
                wake: false,
                processed: 0,
                parks: 0,
                wakes: 0,
                timeout_ms: if idle_timeout_ms == 0 {
                    SQPOLL_IDLE_TIMEOUT_MS
                } else {
                    idle_timeout_ms
                },
                batch: if batch_size == 0 {
                    SQPOLL_BATCH_SIZE
                } else {
                    batch_size
                },
                idle: 0,
            }),
    {
        SqPollContext {
            state: SqPollState::Running,
            needs_wakeup: false,
            sqes_processed: 0,
            park_count: 0,
            wake_count: 0,
            idle_timeout_ms: if idle_timeout_ms == 0 {
                SQPOLL_IDLE_TIMEOUT_MS
            } else {
                idle_timeout_ms
            },
            batch_size: if batch_size == 0 {
                SQPOLL_BATCH_SIZE
            } else {
                batch_size
            },
            idle_iterations: 0,
        }
    }

    /// State of the thread.
    pub fn state(&self) -> (s: SqPollState)
        ensures
            s == self@.state,
    {
        self.state
    }

    /// Has the thread wake up, and counts it where the thread is parked.
    pub fn wake(&mut self)
        ensures
            final(self)@ == (SqPollView {
                wake: true,
                wakes: if old(self)@.state == SqPollState::Parked {
                    old(self)@.wakes.wrapping_add(1)
                } else {
                    old(self)@.wakes
                },
                ..old(self)@
            }),
    {
        self.needs_wakeup = true;
        if self.state == SqPollState::Parked {
            self.wake_count = self.wake_count.wrapping_add(1);
        }
    }

    /// Reads and clears the wake flag.
    pub fn check_and_clear_wake(&mut self) -> (r: bool)
        ensures
            r == old(self)@.wake,
            final(self)@ == (SqPollView { wake: false, ..old(self)@ }),
    {
        let r = self.needs_wakeup;
        self.needs_wakeup = false;
        r
    }

    /// Asks the thread to stop, and wakes it for that.
    pub fn request_stop(&mut self)
        ensures
            final(self)@ == (SqPollView { state: SqPollState::Stopping, wake: true, ..old(self)@ }),
    {
        self.state = SqPollState::Stopping;
        self.needs_wakeup = true;
    }

    /// Whether the thread has been asked to stop.
    pub fn should_stop(&self) -> (r: bool)
        ensures
            r == (self@.state == SqPollState::Stopping),
    {
        self.state == SqPollState::Stopping
    }

    /// Notes that the thread has exited.
    pub fn mark_stopped(&mut self)
        ensures
            final(self)@ == (SqPollView { state: SqPollState::Stopped, ..old(self)@ }),
    {
        self.state = SqPollState::Stopped;
    }

    /// Notes a round that processed `count` submissions.
    pub fn record_work(&mut self, count: u32)
        ensures
            final(self)@ == (SqPollView {
                state: SqPollState::Running,
                processed: old(self)@.processed.wrapping_add(count as u64),
                idle: 0,
                ..old(self)@
            }),
    {
        self.sqes_processed = self.sqes_processed.wrapping_add(count as u64);
        self.idle_iterations = 0;
        self.state = SqPollState::Running;
    }

    /// Notes a round without work. Whether the thread parks.
    pub fn record_idle(&mut self) -> (r: bool)
        requires
            old(self)@.idle < u64::MAX,
        ensures
            r == old(self)@.parks_next(),
            final(self)@ == (SqPollView {
                idle: (old(self)@.idle + 1) as u64,
                state: if r {
                    SqPollState::Parked
                } else {
                    old(self)@.state
                },
                parks: if r {
                    old(self)@.parks.wrapping_add(1)
                } else {
                    old(self)@.parks
                },
                ..old(self)@
            }),
    {
        let idles: u64 = self.idle_iterations + 1;
        self.idle_iterations = idles;
        let threshold: u128 = self.idle_timeout_ms as u128 * 1000;
        if idles as u128 >= threshold {
            self.state = SqPollState::Parked;
            self.park_count = self.park_count.wrapping_add(1);
            true
        } else {
            false
        }
    }

    /// How many of `sq_ready` submissions this round processes.
    pub fn poll_iteration_count(&self, sq_ready: u32) -> (n: u32)
        ensures
            n == if sq_ready <= self@.batch {
                sq_ready
            } else {
                self@.batch
            },
    {
        if sq_ready <= self.batch_size {
            sq_ready
        } else {
            self.batch_size
        }
    }

    /// Whether the thread is parked.
    pub fn is_parked(&self) -> (r: bool)
        ensures
            r == (self@.state == SqPollState::Parked),
    {
        self.state == SqPollState::Parked
    }

    /// Whether the wake flag is set.
    pub fn needs_wakeup(&self) -> (r: bool)
        ensures
            r == self@.wake,
    {
        self.needs_wakeup
    }
}

/// After work, the thread parks exactly when the rounds without work reach the
/// timeout at one microsecond a round.
pub proof fn parks_after_the_timeout(c: SqPollView, rounds: u64)
    requires
        c.idle == rounds,
    ensures
        c.parks_next() <==> rounds + 1 >= c.timeout_ms * 1000,
{
}

} // verus!
