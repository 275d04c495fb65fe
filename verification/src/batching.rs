//! The batching coordinator: turns a stream of one-at-a-time requests into
//! batches bounded in size and in latency.
//!
//! The coordinator owns the buffer of pending items.  The task driving it
//! reports arrivals with [`Coordinator::push`], the lapse of the delay timer
//! with [`Coordinator::tick`], and shutdown with [`Coordinator::drain`]; each
//! call hands back the batch to run, if one is due.  A batch is emitted when
//! the buffer reaches `batch_size` items, when the delay since the *first*
//! pending item reaches `max_delay_ms`, when a high-priority submission asks
//! for an immediate flush, or when the coordinator drains at shutdown.
//!
//! Once a batch has run, [`distribute_results`] fans the outcome back to the
//! submitters: outputs align positionally with inputs, and a failed batch
//! yields the same failure to every submitter, so no submission is ever lost
//! silently.

use vstd::prelude::*;

use crate::errors::ErrorKind;

verus! {

/// The timestamp (in milliseconds) by which the current buffer must flush:
/// `max_delay_ms` after the first pending item arrived, saturating at the
/// top of the clock's range.
pub open spec fn spec_deadline(now_ms: u64, max_delay_ms: u64) -> u64 {
    if now_ms + max_delay_ms <= u64::MAX {
        (now_ms + max_delay_ms) as u64
    } else {
        u64::MAX
    }
}

/// Accumulates submitted items until a batch is due.
pub struct Coordinator<I> {
    /// Largest batch ever emitted on size; at least 1.
    pub batch_size: usize,
    /// Bound on how long the first pending item may wait.
    pub max_delay_ms: u64,
    /// Pending items, in arrival order; always fewer than `batch_size`.
    pub pending: Vec<I>,
    /// Deadline armed when the first item of the buffer arrived, `None`
    /// exactly while the buffer is empty.
    pub deadline_ms: Option<u64>,
}

impl<I> Coordinator<I> {
    /// The coordinator's invariant: the buffer never reaches `batch_size`
    /// between calls, and the timer is armed exactly while it is non-empty.
    pub open spec fn wf(self) -> bool {
        &&& self.batch_size >= 1
        &&& self.pending.len() < self.batch_size
        &&& (self.deadline_ms is Some <==> self.pending.len() > 0)
    }

    /// A fresh coordinator with an empty buffer.
    pub fn new(batch_size: usize, max_delay_ms: u64) -> (c: Coordinator<I>)
        requires
            batch_size >= 1,
        ensures
            c.wf(),
            c.batch_size == batch_size,
            c.max_delay_ms == max_delay_ms,
            c.pending@ == Seq::<I>::empty(),
    {
        let c = Coordinator { batch_size, max_delay_ms, pending: Vec::new(), deadline_ms: None };
        proof {
            assert(c.pending@ =~= Seq::<I>::empty());
        }
        c
    }

    /// Reports the arrival of one submission at time `now_ms` and returns
    /// the batch to run, if one is due now.
    ///
    /// A batch is due exactly when the buffer reaches `batch_size` or the
    /// submission is high-priority; it holds the pending items followed by
    /// the new one, in arrival order.  Otherwise the item is queued, and on
    /// a first item the delay timer is armed for `max_delay_ms` from now.
    pub fn push(&mut self, item: I, priority: bool, now_ms: u64) -> (flushed: Option<Vec<I>>)
        requires
            old(self).wf(),
        ensures
            final(self).wf(),
            final(self).batch_size == old(self).batch_size,
            final(self).max_delay_ms == old(self).max_delay_ms,
            match flushed {
                Some(batch) => {
                    &&& batch@ == old(self).pending@.push(item)
                    &&& 1 <= batch@.len() <= old(self).batch_size
                    &&& priority || batch@.len() == old(self).batch_size
                    &&& final(self).pending@ == Seq::<I>::empty()
                    &&& final(self).deadline_ms is None
                },
                None => {
                    &&& !priority
                    &&& final(self).pending@ == old(self).pending@.push(item)
                    &&& final(self).pending@.len() < old(self).batch_size
                    &&& final(self).deadline_ms == (if old(self).pending@.len() == 0 {
                        Some(spec_deadline(now_ms, old(self).max_delay_ms))
                    } else {
                        old(self).deadline_ms
                    })
                },
            },
    {
        let first = self.pending.len() == 0;
        self.pending.push(item);
        if priority || self.pending.len() == self.batch_size {
            self.deadline_ms = None;
            let mut batch: Vec<I> = Vec::new();
            core::mem::swap(&mut batch, &mut self.pending);
            proof {
                assert(self.pending@ =~= Seq::<I>::empty());
            }
            Some(batch)
        } else {
            if first {
                self.deadline_ms = Some(
                    if now_ms <= u64::MAX - self.max_delay_ms {
                        now_ms + self.max_delay_ms
                    } else {
                        u64::MAX
                    },
                );
            }
            None
        }
    }

    /// Reports that the clock has reached `now_ms` and returns the batch to
    /// run, if the armed deadline has passed.
    ///
    /// When the deadline is due, the whole buffer flushes — however few
    /// items it holds — so the first pending item never waits beyond the
    /// deadline armed at its arrival.  Otherwise nothing changes.
    pub fn tick(&mut self, now_ms: u64) -> (flushed: Option<Vec<I>>)
        requires
            old(self).wf(),
        ensures
            final(self).wf(),
            final(self).batch_size == old(self).batch_size,
            final(self).max_delay_ms == old(self).max_delay_ms,
            match flushed {
                Some(batch) => {
                    &&& old(self).deadline_ms matches Some(d) && now_ms >= d
                    &&& batch@ == old(self).pending@
                    &&& 1 <= batch@.len() <= old(self).batch_size
                    &&& final(self).pending@ == Seq::<I>::empty()
                    &&& final(self).deadline_ms is None
                },
                None => {
                    &&& match old(self).deadline_ms {
                        Some(d) => now_ms < d,
                        None => true,
                    }
                    &&& *final(self) == *old(self)
                },
            },
    {
        let due = match self.deadline_ms {
            Some(d) => now_ms >= d,
            None => false,
        };
        if due {
            self.deadline_ms = None;
            let mut batch: Vec<I> = Vec::new();
            core::mem::swap(&mut batch, &mut self.pending);
            proof {
                assert(self.pending@ =~= Seq::<I>::empty());
            }
            Some(batch)
        } else {
            None
        }
    }

    /// Flushes whatever is pending, for shutdown: in-flight submissions
    /// complete before the worker exits.
    pub fn drain(&mut self) -> (flushed: Option<Vec<I>>)
        requires
            old(self).wf(),
        ensures
            final(self).wf(),
            final(self).batch_size == old(self).batch_size,
            final(self).max_delay_ms == old(self).max_delay_ms,
            final(self).pending@ == Seq::<I>::empty(),
            match flushed {
                Some(batch) => {
                    &&& batch@ == old(self).pending@
                    &&& 1 <= batch@.len() <= old(self).batch_size
                },
                None => old(self).pending@.len() == 0,
            },
    {
        self.deadline_ms = None;
        if self.pending.len() == 0 {
            proof {
                assert(self.pending@ =~= Seq::<I>::empty());
            }
            None
        } else {
            let mut batch: Vec<I> = Vec::new();
            core::mem::swap(&mut batch, &mut self.pending);
            proof {
                assert(self.pending@ =~= Seq::<I>::empty());
            }
            Some(batch)
        }
    }
}

/// Fans a finished batch's outcome back to its `n` submitters.
///
/// On success the outputs align positionally with the inputs: submitter `i`
/// receives output `i`.  On failure — or if the processor returned the wrong
/// number of outputs — every submitter of the batch observes `BatchFailed`,
/// so no submission is lost silently.
pub fn distribute_results<O>(n: usize, outcome: Result<Vec<O>, ErrorKind>) -> (r: Vec<
    Result<O, ErrorKind>,
>)
    ensures
        r@.len() == n,
        match outcome {
            Ok(outputs) => if outputs@.len() == n {
                forall|i: int| 0 <= i < n ==> r@[i] == Ok::<O, ErrorKind>(outputs@[i])
            } else {
                forall|i: int| 0 <= i < n ==> r@[i] == Err::<O, ErrorKind>(ErrorKind::BatchFailed)
            },
            Err(_) => forall|i: int|
                0 <= i < n ==> r@[i] == Err::<O, ErrorKind>(ErrorKind::BatchFailed),
        },
{
    let mut r: Vec<Result<O, ErrorKind>> = Vec::new();
    match outcome {
        Ok(mut outputs) => {
            if outputs.len() == n {
                let ghost all = outputs@;
                while outputs.len() > 0
                    invariant
                        all.len() == n,
                        r@.len() + outputs@.len() == n,
                        outputs@ == all.subrange(r@.len() as int, n as int),
                        forall|i: int| 0 <= i < r@.len() ==> r@[i] == Ok::<O, ErrorKind>(all[i]),
                    decreases outputs.len(),
                {
                    let out = outputs.remove(0);
                    proof {
                        assert(outputs@ =~= all.subrange(r@.len() as int + 1, n as int));
                    }
                    r.push(Ok(out));
                }
            } else {
                while r.len() < n
                    invariant
                        r@.len() <= n,
                        forall|i: int|
                            0 <= i < r@.len() ==> r@[i] == Err::<O, ErrorKind>(
                                ErrorKind::BatchFailed,
                            ),
                    decreases n - r.len(),
                {
                    r.push(Err(ErrorKind::BatchFailed));
                }
            }
        },
        Err(_) => {
            while r.len() < n
                invariant
                    r@.len() <= n,
                    forall|i: int|
                        0 <= i < r@.len() ==> r@[i] == Err::<O, ErrorKind>(ErrorKind::BatchFailed),
                decreases n - r.len(),
            {
                r.push(Err(ErrorKind::BatchFailed));
            }
        },
    }
    r
}

/// No emitted batch exceeds `batch_size`, and none is empty: whichever call
/// produced it — an arrival, the timer, or the drain at shutdown — a batch
/// holds between 1 and `batch_size` items.
///
/// The bound is part of each method's contract; this states it once over
/// any batch assembled from a well-formed buffer.
pub proof fn lemma_batch_size_bounds<I>(c: Coordinator<I>, batch: Seq<I>, item: Option<I>)
    requires
        c.wf(),
        batch == (match item {
            Some(x) => c.pending@.push(x),
            None => c.pending@,
        }),
        item is None ==> c.pending@.len() > 0,
    ensures
        1 <= batch.len() <= c.batch_size,
{
}

} // verus!
