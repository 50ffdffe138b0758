//! The draw-budget state machine: previously extracted segments are handed
//! out in caller-sized batches, one batch per tick, so a renderer never
//! receives more than its budget per call and can detect completion.

use crate::extract::RoadSegment;
use vstd::prelude::*;
use vstd::seq_lib::lemma_flatten_concat;
use vstd::arithmetic::div_mod::lemma_div_multiples_vanish_fancy;
use vstd::arithmetic::div_mod::lemma_hoist_over_denominator;

verus! {

/// Owns the extracted segment sequence and a monotonically advancing
/// cursor.  The terminal state, cursor at the total, is reached once and
/// never left: advancing there returns an empty batch and changes nothing.
pub struct DrawScheduler {
    segments: Vec<RoadSegment>,
    cursor: usize,
}

impl DrawScheduler {
    /// The full segment sequence this scheduler serves.
    pub closed spec fn spec_segments(&self) -> Seq<RoadSegment> {
        self.segments@
    }

    /// How many segments have been released so far.
    pub closed spec fn spec_cursor(&self) -> int {
        self.cursor as int
    }

    /// The cursor never passes the total.
    pub open spec fn wf(&self) -> bool {
        0 <= self.spec_cursor() <= self.spec_segments().len()
    }

    /// The terminal state: every segment has been released.
    pub open spec fn is_done(&self) -> bool {
        self.spec_cursor() == self.spec_segments().len()
    }

    /// Starts at the beginning of `segments`.
    pub fn new(segments: Vec<RoadSegment>) -> (s: DrawScheduler)
        ensures
            s.wf(),
            s.spec_segments() == segments@,
            s.spec_cursor() == 0,
    {
        DrawScheduler { segments, cursor: 0 }
    }

    /// How many segments are held in all.
    pub fn total(&self) -> (n: usize)
        ensures
            n == self.spec_segments().len(),
    {
        self.segments.len()
    }

    /// Whether every segment has been released.
    pub fn is_complete(&self) -> (done: bool)
        requires
            self.wf(),
        ensures
            done == self.is_done(),
    {
        self.cursor == self.segments.len()
    }

    /// One tick: releases the next `batch_size` segments, or fewer at the
    /// end, and advances the cursor by exactly the number released.  In
    /// the terminal state this is a no-op returning an empty batch.
    pub fn advance(&mut self, batch_size: usize) -> (batch: Vec<RoadSegment>)
        requires
            old(self).wf(),
        ensures
            final(self).wf(),
            final(self).spec_segments() == old(self).spec_segments(),
            final(self).spec_cursor() == if old(self).spec_cursor() + batch_size
                <= old(self).spec_segments().len() {
                old(self).spec_cursor() + batch_size
            } else {
                old(self).spec_segments().len() as int
            },
            batch@ == old(self).spec_segments().subrange(
                old(self).spec_cursor(),
                final(self).spec_cursor(),
            ),
            old(self).is_done() ==> batch@.len() == 0 && final(self).is_done(),
            batch_size >= 1 && !old(self).is_done() ==> ({
                let run = spec_batches(
                    old(self).spec_segments(),
                    old(self).spec_cursor(),
                    batch_size as int,
                );
                &&& batch@ == run[0]
                &&& spec_batches(
                    final(self).spec_segments(),
                    final(self).spec_cursor(),
                    batch_size as int,
                ) == run.drop_first()
            }),
    {
        let total = self.segments.len();
        let start = self.cursor;
        let end = if batch_size >= total - start {
            total
        } else {
            start + batch_size
        };
        let mut batch: Vec<RoadSegment> = Vec::new();
        let mut idx = start;
        proof {
            assert(batch@ =~= self.segments@.subrange(start as int, start as int));
        }
        while idx < end
            invariant
                start <= idx <= end <= total == self.segments@.len(),
                self == old(self),
                batch@ == self.segments@.subrange(start as int, idx as int),
            decreases end - idx,
        {
            batch.push(self.segments[idx]);
            proof {
                assert(self.segments@.subrange(start as int, idx as int + 1)
                    =~= self.segments@.subrange(start as int, idx as int).push(
                    self.segments@[idx as int],
                ));
            }
            idx = idx + 1;
        }
        self.cursor = end;
        proof {
            if batch_size >= 1 && old(self).spec_cursor() < old(self).spec_segments().len() {
                let segs0 = old(self).spec_segments();
                let c0 = old(self).spec_cursor();
                let next = if c0 + batch_size <= segs0.len() {
                    c0 + batch_size
                } else {
                    segs0.len() as int
                };
                let run = spec_batches(segs0, c0, batch_size as int);
                assert(run == seq![segs0.subrange(c0, next)] + spec_batches(
                    segs0,
                    next,
                    batch_size as int,
                ));
                assert(run[0] == segs0.subrange(c0, next));
                assert(run.drop_first() =~= spec_batches(segs0, next, batch_size as int));
                assert(end as int == next);
            }
        }
        batch
    }
}

/// The batches that repeated `advance` calls with budget `batch` release,
/// starting from `cursor`: full slices of `batch` segments, then the
/// remainder, until the cursor reaches the total.
pub open spec fn spec_batches(segs: Seq<RoadSegment>, cursor: int, batch: int) -> Seq<
    Seq<RoadSegment>,
>
    recommends
        0 <= cursor <= segs.len(),
        batch >= 1,
    decreases segs.len() - cursor,
    when 0 <= cursor <= segs.len() && batch >= 1
{
    if cursor >= segs.len() {
        Seq::empty()
    } else {
        let next = if cursor + batch <= segs.len() {
            cursor + batch
        } else {
            segs.len() as int
        };
        seq![segs.subrange(cursor, next)] + spec_batches(segs, next, batch)
    }
}

/// Scheduler progress: for any total and any positive budget, the run
/// from `cursor` reaches completion after exactly the rounded-up quotient
/// of the remaining count by the budget, every batch on the way is
/// non-empty, and the concatenation of all batches is exactly the
/// remaining segment sequence, in original order.
pub proof fn lemma_scheduler_progress(segs: Seq<RoadSegment>, cursor: int, batch: int)
    requires
        0 <= cursor <= segs.len(),
        batch >= 1,
    ensures
        spec_batches(segs, cursor, batch).len() == (segs.len() - cursor + batch - 1) / batch,
        spec_batches(segs, cursor, batch).flatten() == segs.subrange(
            cursor,
            segs.len() as int,
        ),
        forall|k: int|
            0 <= k < spec_batches(segs, cursor, batch).len()
                ==> #[trigger] spec_batches(segs, cursor, batch)[k].len() >= 1,
    decreases segs.len() - cursor,
{
    let batches = spec_batches(segs, cursor, batch);
    if cursor >= segs.len() {
        lemma_div_multiples_vanish_fancy(0, batch - 1, batch);
        assert(batch * 0 + (batch - 1) == batch - 1);
        assert(batches.flatten() =~= segs.subrange(cursor, segs.len() as int));
    } else {
        let next = if cursor + batch <= segs.len() {
            cursor + batch
        } else {
            segs.len() as int
        };
        let head = segs.subrange(cursor, next);
        let rest = spec_batches(segs, next, batch);
        lemma_scheduler_progress(segs, next, batch);

        // The count is one more than the count of the rest.
        if cursor + batch <= segs.len() {
            lemma_hoist_over_denominator(
                segs.len() - next + batch - 1,
                1,
                batch as nat,
            );
            assert(segs.len() - next + batch - 1 + 1 * batch == segs.len() - cursor + batch
                - 1);
        } else {
            let rem = segs.len() - cursor;
            lemma_div_multiples_vanish_fancy(1, rem - 1, batch);
            assert(batch * 1 + (rem - 1) == rem + batch - 1);
            lemma_div_multiples_vanish_fancy(0, batch - 1, batch);
            assert(batch * 0 + (batch - 1) == batch - 1);
        }

        // The concatenation is the head batch followed by the rest.
        lemma_flatten_concat(seq![head], rest);
        assert(seq![head].flatten() =~= head + seq![head].drop_first().flatten());
        assert(seq![head].drop_first() =~= Seq::<Seq<RoadSegment>>::empty());
        assert(batches.flatten() =~= head + rest.flatten());
        assert(batches.flatten() =~= segs.subrange(cursor, segs.len() as int));

        // Every batch is non-empty.
        assert forall|k: int| 0 <= k < batches.len() implies #[trigger] batches[k].len()
            >= 1 by {
            if k == 0 {
                assert(batches[0] == head);
            } else {
                assert(batches[k] == rest[k - 1]);
            }
        }
    }
}

} // verus!
