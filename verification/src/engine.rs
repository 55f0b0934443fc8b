//! The batch protocol: per-item progress, success and error events, one
//! summary at the end, cooperative cancellation between items. The engine
//! is the verified state machine the driver steps through; it hands out
//! every event and records the whole emitted history in a ghost trail, so
//! the strict `progress, result, progress, result, ..., summary` ordering
//! is a proved invariant rather than a convention.
use vstd::prelude::*;

verus! {

/// Emitted before each item is processed; `done` items are fully finished
/// and `percent` is the integer part of `done / total * 100`.
#[derive(Debug, Clone)]
pub struct ProgressEvent {
    pub total: usize,
    pub done: usize,
    pub current_file: String,
    pub percent: u32,
}

/// Emitted when an item succeeds.
#[derive(Debug, Clone)]
pub struct ItemDoneEvent {
    pub file: String,
    pub out_file: String,
    pub saved_bytes: i64,
    pub out_size_bytes: u64,
    pub out_width: u32,
    pub out_height: u32,
}

/// Emitted when an item fails; the batch continues.
#[derive(Debug, Clone)]
pub struct ItemErrorEvent {
    pub file: String,
    pub message: String,
}

/// Emitted exactly once, as the last event of every run.
#[derive(Debug, Clone)]
pub struct BatchDoneEvent {
    pub total: usize,
    pub success: usize,
    pub failed: usize,
    pub total_saved_bytes: i64,
}

/// One emitted event, as recorded in the engine's trail.
pub enum BatchEvent {
    Progress(ProgressEvent),
    ItemDone(ItemDoneEvent),
    ItemError(ItemErrorEvent),
    Summary(BatchDoneEvent),
}

/// An event trail is item-interleaved up to `done` items: event `2i` is
/// the progress event for item `i` (with `done == i`) and event `2i + 1`
/// is its result, success or error.
pub open spec fn spec_interleaved(trail: Seq<BatchEvent>, done: int) -> bool {
    trail.len() == 2 * done && forall|i: int|
        0 <= i < done ==> ((#[trigger] trail[2 * i]) matches BatchEvent::Progress(p)
            && p.done == i && (trail[2 * i + 1] matches BatchEvent::ItemDone(_)
            || trail[2 * i + 1] matches BatchEvent::ItemError(_)))
}

/// The batch engine: counts and flags for one run, plus the ghost trail
/// of every event handed out so far.
pub struct BatchEngine {
    /// How many items the run was started with.
    pub total: usize,
    /// Items finished so far, successes and failures together.
    pub done: usize,
    /// Items that succeeded.
    pub success: usize,
    /// Items that failed.
    pub failed: usize,
    /// Sum of `saved_bytes` over the successful items.
    pub total_saved_bytes: i64,
    /// Set by `cancel`; checked by the driver before each item.
    pub cancelled: bool,
    /// An item's progress event is out but its result is not yet in.
    pub in_item: bool,
    /// The summary has been handed out; the run is over.
    pub finished: bool,
    /// Every event handed out, in order.
    pub trail: Ghost<Seq<BatchEvent>>,
}

impl BatchEngine {
    /// The engine's invariant: counts agree, and the trail is the
    /// item-interleaved history demanded of a run, with the summary (and
    /// nothing else) after the last item once the run is over.
    pub open spec fn wf(self) -> bool {
        &&& self.done == self.success + self.failed
        &&& self.done <= self.total
        &&& !self.finished ==> !self.in_item ==> spec_interleaved(self.trail@, self.done as int)
        &&& !self.finished ==> self.in_item ==> (self.done < self.total && self.trail@.len() == 2
            * self.done + 1 && spec_interleaved(
            self.trail@.drop_last(),
            self.done as int,
        ) && (self.trail@.last() matches BatchEvent::Progress(p) && p.done == self.done))
        &&& self.finished ==> (!self.in_item && self.trail@.len() == 2 * self.done + 1
            && spec_interleaved(
            self.trail@.drop_last(),
            self.done as int,
        ) && (self.trail@.last() matches BatchEvent::Summary(s) && s.total == self.total
            && s.success == self.success && s.failed == self.failed && s.total_saved_bytes
            == self.total_saved_bytes))
    }

    /// Starts a run over `total` items with clean counters and an empty
    /// trail.
    pub fn new(total: usize) -> (r: BatchEngine)
        ensures
            r.wf(),
            r.total == total,
            r.done == 0 && r.success == 0 && r.failed == 0 && r.total_saved_bytes == 0,
            !r.cancelled && !r.in_item && !r.finished,
            r.trail@ =~= Seq::<BatchEvent>::empty(),
    {
        BatchEngine {
            total,
            done: 0,
            success: 0,
            failed: 0,
            total_saved_bytes: 0,
            cancelled: false,
            in_item: false,
            finished: false,
            trail: Ghost(Seq::empty()),
        }
    }

    /// Requests cooperative cancellation; nothing else changes, and the
    /// driver stops starting new items once it observes the flag.
    pub fn cancel(&mut self)
        ensures
            *final(self) == (BatchEngine { cancelled: true, ..*old(self) }),
    {
        self.cancelled = true;
    }

    /// Whether the driver should start another item: the run is not over,
    /// not cancelled, and items remain.
    pub fn should_continue(&self) -> (r: bool)
        ensures
            r == (!self.finished && !self.cancelled && !self.in_item && self.done < self.total),
    {
        !self.finished && !self.cancelled && !self.in_item && self.done < self.total
    }

    /// Opens the next item and hands out its progress event, which
    /// reports the items completed so far and the integer percentage.
    pub fn begin_item(&mut self, current_file: String) -> (ev: ProgressEvent)
        requires
            old(self).wf(),
            !old(self).finished,
            !old(self).in_item,
            !old(self).cancelled,
            old(self).done < old(self).total,
        ensures
            final(self).wf(),
            *final(self) == (BatchEngine {
                in_item: true,
                trail: final(self).trail,
                ..*old(self)
            }),
            final(self).trail@ =~= old(self).trail@.push(BatchEvent::Progress(ev)),
            ev.total == old(self).total && ev.done == old(self).done && ev.current_file@
                == current_file@,
            ev.percent == old(self).done as int * 100 / old(self).total as int,
    {
        let percent: u32 = ((self.done as u128) * 100 / (self.total as u128)) as u32;
        proof {
            vstd::arithmetic::mul::lemma_mul_inequality(
                old(self).done as int,
                old(self).total as int,
                100,
            );
            vstd::arithmetic::div_mod::lemma_div_is_ordered(
                old(self).done as int * 100,
                old(self).total as int * 100,
                old(self).total as int,
            );
            vstd::arithmetic::div_mod::lemma_div_multiples_vanish(
                100,
                old(self).total as int,
            );
        }
        let ev = ProgressEvent {
            total: self.total,
            done: self.done,
            current_file,
            percent,
        };
        proof {
            self.trail@ = self.trail@.push(BatchEvent::Progress(ev));
        }
        self.in_item = true;
        ev
    }

    /// Closes the open item as a success, accumulates its saved bytes
    /// with saturation, and hands out its result event.
    pub fn finish_item_ok(
        &mut self,
        file: String,
        out_file: String,
        saved_bytes: i64,
        out_size_bytes: u64,
        out_width: u32,
        out_height: u32,
    ) -> (ev: ItemDoneEvent)
        requires
            old(self).wf(),
            !old(self).finished,
            old(self).in_item,
        ensures
            final(self).wf(),
            final(self).done == old(self).done + 1,
            final(self).success == old(self).success + 1,
            final(self).failed == old(self).failed,
            final(self).total == old(self).total,
            final(self).cancelled == old(self).cancelled,
            !final(self).in_item && !final(self).finished,
            final(self).total_saved_bytes == crate::engine::spec_saturating_add_i64(
                old(self).total_saved_bytes as int,
                saved_bytes as int,
            ),
            final(self).trail@ =~= old(self).trail@.push(BatchEvent::ItemDone(ev)),
            ev.file@ == file@ && ev.out_file@ == out_file@ && ev.saved_bytes == saved_bytes
                && ev.out_size_bytes == out_size_bytes && ev.out_width == out_width
                && ev.out_height == out_height,
    {
        let ev = ItemDoneEvent { file, out_file, saved_bytes, out_size_bytes, out_width, out_height };
        proof {
            self.trail@ = self.trail@.push(BatchEvent::ItemDone(ev));
        }
        self.in_item = false;
        self.success = self.success + 1;
        self.done = self.done + 1;
        self.total_saved_bytes = saturating_add_i64(self.total_saved_bytes, saved_bytes);
        proof {
            assert(self.trail@.drop_last() =~= old(self).trail@);
            assert(self.trail@.drop_last().drop_last() =~= old(self).trail@.drop_last());
            assert(self.trail@[2 * old(self).done as int] == old(self).trail@.last());
            lemma_interleave_extend(self.trail@, old(self).done as int);
        }
        ev
    }

    /// Closes the open item as a failure and hands out its error event;
    /// the batch goes on.
    pub fn finish_item_err(&mut self, file: String, message: String) -> (ev: ItemErrorEvent)
        requires
            old(self).wf(),
            !old(self).finished,
            old(self).in_item,
        ensures
            final(self).wf(),
            final(self).done == old(self).done + 1,
            final(self).failed == old(self).failed + 1,
            final(self).success == old(self).success,
            final(self).total == old(self).total,
            final(self).cancelled == old(self).cancelled,
            final(self).total_saved_bytes == old(self).total_saved_bytes,
            !final(self).in_item && !final(self).finished,
            final(self).trail@ =~= old(self).trail@.push(BatchEvent::ItemError(ev)),
            ev.file@ == file@ && ev.message@ == message@,
    {
        let ev = ItemErrorEvent { file, message };
        proof {
            self.trail@ = self.trail@.push(BatchEvent::ItemError(ev));
        }
        self.in_item = false;
        self.failed = self.failed + 1;
        self.done = self.done + 1;
        proof {
            assert(self.trail@.drop_last() =~= old(self).trail@);
            assert(self.trail@.drop_last().drop_last() =~= old(self).trail@.drop_last());
            assert(self.trail@[2 * old(self).done as int] == old(self).trail@.last());
            lemma_interleave_extend(self.trail@, old(self).done as int);
        }
        ev
    }

    /// Ends the run and hands out the one summary event, whether the item
    /// list was exhausted or the run was cancelled early. After this the
    /// engine accepts no further items.
    pub fn finish(&mut self) -> (ev: BatchDoneEvent)
        requires
            old(self).wf(),
            !old(self).finished,
            !old(self).in_item,
        ensures
            final(self).wf(),
            final(self).finished,
            final(self).done == old(self).done && final(self).success == old(self).success
                && final(self).failed == old(self).failed && final(self).total == old(self).total
                && final(self).total_saved_bytes == old(self).total_saved_bytes,
            final(self).trail@ =~= old(self).trail@.push(BatchEvent::Summary(ev)),
            ev.total == old(self).total && ev.success == old(self).success && ev.failed == old(
                self,
            ).failed && ev.total_saved_bytes == old(self).total_saved_bytes,
            spec_interleaved(final(self).trail@.drop_last(), final(self).done as int),
    {
        let ev = BatchDoneEvent {
            total: self.total,
            success: self.success,
            failed: self.failed,
            total_saved_bytes: self.total_saved_bytes,
        };
        proof {
            self.trail@ = self.trail@.push(BatchEvent::Summary(ev));
            assert(self.trail@.drop_last() =~= old(self).trail@);
        }
        self.finished = true;
        ev
    }
}

/// Signed 64-bit addition clamped at the extremes.
pub open spec fn spec_saturating_add_i64(a: int, b: int) -> int {
    if a + b > i64::MAX {
        i64::MAX as int
    } else if a + b < i64::MIN {
        i64::MIN as int
    } else {
        a + b
    }
}

/// Adds two signed counters without overflow, clamping at the extremes.
pub fn saturating_add_i64(a: i64, b: i64) -> (r: i64)
    ensures
        r == spec_saturating_add_i64(a as int, b as int),
{
    let wide: i128 = (a as i128) + (b as i128);
    if wide > i64::MAX as i128 {
        i64::MAX
    } else if wide < i64::MIN as i128 {
        i64::MIN
    } else {
        wide as i64
    }
}

/// Pushing an item's result onto a trail whose last event is that item's
/// progress extends the interleaving by one item.
proof fn lemma_interleave_extend(trail: Seq<BatchEvent>, done: int)
    requires
        0 <= done,
        trail.len() >= 2,
        spec_interleaved(trail.drop_last().drop_last(), done),
        trail[2 * done] matches BatchEvent::Progress(p) && p.done == done,
        trail[2 * done + 1] matches BatchEvent::ItemDone(_) || trail[2 * done + 1]
            matches BatchEvent::ItemError(_),
    ensures
        spec_interleaved(trail, done + 1),
{
    let prefix = trail.drop_last().drop_last();
    assert(trail.len() == 2 * (done + 1));
    assert forall|i: int|
        0 <= i < done + 1 implies ((#[trigger] trail[2 * i]) matches BatchEvent::Progress(p)
        && p.done == i && (trail[2 * i + 1] matches BatchEvent::ItemDone(_) || trail[2 * i + 1]
        matches BatchEvent::ItemError(_))) by {
        if i < done {
            assert(prefix[2 * i] == trail[2 * i]);
            assert(prefix[2 * i + 1] == trail[2 * i + 1]);
        }
    }
}

/// The ordering law of a finished run: the trail is `progress(0),
/// result(0), progress(1), result(1), ..., summary`, with the summary
/// exactly once, as the last event, carrying the final counts.
pub proof fn lemma_sequential_ordering(e: BatchEngine)
    requires
        e.wf(),
        e.finished,
    ensures
        e.trail@.len() == 2 * e.done + 1,
        spec_interleaved(e.trail@.drop_last(), e.done as int),
        e.trail@.last() matches BatchEvent::Summary(s) && s.total == e.total && s.success
            == e.success && s.failed == e.failed,
        forall|i: int|
            0 <= i < e.trail@.len() - 1 ==> !((#[trigger] e.trail@[i]) matches BatchEvent::Summary(
                _,
            )),
{
    assert forall|i: int|
        0 <= i < e.trail@.len() - 1 implies !((#[trigger] e.trail@[i])
        matches BatchEvent::Summary(_)) by {
        let prefix = e.trail@.drop_last();
        assert(prefix[i] == e.trail@[i]);
        let j = i / 2;
        vstd::arithmetic::div_mod::lemma_fundamental_div_mod(i, 2);
        vstd::arithmetic::div_mod::lemma_mod_division_less_than_divisor(i, 2);
        if i % 2 == 0 {
            assert(prefix[2 * j] matches BatchEvent::Progress(_));
        } else {
            assert(prefix[2 * j] matches BatchEvent::Progress(_) && (prefix[2 * j + 1]
                matches BatchEvent::ItemDone(_) || prefix[2 * j + 1]
                matches BatchEvent::ItemError(_)));
        }
    }
}

} // verus!
