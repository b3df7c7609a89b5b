//! The bounded sample channel: a fixed-capacity single-producer /
//! single-consumer FIFO of samples, backed by a lock-free ring buffer.
//!
//! The buffer is built once, pre-filled with silence so the render side has
//! a cushion against scheduling skew at startup, and then split into a
//! writer end and a reader end.  The two ends are separately owned and never
//! cloned: the writer end goes to the capture context, the reader end to the
//! render context.  Both operations are non-blocking: a push onto a full
//! buffer drops the sample, a pop from an empty buffer reports so and the
//! caller substitutes silence.
//!
//! The trusted surface is kept to the ring buffer calls themselves.  Each
//! end carries an abstract history: `producer_pushed` is the sequence of
//! samples the writer end has successfully pushed since the split,
//! `consumer_popped` the sequence the reader end has received.  Since the
//! other end may run concurrently, a contract on one end states only what
//! holds whatever the other end does meanwhile.

use vstd::prelude::*;
use vstd::assert_seqs_equal;
use ringbuf::traits::{Consumer, Producer, Split};

verus! {

/// The sample bit pattern of silence (amplitude zero).
pub const SILENCE: u32 = 0;

/// A whole, still-unsplit ring buffer, exclusively owned, so its contents
/// are exactly known.  Only construction and pre-fill happen in this form.
#[verifier::external_body]
pub struct ChannelBuffer {
    inner: ringbuf::HeapRb<u32>,
}

/// The writer end of a split channel; owned by the capture context alone.
#[verifier::external_body]
pub struct SampleProducer {
    inner: ringbuf::HeapProd<u32>,
}

/// The reader end of a split channel; owned by the render context alone.
#[verifier::external_body]
pub struct SampleConsumer {
    inner: ringbuf::HeapCons<u32>,
}

/// The samples an unsplit buffer holds, oldest first.
pub uninterp spec fn buffer_contents(b: ChannelBuffer) -> Seq<u32>;

/// The fixed capacity an unsplit buffer was built with.
pub uninterp spec fn buffer_capacity(b: ChannelBuffer) -> nat;

/// The samples this writer end has successfully pushed since the split,
/// oldest first.
pub uninterp spec fn producer_pushed(p: SampleProducer) -> Seq<u32>;

/// The number of slots that were free at the split: pushes are guaranteed to
/// succeed at least until this many have been accepted, whatever the reader
/// does meanwhile.
pub uninterp spec fn producer_budget(p: SampleProducer) -> nat;

/// The samples this reader end has popped since the split, oldest first.
pub uninterp spec fn consumer_popped(c: SampleConsumer) -> Seq<u32>;

/// The samples that were already in the buffer at the split.  They leave
/// first, in order, before anything the writer pushes afterwards.
pub uninterp spec fn consumer_preload(c: SampleConsumer) -> Seq<u32>;

/// One non-blocking push on a bounded FIFO holding `buf` out of `cap` slots:
/// a free slot takes the sample at the back, a full buffer drops it.
pub open spec fn push_model(buf: Seq<u32>, cap: nat, s: u32) -> Seq<u32> {
    if buf.len() < cap {
        buf.push(s)
    } else {
        buf
    }
}

/// One non-blocking pop on a bounded FIFO: the eldest sample leaves, an
/// empty buffer stays empty and the caller substitutes silence.
pub open spec fn pop_model(buf: Seq<u32>) -> (Seq<u32>, Option<u32>) {
    if buf.len() == 0 {
        (buf, Option::None)
    } else {
        (buf.drop_first(), Option::Some(buf.first()))
    }
}

/// One operation on the channel, as the model sees it: a push carrying its
/// sample, or a pop.
pub enum ChannelOp {
    PushSample(u32),
    PopSample,
}

/// The buffer left after one operation of the model.
pub open spec fn apply_op(buf: Seq<u32>, cap: nat, op: ChannelOp) -> Seq<u32> {
    match op {
        ChannelOp::PushSample(s) => push_model(buf, cap, s),
        ChannelOp::PopSample => pop_model(buf).0,
    }
}

/// The buffer left after a whole sequence of operations, first to last.
pub open spec fn apply_ops(buf: Seq<u32>, cap: nat, ops: Seq<ChannelOp>) -> Seq<u32>
    decreases ops.len(),
{
    if ops.len() == 0 {
        buf
    } else {
        apply_ops(apply_op(buf, cap, ops.first()), cap, ops.drop_first())
    }
}

/// The buffer left after pushing a whole frame of samples, first to last,
/// with no interleaved pops.
pub open spec fn push_all_model(buf: Seq<u32>, cap: nat, samples: Seq<u32>) -> Seq<u32>
    decreases samples.len(),
{
    if samples.len() == 0 {
        buf
    } else {
        push_all_model(push_model(buf, cap, samples.first()), cap, samples.drop_first())
    }
}

/// Popping a buffer dry yields its samples, eldest first.
pub open spec fn drain_model(buf: Seq<u32>) -> Seq<u32>
    decreases buf.len(),
{
    if buf.len() == 0 {
        Seq::<u32>::empty()
    } else {
        seq![pop_model(buf).1->Some_0] + drain_model(pop_model(buf).0)
    }
}

/// Under any sequence of pushes and pops, the buffer never holds more than
/// its capacity: a push onto a full buffer drops the sample instead of
/// growing, and a pop never grows it.
pub proof fn lemma_capacity_never_exceeded(buf: Seq<u32>, cap: nat, ops: Seq<ChannelOp>)
    requires
        buf.len() <= cap,
    ensures
        apply_ops(buf, cap, ops).len() <= cap,
    decreases ops.len(),
{
    if ops.len() > 0 {
        lemma_capacity_never_exceeded(apply_op(buf, cap, ops.first()), cap, ops.drop_first());
    }
}

/// Pushing a frame with no interleaved pops accepts exactly the samples
/// that fit — the first `cap - buf.len()` of them — and appends them behind
/// the buffer in arrival order; the rest are dropped, none reordered and
/// none duplicated.
pub proof fn lemma_push_order_preserved(buf: Seq<u32>, cap: nat, samples: Seq<u32>)
    requires
        buf.len() <= cap,
    ensures
        push_all_model(buf, cap, samples)
            == buf + samples.take(vstd::math::min((cap - buf.len()) as int, samples.len() as int)),
    decreases samples.len(),
{
    if samples.len() == 0 {
        assert_seqs_equal!(push_all_model(buf, cap, samples), buf + samples.take(0));
    } else if buf.len() < cap {
        lemma_push_order_preserved(buf.push(samples.first()), cap, samples.drop_first());
        let k = vstd::math::min((cap - buf.len()) as int, samples.len() as int);
        assert_seqs_equal!(
            buf.push(samples.first())
                + samples.drop_first().take(
                    vstd::math::min((cap - buf.push(samples.first()).len()) as int, samples.drop_first().len() as int)),
            buf + samples.take(k)
        );
    } else {
        lemma_push_order_preserved(buf, cap, samples.drop_first());
        assert_seqs_equal!(
            buf + samples.drop_first().take(
                vstd::math::min((cap - buf.len()) as int, samples.drop_first().len() as int)),
            buf + samples.take(vstd::math::min((cap - buf.len()) as int, samples.len() as int))
        );
    }
}

/// Draining the buffer returns its samples eldest first, exactly as they
/// stand: pops neither reorder nor duplicate.
pub proof fn lemma_drain_in_order(buf: Seq<u32>)
    ensures
        drain_model(buf) == buf,
    decreases buf.len(),
{
    if buf.len() > 0 {
        lemma_drain_in_order(buf.drop_first());
        assert_seqs_equal!(drain_model(buf), buf);
    }
}

/// The round trip: a frame of samples pushed into a buffer holding `buf`
/// and then popped out in full comes back as `buf` followed by the accepted
/// prefix of the frame, in push order — gaps only where a full buffer
/// dropped, never a reordering or a duplicate.
pub proof fn lemma_fifo_round_trip(buf: Seq<u32>, cap: nat, samples: Seq<u32>)
    requires
        buf.len() <= cap,
    ensures
        drain_model(push_all_model(buf, cap, samples))
            == buf + samples.take(vstd::math::min((cap - buf.len()) as int, samples.len() as int)),
{
    lemma_push_order_preserved(buf, cap, samples);
    lemma_drain_in_order(push_all_model(buf, cap, samples));
}

/// Relies on ringbuf's `SharedRb::new` (behind the `HeapRb` alias): a fresh
/// ring buffer with `capacity` slots, holding nothing.  It panics on a zero
/// capacity, which the precondition rules out.
#[verifier::external_body]
fn new_buffer(capacity: usize) -> (b: ChannelBuffer)
    requires
        1 <= capacity,
    ensures
        buffer_contents(b) == Seq::<u32>::empty(),
        buffer_capacity(b) == capacity as nat,
{
    ChannelBuffer { inner: ringbuf::HeapRb::new(capacity) }
}

/// Relies on ringbuf's `Producer::try_push`, called on the still-unsplit,
/// exclusively owned buffer: the sample is appended at the back exactly when
/// a slot is free, and a full buffer returns it back unchanged.
#[verifier::external_body]
fn buffer_push(b: &mut ChannelBuffer, s: u32) -> (ok: bool)
    ensures
        buffer_capacity(*final(b)) == buffer_capacity(*old(b)),
        ok == (buffer_contents(*old(b)).len() < buffer_capacity(*old(b))),
        buffer_contents(*final(b)) == push_model(buffer_contents(*old(b)), buffer_capacity(*old(b)), s),
{
    b.inner.try_push(s).is_ok()
}

/// Relies on ringbuf's `Split::split`: the two ends of the one buffer.  The
/// reader end starts with the buffer's contents still pending; the writer
/// end starts with a fresh history and as many guaranteed slots as the
/// buffer had free.
#[verifier::external_body]
fn split_buffer(b: ChannelBuffer) -> (ends: (SampleProducer, SampleConsumer))
    ensures
        producer_pushed(ends.0) == Seq::<u32>::empty(),
        producer_budget(ends.0) == (buffer_capacity(b) - buffer_contents(b).len()) as nat,
        consumer_popped(ends.1) == Seq::<u32>::empty(),
        consumer_preload(ends.1) == buffer_contents(b),
{
    let (p, c) = b.inner.split();
    (SampleProducer { inner: p }, SampleConsumer { inner: c })
}

/// Relies on ringbuf's `Producer::try_push` on the writer end: the sample is
/// accepted and appended to this end's push history, or the buffer was full
/// and nothing changes.  A push fails only on a truly full buffer, and the
/// reader can only free slots, so pushes succeed at least until the slots
/// free at the split are used up.
#[verifier::external_body]
pub(crate) fn producer_push(p: &mut SampleProducer, s: u32) -> (ok: bool)
    ensures
        producer_budget(*final(p)) == producer_budget(*old(p)),
        ok ==> producer_pushed(*final(p)) == producer_pushed(*old(p)).push(s),
        !ok ==> producer_pushed(*final(p)) == producer_pushed(*old(p)),
        producer_pushed(*old(p)).len() < producer_budget(*old(p)) ==> ok,
{
    p.inner.try_push(s).is_ok()
}

/// Relies on ringbuf's `Consumer::try_pop` on the reader end: the eldest
/// sample is removed and returned, or the buffer was empty and nothing
/// changes.  The samples present at the split leave first, in order; the
/// writer can only add behind them, so they cannot run out early.
#[verifier::external_body]
pub(crate) fn consumer_pop(c: &mut SampleConsumer) -> (r: Option<u32>)
    ensures
        consumer_preload(*final(c)) == consumer_preload(*old(c)),
        match r {
            Option::Some(s) => consumer_popped(*final(c)) == consumer_popped(*old(c)).push(s),
            Option::None => consumer_popped(*final(c)) == consumer_popped(*old(c))
                && consumer_popped(*old(c)).len() >= consumer_preload(*old(c)).len(),
        },
        consumer_popped(*old(c)).len() < consumer_preload(*old(c)).len()
            ==> r == Option::Some(consumer_preload(*old(c))[consumer_popped(*old(c)).len() as int]),
{
    c.inner.try_pop()
}

/// Build the bounded sample channel: a buffer of `capacity` slots,
/// pre-filled with `prefill` silence samples, split into its two ends.
///
/// Immediately afterwards the reader end can pop exactly the `prefill`
/// silence samples, in order, before any producer activity, and the writer
/// end is guaranteed `capacity - prefill` successful pushes.
pub fn new_channel(capacity: usize, prefill: usize) -> (ends: (SampleProducer, SampleConsumer))
    requires
        1 <= capacity,
        prefill <= capacity,
    ensures
        producer_pushed(ends.0) == Seq::<u32>::empty(),
        producer_budget(ends.0) == (capacity - prefill) as nat,
        consumer_popped(ends.1) == Seq::<u32>::empty(),
        consumer_preload(ends.1) == Seq::new(prefill as nat, |i: int| SILENCE),
{
    let mut b = new_buffer(capacity);
    let mut i: usize = 0;
    while i < prefill
        invariant
            i <= prefill <= capacity,
            buffer_capacity(b) == capacity as nat,
            buffer_contents(b) == Seq::new(i as nat, |j: int| SILENCE),
        decreases prefill - i,
    {
        let _ = buffer_push(&mut b, SILENCE);
        i = i + 1;
        proof {
            assert_seqs_equal!(buffer_contents(b), Seq::new(i as nat, |j: int| SILENCE));
        }
    }
    split_buffer(b)
}

} // verus!
