//! The real-time frame loops: what the capture and render callbacks do
//! with each buffer the audio backend delivers or requests.
//!
//! Both loops are non-blocking by construction: one bounded-channel push or
//! pop per sample slot, nothing else.  The capture side drops samples when
//! the channel is full, favouring bounded latency over completeness; the
//! render side substitutes silence when the channel runs dry, degrading
//! gracefully instead of stalling.  The caller (the backend's real-time
//! thread) hands frames in as plain sample words and takes them back out.

use vstd::prelude::*;
use crate::channel::{
    SampleConsumer, SampleProducer, SILENCE, consumer_pop, consumer_popped, consumer_preload,
    producer_budget, producer_push, producer_pushed,
};

verus! {

/// `a` is `b` with some samples left out: the samples of `a` appear in `b`
/// in the same order, none duplicated and none invented.
pub open spec fn subsequence_of(a: Seq<u32>, b: Seq<u32>) -> bool
    decreases b.len(),
{
    if a.len() == 0 {
        true
    } else if b.len() == 0 {
        false
    } else if a.first() == b.first() && subsequence_of(a.drop_first(), b.drop_first()) {
        true
    } else {
        subsequence_of(a, b.drop_first())
    }
}

proof fn lemma_single_subsequence_of_push(b: Seq<u32>, x: u32)
    ensures
        subsequence_of(seq![x], b.push(x)),
    decreases b.len(),
{
    assert(seq![x].drop_first() =~= Seq::<u32>::empty());
    if b.len() == 0 {
        assert(b.push(x).first() == x);
        assert(subsequence_of(seq![x].drop_first(), b.push(x).drop_first()));
        assert(subsequence_of(seq![x], b.push(x)));
    } else {
        lemma_single_subsequence_of_push(b.drop_first(), x);
        assert(b.push(x).drop_first() =~= b.drop_first().push(x));
        assert(subsequence_of(seq![x].drop_first(), b.push(x).drop_first()));
        assert(subsequence_of(seq![x], b.push(x)));
    }
}

/// Appending the same sample to both sides preserves the subsequence
/// relation.
proof fn lemma_subsequence_push_both(a: Seq<u32>, b: Seq<u32>, x: u32)
    requires
        subsequence_of(a, b),
    ensures
        subsequence_of(a.push(x), b.push(x)),
    decreases b.len(),
{
    if a.len() == 0 {
        assert(a.push(x) =~= seq![x]);
        lemma_single_subsequence_of_push(b, x);
    } else {
        assert(b.len() > 0);
        assert(b.push(x).drop_first() =~= b.drop_first().push(x));
        if a.first() == b.first() && subsequence_of(a.drop_first(), b.drop_first()) {
            lemma_subsequence_push_both(a.drop_first(), b.drop_first(), x);
            assert(a.push(x).drop_first() =~= a.drop_first().push(x));
            assert(a.push(x).first() == b.push(x).first());
        } else {
            lemma_subsequence_push_both(a, b.drop_first(), x);
        }
    }
}

/// A sample appended only on the right preserves the subsequence relation.
proof fn lemma_subsequence_push_right(a: Seq<u32>, b: Seq<u32>, x: u32)
    requires
        subsequence_of(a, b),
    ensures
        subsequence_of(a, b.push(x)),
    decreases b.len(),
{
    if a.len() > 0 {
        assert(b.len() > 0);
        assert(b.push(x).drop_first() =~= b.drop_first().push(x));
        if a.first() == b.first() && subsequence_of(a.drop_first(), b.drop_first()) {
            lemma_subsequence_push_right(a.drop_first(), b.drop_first(), x);
        } else {
            lemma_subsequence_push_right(a, b.drop_first(), x);
        }
    }
}

/// The capture side of the passthrough: one non-blocking push per sample of
/// the delivered frame, in frame order; a full channel drops the sample and
/// the loop carries on.  Returns how many samples the channel accepted.
///
/// The accepted samples extend the writer end's history by a subsequence of
/// the frame — in frame order, never reordered, never duplicated — and as
/// long as the writer end's guaranteed budget is not exhausted, every
/// sample of the frame is accepted.
pub fn capture_frame(p: &mut SampleProducer, samples: &Vec<u32>) -> (accepted: usize)
    ensures
        producer_budget(*final(p)) == producer_budget(*old(p)),
        accepted <= samples@.len(),
        producer_pushed(*final(p)).len() == producer_pushed(*old(p)).len() + accepted,
        producer_pushed(*old(p)).is_prefix_of(producer_pushed(*final(p))),
        subsequence_of(
            producer_pushed(*final(p)).skip(producer_pushed(*old(p)).len() as int),
            samples@,
        ),
        producer_pushed(*old(p)).len() + samples@.len() <= producer_budget(*old(p)) ==> (
            producer_pushed(*final(p)) == producer_pushed(*old(p)) + samples@
            && accepted == samples@.len()
        ),
{
    let ghost base = producer_pushed(*p);
    let mut accepted: usize = 0;
    let mut i: usize = 0;
    while i < samples.len()
        invariant
            i <= samples@.len(),
            accepted <= i,
            producer_budget(*p) == producer_budget(*old(p)),
            producer_pushed(*p).len() == base.len() + accepted,
            base.is_prefix_of(producer_pushed(*p)),
            base == producer_pushed(*old(p)),
            subsequence_of(producer_pushed(*p).skip(base.len() as int), samples@.take(i as int)),
            base.len() + samples@.len() <= producer_budget(*old(p)) ==> (
                producer_pushed(*p) == base + samples@.take(i as int)
                && accepted == i
            ),
        decreases samples@.len() - i,
    {
        let ghost pushed_before = producer_pushed(*p);
        let ok = producer_push(p, samples[i]);
        proof {
            assert(samples@.take((i + 1) as int) =~= samples@.take(i as int).push(samples@[i as int]));
            if ok {
                assert(producer_pushed(*p).skip(base.len() as int)
                    =~= pushed_before.skip(base.len() as int).push(samples@[i as int]));
                lemma_subsequence_push_both(
                    pushed_before.skip(base.len() as int),
                    samples@.take(i as int),
                    samples@[i as int],
                );
                if base.len() + samples@.len() <= producer_budget(*old(p)) {
                    assert(producer_pushed(*p) =~= base + samples@.take((i + 1) as int));
                }
            } else {
                lemma_subsequence_push_right(
                    pushed_before.skip(base.len() as int),
                    samples@.take(i as int),
                    samples@[i as int],
                );
            }
        }
        if ok {
            accepted = accepted + 1;
        }
        i = i + 1;
    }
    proof {
        assert(samples@.take(samples@.len() as int) =~= samples@);
    }
    accepted
}

/// The render side of the passthrough: one non-blocking pop per sample slot
/// of the requested frame, in slot order; an empty channel yields silence
/// for that slot and the loop carries on.
///
/// The samples actually popped appear in the frame in pop order — silence
/// fills the gaps, nothing is reordered or duplicated — and while the
/// reader end is still serving its pre-fill, the frame is exactly the next
/// stretch of it.
pub fn render_frame(c: &mut SampleConsumer, len: usize) -> (out: Vec<u32>)
    ensures
        out@.len() == len as nat,
        consumer_preload(*final(c)) == consumer_preload(*old(c)),
        consumer_popped(*old(c)).is_prefix_of(consumer_popped(*final(c))),
        consumer_popped(*final(c)).len() <= consumer_popped(*old(c)).len() + len,
        subsequence_of(
            consumer_popped(*final(c)).skip(consumer_popped(*old(c)).len() as int),
            out@,
        ),
        consumer_popped(*final(c)) == consumer_popped(*old(c))
            ==> out@ == Seq::new(len as nat, |i: int| SILENCE),
        consumer_popped(*old(c)).len() + len <= consumer_preload(*old(c)).len() ==> (
            out@ == consumer_preload(*old(c)).subrange(
                consumer_popped(*old(c)).len() as int,
                consumer_popped(*old(c)).len() + len as int,
            )
            && consumer_popped(*final(c)) == consumer_popped(*old(c)) + out@
        ),
{
    let ghost base = consumer_popped(*c);
    let mut out: Vec<u32> = Vec::new();
    let mut i: usize = 0;
    while i < len
        invariant
            i <= len,
            out@.len() == i as nat,
            consumer_preload(*c) == consumer_preload(*old(c)),
            base == consumer_popped(*old(c)),
            base.is_prefix_of(consumer_popped(*c)),
            consumer_popped(*c).len() <= base.len() + i,
            subsequence_of(consumer_popped(*c).skip(base.len() as int), out@),
            consumer_popped(*c) == base ==> out@ == Seq::new(i as nat, |j: int| SILENCE),
            base.len() + len <= consumer_preload(*old(c)).len() ==> (
                out@ == consumer_preload(*old(c)).subrange(base.len() as int, base.len() + i as int)
                && consumer_popped(*c) == base + out@
            ),
        decreases len - i,
    {
        let ghost popped_before = consumer_popped(*c);
        let ghost out_before = out@;
        let r = consumer_pop(c);
        let s = match r {
            Option::Some(s) => s,
            Option::None => SILENCE,
        };
        out.push(s);
        i = i + 1;
        proof {
            match r {
                Option::Some(v) => {
                    assert(consumer_popped(*c).skip(base.len() as int)
                        =~= popped_before.skip(base.len() as int).push(v));
                    lemma_subsequence_push_both(
                        popped_before.skip(base.len() as int),
                        out_before,
                        v,
                    );
                },
                Option::None => {
                    lemma_subsequence_push_right(
                        popped_before.skip(base.len() as int),
                        out_before,
                        SILENCE,
                    );
                    if consumer_popped(*c) == base {
                        assert(out@ =~= Seq::new(i as nat, |j: int| SILENCE));
                    }
                },
            }
            if base.len() + len <= consumer_preload(*old(c)).len() {
                assert(out@ =~= consumer_preload(*old(c)).subrange(base.len() as int, base.len() + i as int));
                assert(consumer_popped(*c) =~= base + out@);
            }
        }
    }
    out
}

} // verus!
