//! What holds of the inbound bridge across calls: bytes come out in the order
//! they went in, none lost or repeated, and the queue's bound loses nothing.
use vstd::prelude::*;

use crate::bridge::{BridgeView, DeliveryKind, FillStatus, InputState, ReadOutcome, Step, min_nat};

verus! {

/// A delivery keeps the state well formed and appends exactly the accepted
/// chunk to the bytes that the reader has yet to see.
pub proof fn lemma_deliver_appends(v: BridgeView, chunk: Seq<u8>)
    requires
        v.wf(),
    ensures
        v.deliver_step(chunk).0.wf(),
        v.deliver_step(chunk).0.pending() == v.pending() + (if v.deliver_step(chunk).1
            == DeliveryKind::Accepted {
            chunk
        } else {
            Seq::empty()
        }),
{
    let (w, k) = v.deliver_step(chunk);
    if k == DeliveryKind::Accepted {
        if chunk.len() == 0 {
            assert(v.pending() + chunk =~= v.pending());
        } else {
            v.chunks.lemma_flatten_push(chunk);
            assert(w.pending() =~= v.pending() + chunk);
        }
    } else {
        assert(v.pending() + Seq::<u8>::empty() =~= v.pending());
    }
}

/// A read keeps the state well formed, hands out at most `len` bytes, and
/// what it hands out is exactly the front of the bytes yet to be seen.
pub proof fn lemma_read_takes_front(v: BridgeView, len: nat)
    requires
        v.wf(),
    ensures
        v.read_step(len).0.wf(),
        v.read_step(len).2.len() <= len,
        v.pending() == v.read_step(len).2 + v.read_step(len).0.pending(),
        v.read_step(len).1 == ReadOutcome::Data(v.read_step(len).2.len() as usize) || (
        v.read_step(len).2.len() == 0 && v.pending().len() == 0),
{
    let (w, r, out) = v.read_step(len);
    if v.carry.len() > 0 {
        let n = min_nat(v.carry.len(), len);
        assert(v.carry =~= v.carry.take(n as int) + v.carry.skip(n as int));
        assert(v.pending() =~= out + w.pending());
    } else if v.chunks.len() > 0 {
        let c = v.chunks[0];
        let n = min_nat(c.len(), len);
        assert(v.chunks.flatten() == c + v.chunks.drop_first().flatten());
        assert(c =~= c.take(n as int) + c.skip(n as int));
        assert(v.pending() =~= out + w.pending());
        assert forall|i: int| 0 <= i < w.chunks.len() implies (#[trigger] w.chunks[i]).len() > 0 by {
            assert(w.chunks[i] == v.chunks[i + 1]);
        }
    } else {
        assert(v.chunks.flatten() =~= Seq::<u8>::empty());
        assert(v.pending() =~= out + w.pending());
    }
}

/// Chunk reassembly: over any run of deliveries and reads, the bytes already
/// buffered followed by every accepted chunk equal the bytes handed to the
/// reader followed by the bytes still buffered. Nothing is dropped, repeated
/// or reordered, whatever sizes the reads ask for.
pub proof fn lemma_reassembly(v: BridgeView, steps: Seq<Step>)
    requires
        v.wf(),
    ensures
        v.run(steps).wf(),
        v.pending() + v.accepted_bytes(steps) == v.read_bytes(steps) + v.run(steps).pending(),
    decreases steps.len(),
{
    if steps.len() == 0 {
        assert(v.pending() + Seq::<u8>::empty() =~= Seq::<u8>::empty() + v.pending());
    } else {
        let w = v.apply(steps[0]);
        let rest = steps.drop_first();
        lemma_reassembly(w, rest);
        match steps[0] {
            Step::Deliver(c) => {
                lemma_deliver_appends(v, c);
                let here = if v.deliver_step(c).1 == DeliveryKind::Accepted {
                    c
                } else {
                    Seq::empty()
                };
                assert(v.accepted_bytes(steps) == here + w.accepted_bytes(rest));
                assert(v.read_bytes(steps) =~= w.read_bytes(rest));
                assert(v.pending() + v.accepted_bytes(steps) =~= w.pending() + w.accepted_bytes(
                    rest,
                ));
            },
            Step::Read(len) => {
                lemma_read_takes_front(v, len);
                let out = v.read_step(len).2;
                assert(v.accepted_bytes(steps) =~= w.accepted_bytes(rest));
                assert(v.read_bytes(steps) == out + w.read_bytes(rest));
                assert(v.pending() + v.accepted_bytes(steps) =~= out + (w.pending()
                    + w.accepted_bytes(rest)));
                assert(v.read_bytes(steps) + v.run(steps).pending() =~= out + (w.read_bytes(rest)
                    + w.run(rest).pending()));
            },
        }
    }
}

/// Starting from an empty bridge, the bytes handed to the reader are always
/// a prefix of the concatenation of the accepted chunks.
pub proof fn lemma_reads_are_prefix_of_deliveries(v: BridgeView, steps: Seq<Step>)
    requires
        v.wf(),
        v.pending().len() == 0,
    ensures
        v.read_bytes(steps).len() <= v.accepted_bytes(steps).len(),
        v.read_bytes(steps) == v.accepted_bytes(steps).take(v.read_bytes(steps).len() as int),
{
    lemma_reassembly(v, steps);
    let a = v.accepted_bytes(steps);
    let r = v.read_bytes(steps);
    assert(v.pending() =~= Seq::<u8>::empty());
    assert(v.pending() + a =~= a);
    assert((r + v.run(steps).pending()).take(r.len() as int) =~= r);
}

/// Short read: with nothing carried over, a chunk shorter than the buffer is
/// handed out whole, its length is reported, and nothing is carried over.
pub proof fn lemma_short_read(v: BridgeView, len: nat)
    requires
        v.wf(),
        v.carry.len() == 0,
        v.chunks.len() > 0,
        v.chunks[0].len() <= len,
    ensures
        v.read_step(len).1 == ReadOutcome::Data(v.chunks[0].len() as usize),
        v.read_step(len).2 == v.chunks[0],
        v.read_step(len).0.carry.len() == 0,
        v.read_step(len).0.chunks == v.chunks.drop_first(),
{
    assert(v.chunks[0].take(v.chunks[0].len() as int) =~= v.chunks[0]);
}

/// Split chunk: with nothing carried over, a chunk longer than the buffer
/// fills it, and the next read, of any size, goes on exactly where the first
/// stopped.
pub proof fn lemma_split_chunk(v: BridgeView, len1: nat, len2: nat)
    requires
        v.wf(),
        v.carry.len() == 0,
        v.chunks.len() > 0,
        v.chunks[0].len() > len1,
    ensures
        v.read_step(len1).1 == ReadOutcome::Data(len1 as usize),
        v.read_step(len1).2 == v.chunks[0].take(len1 as int),
        v.read_step(len1).2 + v.read_step(len1).0.read_step(len2).2 == v.chunks[0].take(
            (len1 + min_nat((v.chunks[0].len() - len1) as nat, len2)) as int,
        ),
{
    let c = v.chunks[0];
    let w = v.read_step(len1).0;
    assert(w.carry == c.skip(len1 as int));
    if len2 > 0 {
        let m = min_nat((c.len() - len1) as nat, len2);
        assert(w.read_step(len2).2 == c.skip(len1 as int).take(m as int));
        assert(c.take(len1 as int) + c.skip(len1 as int).take(m as int) =~= c.take((len1 + m) as int));
    } else {
        assert(w.read_step(len2).2 =~= Seq::<u8>::empty());
        assert(c.take(len1 as int) + Seq::<u8>::empty() =~= c.take(len1 as int));
    }
}

/// Filling the buffer twice with no consume between gives the same status
/// and the same state, hence the same view of the buffered bytes.
pub proof fn lemma_fill_idempotent(v: BridgeView)
    requires
        v.wf(),
    ensures
        v.fill_step().0.fill_step() == v.fill_step(),
{
}

/// Filling the buffer never changes the bytes yet to be seen.
pub proof fn lemma_fill_keeps_pending(v: BridgeView)
    requires
        v.wf(),
    ensures
        v.fill_step().0.wf(),
        v.fill_step().0.pending() == v.pending(),
{
    let w = v.fill_step().0;
    if v.carry.len() == 0 && v.chunks.len() > 0 {
        assert(v.chunks.flatten() == v.chunks[0] + v.chunks.drop_first().flatten());
        assert(v.carry + v.chunks.flatten() =~= v.chunks[0] + v.chunks.drop_first().flatten());
        assert forall|i: int| 0 <= i < w.chunks.len() implies (#[trigger] w.chunks[i]).len() > 0 by {
            assert(w.chunks[i] == v.chunks[i + 1]);
        }
    }
}

/// Consuming as many bytes as a fill made visible empties the carry-over
/// buffer and leaves the queue as the fill left it.
pub proof fn lemma_consume_all(v: BridgeView)
    requires
        v.wf(),
        v.fill_step().1 == FillStatus::Ready,
    ensures
        v.fill_step().0.consume_step(v.fill_step().0.carry.len()).carry.len() == 0,
        v.fill_step().0.consume_step(v.fill_step().0.carry.len()).chunks == v.fill_step().0.chunks,
{
}

/// Backpressure: a full queue refuses one more chunk and leaves the state as
/// it was, so the refused chunk (handed back to the producer) is not lost;
/// a read that takes a chunk out then makes room, and the chunk is accepted.
pub proof fn lemma_full_queue_keeps_chunk(v: BridgeView, chunk: Seq<u8>, len: nat)
    requires
        v.wf(),
        v.input == InputState::Open,
        v.carry.len() == 0,
        v.chunks.len() == v.capacity,
        chunk.len() > 0,
    ensures
        v.deliver_step(chunk) == (v, DeliveryKind::Full),
        v.read_step(len).0.deliver_step(chunk).1 == DeliveryKind::Accepted,
        v.read_step(len).0.deliver_step(chunk).0.chunks == v.chunks.drop_first().push(chunk),
{
}

/// Chunks offered in turn and all accepted add exactly their bytes, in
/// order, to what the reader has yet to see.
pub proof fn lemma_deliver_all_appends(v: BridgeView, cs: Seq<Seq<u8>>)
    requires
        v.wf(),
        v.accepts_all(cs),
    ensures
        v.deliver_all(cs).wf(),
        v.deliver_all(cs).pending() == v.pending() + cs.flatten(),
    decreases cs.len(),
{
    if cs.len() == 0 {
        assert(v.pending() + cs.flatten() =~= v.pending());
    } else {
        let init = cs.drop_last();
        lemma_deliver_all_appends(v, init);
        let w = v.deliver_all(init);
        lemma_deliver_appends(w, cs.last());
        init.lemma_flatten_push(cs.last());
        assert(init.push(cs.last()) =~= cs);
        assert(v.deliver_all(cs).pending() =~= v.pending() + cs.flatten());
    }
}

} // verus!
