//! The inbound side of a socket: chunks pushed by message events are queued,
//! and a reader pulls them out as a plain byte stream.
use vstd::prelude::*;

verus! {

/// Whether the producer side of the inbound queue can still deliver chunks.
#[derive(PartialEq, Eq, Structural, Clone, Copy, Debug)]
pub enum InputState {
    /// Chunks may still arrive.
    Open,
    /// The producer stopped for good: once drained, reads report end of stream.
    Closed,
    /// The transport reported an error: once drained, reads report it.
    Failed,
}

/// What became of one chunk handed to `InboundBridge::deliver`.
pub enum Delivery {
    /// The chunk is queued (an empty chunk carries no bytes and is dropped).
    Accepted,
    /// The queue is at capacity: the chunk is handed back untouched, and the
    /// producer must hold it until a read frees a slot.
    Full(Vec<u8>),
    /// The producer side is closed or failed: the chunk is handed back.
    Refused(Vec<u8>),
}

/// How a delivery went, without the chunk that was handed back.
#[derive(PartialEq, Eq, Structural, Clone, Copy, Debug)]
pub enum DeliveryKind {
    Accepted,
    Full,
    Refused,
}

/// The result of one `InboundBridge::read`.
#[derive(PartialEq, Eq, Structural, Clone, Copy, Debug)]
pub enum ReadOutcome {
    /// This many bytes were copied to the front of the caller's buffer.
    Data(usize),
    /// No bytes are buffered and more may come: wait for the next delivery.
    Pending,
    /// No bytes are buffered and none will come.
    EndOfStream,
    /// No bytes are buffered and the transport failed.
    Failed,
}

/// The result of one `InboundBridge::fill_buffer`.
#[derive(PartialEq, Eq, Structural, Clone, Copy, Debug)]
pub enum FillStatus {
    /// `buffer()` now holds at least one byte.
    Ready,
    Pending,
    EndOfStream,
    Failed,
}

/// The abstract state of an inbound bridge.
pub ghost struct BridgeView {
    /// Queued chunks, oldest first.
    pub chunks: Seq<Seq<u8>>,
    /// The unconsumed remainder of the last chunk taken from the queue.
    pub carry: Seq<u8>,
    /// How many chunks the queue holds at most.
    pub capacity: nat,
    pub input: InputState,
}

/// One call on a bridge, for stating what a run of calls does.
pub ghost enum Step {
    Deliver(Seq<u8>),
    Read(nat),
}

pub open spec fn min_nat(a: nat, b: nat) -> nat {
    if a <= b { a } else { b }
}

impl BridgeView {
    pub open spec fn wf(self) -> bool {
        &&& self.capacity > 0
        &&& self.chunks.len() <= self.capacity
        &&& forall|i: int| 0 <= i < self.chunks.len() ==> (#[trigger] self.chunks[i]).len() > 0
    }

    /// Every byte that the reader has yet to see, in order.
    pub open spec fn pending(self) -> Seq<u8> {
        self.carry + self.chunks.flatten()
    }

    /// The outcome that a read reports when nothing is buffered.
    pub open spec fn idle_outcome(self) -> ReadOutcome {
        match self.input {
            InputState::Open => ReadOutcome::Pending,
            InputState::Closed => ReadOutcome::EndOfStream,
            InputState::Failed => ReadOutcome::Failed,
        }
    }

    pub open spec fn idle_status(self) -> FillStatus {
        match self.input {
            InputState::Open => FillStatus::Pending,
            InputState::Closed => FillStatus::EndOfStream,
            InputState::Failed => FillStatus::Failed,
        }
    }

    /// Offering `chunk` to the producer side.
    pub open spec fn deliver_step(self, chunk: Seq<u8>) -> (BridgeView, DeliveryKind) {
        if self.input != InputState::Open {
            (self, DeliveryKind::Refused)
        } else if chunk.len() == 0 {
            (self, DeliveryKind::Accepted)
        } else if self.chunks.len() >= self.capacity {
            (self, DeliveryKind::Full)
        } else {
            (BridgeView { chunks: self.chunks.push(chunk), ..self }, DeliveryKind::Accepted)
        }
    }

    /// A read into a buffer of `len` bytes: the new state, the outcome, and the
    /// bytes written to the front of the buffer.
    pub open spec fn read_step(self, len: nat) -> (BridgeView, ReadOutcome, Seq<u8>) {
        if self.carry.len() > 0 {
            let n = min_nat(self.carry.len(), len);
            (
                BridgeView { carry: self.carry.skip(n as int), ..self },
                ReadOutcome::Data(n as usize),
                self.carry.take(n as int),
            )
        } else if self.chunks.len() > 0 {
            let c = self.chunks[0];
            let n = min_nat(c.len(), len);
            (
                BridgeView { chunks: self.chunks.drop_first(), carry: c.skip(n as int), ..self },
                ReadOutcome::Data(n as usize),
                c.take(n as int),
            )
        } else {
            (self, self.idle_outcome(), Seq::empty())
        }
    }

    /// Making the carry-over buffer non-empty, if any chunk is queued.
    pub open spec fn fill_step(self) -> (BridgeView, FillStatus) {
        if self.carry.len() > 0 {
            (self, FillStatus::Ready)
        } else if self.chunks.len() > 0 {
            (
                BridgeView { chunks: self.chunks.drop_first(), carry: self.chunks[0], ..self },
                FillStatus::Ready,
            )
        } else {
            (self, self.idle_status())
        }
    }

    pub open spec fn consume_step(self, amt: nat) -> BridgeView {
        BridgeView { carry: self.carry.skip(amt as int), ..self }
    }

    /// Offering each of `cs` in turn.
    pub open spec fn deliver_all(self, cs: Seq<Seq<u8>>) -> BridgeView
        decreases cs.len(),
    {
        if cs.len() == 0 {
            self
        } else {
            self.deliver_all(cs.drop_last()).deliver_step(cs.last()).0
        }
    }

    /// Whether each of `cs`, offered in turn, is accepted.
    pub open spec fn accepts_all(self, cs: Seq<Seq<u8>>) -> bool
        decreases cs.len(),
    {
        if cs.len() == 0 {
            true
        } else {
            self.accepts_all(cs.drop_last()) && self.deliver_all(cs.drop_last()).deliver_step(
                cs.last(),
            ).1 == DeliveryKind::Accepted
        }
    }

    /// The state after `steps`, taken in order.
    pub open spec fn run(self, steps: Seq<Step>) -> BridgeView
        decreases steps.len(),
    {
        if steps.len() == 0 {
            self
        } else {
            self.apply(steps[0]).run(steps.drop_first())
        }
    }

    pub open spec fn apply(self, step: Step) -> BridgeView {
        match step {
            Step::Deliver(c) => self.deliver_step(c).0,
            Step::Read(len) => self.read_step(len).0,
        }
    }

    /// The bytes of the chunks that the queue accepted during `steps`.
    pub open spec fn accepted_bytes(self, steps: Seq<Step>) -> Seq<u8>
        decreases steps.len(),
    {
        if steps.len() == 0 {
            Seq::empty()
        } else {
            let here = match steps[0] {
                Step::Deliver(c) => if self.deliver_step(c).1 == DeliveryKind::Accepted {
                    c
                } else {
                    Seq::empty()
                },
                Step::Read(_) => Seq::empty(),
            };
            here + self.apply(steps[0]).accepted_bytes(steps.drop_first())
        }
    }

    /// The bytes that the reads among `steps` handed out, in order.
    pub open spec fn read_bytes(self, steps: Seq<Step>) -> Seq<u8>
        decreases steps.len(),
    {
        if steps.len() == 0 {
            Seq::empty()
        } else {
            let here = match steps[0] {
                Step::Deliver(_) => Seq::empty(),
                Step::Read(len) => self.read_step(len).2,
            };
            here + self.apply(steps[0]).read_bytes(steps.drop_first())
        }
    }
}

impl Delivery {
    pub open spec fn kind(&self) -> DeliveryKind {
        match self {
            Delivery::Accepted => DeliveryKind::Accepted,
            Delivery::Full(_) => DeliveryKind::Full,
            Delivery::Refused(_) => DeliveryKind::Refused,
        }
    }

    /// The bytes handed back to the producer, if any.
    pub open spec fn returned(&self) -> Seq<u8> {
        match self {
            Delivery::Accepted => Seq::empty(),
            Delivery::Full(c) => c@,
            Delivery::Refused(c) => c@,
        }
    }
}

/// The bytes of each chunk in `s`.
pub open spec fn chunk_views(s: Seq<Vec<u8>>) -> Seq<Seq<u8>> {
    s.map_values(|c: Vec<u8>| c@)
}

/// The read half's buffering: a bounded FIFO of chunks and the carry-over of
/// the chunk being read.
pub struct InboundBridge {
    queue: Vec<Vec<u8>>,
    remaining: Vec<u8>,
    capacity: usize,
    input: InputState,
}

impl View for InboundBridge {
    type V = BridgeView;

    closed spec fn view(&self) -> BridgeView {
        BridgeView {
            chunks: self.queue@.map_values(|c: Vec<u8>| c@),
            carry: self.remaining@,
            capacity: self.capacity as nat,
            input: self.input,
        }
    }
}

/// Copies the first `n` bytes of `src` to the front of `buf`.
fn copy_prefix(src: &Vec<u8>, buf: &mut [u8], n: usize)
    requires
        n <= src@.len(),
        n <= old(buf)@.len(),
    ensures
        final(buf)@ == src@.take(n as int) + old(buf)@.skip(n as int),
{
    let mut i: usize = 0;
    while i < n
        invariant
            n <= src@.len(),
            n <= buf@.len(),
            i <= n,
            buf@.len() == old(buf)@.len(),
            forall|j: int| 0 <= j < i ==> buf@[j] == src@[j],
            forall|j: int| i <= j < buf@.len() ==> buf@[j] == old(buf)@[j],
        decreases n - i,
    {
        buf[i] = src[i];
        i = i + 1;
    }
    assert(buf@ =~= src@.take(n as int) + old(buf)@.skip(n as int));
}

/// The bytes of `v` from `start` on.
fn tail_of(v: &Vec<u8>, start: usize) -> (r: Vec<u8>)
    requires
        start <= v@.len(),
    ensures
        r@ == v@.skip(start as int),
{
    let mut r: Vec<u8> = Vec::new();
    let mut i: usize = start;
    while i < v.len()
        invariant
            start <= i <= v@.len(),
            r@ == v@.subrange(start as int, i as int),
        decreases v@.len() - i,
    {
        r.push(v[i]);
        i = i + 1;
    }
    assert(r@ =~= v@.skip(start as int));
    r
}

impl InboundBridge {
    pub open spec fn wf(&self) -> bool {
        self@.wf()
    }

    /// An empty bridge whose queue holds up to `capacity` chunks.
    pub fn new(capacity: usize) -> (r: InboundBridge)
        requires
            capacity > 0,
        ensures
            r.wf(),
            r@ == (BridgeView {
                chunks: Seq::empty(),
                carry: Seq::empty(),
                capacity: capacity as nat,
                input: InputState::Open,
            }),
    {
        let r = InboundBridge {
            queue: Vec::new(),
            remaining: Vec::new(),
            capacity,
            input: InputState::Open,
        };
        assert(r@.chunks =~= Seq::empty());
        r
    }

    /// Offers one chunk from the producer side. A chunk that the queue cannot
    /// take is handed back whole, so no bytes are ever lost.
    pub fn deliver(&mut self, chunk: Vec<u8>) -> (r: Delivery)
        requires
            old(self).wf(),
        ensures
            final(self).wf(),
            final(self)@ == old(self)@.deliver_step(chunk@).0,
            r.kind() == old(self)@.deliver_step(chunk@).1,
            r.kind() != DeliveryKind::Accepted ==> r.returned() == chunk@,
    {
        if self.input != InputState::Open {
            return Delivery::Refused(chunk);
        }
        if chunk.len() == 0 {
            return Delivery::Accepted;
        }
        if self.queue.len() >= self.capacity {
            return Delivery::Full(chunk);
        }
        let ghost c = chunk@;
        self.queue.push(chunk);
        assert(self@.chunks =~= old(self)@.chunks.push(c));
        Delivery::Accepted
    }

    /// Moves chunks from the front of `held`, where a producer keeps what the
    /// queue could not take yet, into the queue, oldest first, and stops at
    /// the first one that is not accepted, which stays in `held`.
    pub fn take_held(&mut self, held: &mut std::collections::VecDeque<Vec<u8>>) -> (moved: usize)
        requires
            old(self).wf(),
        ensures
            final(self).wf(),
            moved <= old(held)@.len(),
            chunk_views(final(held)@) == chunk_views(old(held)@).skip(moved as int),
            old(self)@.accepts_all(chunk_views(old(held)@).take(moved as int)),
            final(self)@ == old(self)@.deliver_all(chunk_views(old(held)@).take(moved as int)),
            moved < old(held)@.len() ==> final(self)@.deliver_step(
                chunk_views(old(held)@)[moved as int],
            ).1 != DeliveryKind::Accepted,
    {
        let ghost hv = chunk_views(held@);
        let total = held.len();
        let mut moved: usize = 0;
        let mut stopped = false;
        assert(hv.take(0) =~= Seq::<Seq<u8>>::empty());
        while !stopped && held.len() > 0
            invariant
                self.wf(),
                hv == chunk_views(old(held)@),
                hv.len() == total,
                moved <= hv.len(),
                chunk_views(held@) == hv.skip(moved as int),
                old(self)@.accepts_all(hv.take(moved as int)),
                self@ == old(self)@.deliver_all(hv.take(moved as int)),
                stopped ==> moved < hv.len() && self@.deliver_step(hv[moved as int]).1
                    != DeliveryKind::Accepted,
            decreases held@.len() * 2 + (if stopped { 0int } else { 1int }),
        {
            let ghost before = held@;
            let chunk = held.pop_front().unwrap();
            assert(chunk_views(before).len() == before.len());
            assert(hv.skip(moved as int).len() > 0);
            assert(hv.skip(moved as int)[0] == hv[moved as int]);
            assert(chunk_views(before)[0] == chunk@);
            assert(hv[moved as int] == chunk@);
            let ghost taken = hv.take(moved as int + 1);
            assert(taken.drop_last() =~= hv.take(moved as int));
            assert(taken.last() == chunk@);
            match self.deliver(chunk) {
                Delivery::Accepted => {
                    assert(held@ == before.subrange(1, before.len() as int));
                    assert forall|i: int| 0 <= i < held@.len() implies chunk_views(held@)[i]
                        == hv[moved + 1 + i] by {
                        assert(chunk_views(before)[i + 1] == hv.skip(moved as int)[i + 1]);
                    }
                    moved = moved + 1;
                    assert(chunk_views(held@) =~= hv.skip(moved as int));
                },
                Delivery::Full(c) => {
                    held.push_front(c);
                    assert(chunk_views(held@) =~= hv.skip(moved as int));
                    stopped = true;
                },
                Delivery::Refused(c) => {
                    held.push_front(c);
                    assert(chunk_views(held@) =~= hv.skip(moved as int));
                    stopped = true;
                },
            }
        }
        moved
    }

    /// The producer side has stopped for good: once the buffered bytes are
    /// read, reads report end of stream. A failure already recorded stays.
    pub fn close_input(&mut self)
        requires
            old(self).wf(),
        ensures
            final(self).wf(),
            final(self)@ == (BridgeView {
                input: if old(self)@.input == InputState::Open {
                    InputState::Closed
                } else {
                    old(self)@.input
                },
                ..old(self)@
            }),
    {
        if self.input == InputState::Open {
            self.input = InputState::Closed;
        }
    }

    /// The transport reported an error: once the buffered bytes are read,
    /// reads report the failure.
    pub fn fail_input(&mut self)
        requires
            old(self).wf(),
        ensures
            final(self).wf(),
            final(self)@ == (BridgeView { input: InputState::Failed, ..old(self)@ }),
    {
        self.input = InputState::Failed;
    }

    /// Moves as much of the carry-over buffer as fits to the front of `buf`,
    /// keeping the rest, in order.
    pub fn write_remaining(&mut self, buf: &mut [u8]) -> (n: usize)
        requires
            old(self).wf(),
        ensures
            final(self).wf(),
            n == min_nat(old(self)@.carry.len(), old(buf)@.len()),
            final(buf)@ == old(self)@.carry.take(n as int) + old(buf)@.skip(n as int),
            final(self)@ == (BridgeView { carry: old(self)@.carry.skip(n as int), ..old(self)@ }),
    {
        let len = self.remaining.len();
        if len <= buf.len() {
            copy_prefix(&self.remaining, buf, len);
            self.remaining.clear();
            assert(self@.carry =~= old(self)@.carry.skip(len as int));
            len
        } else {
            let n = buf.len();
            copy_prefix(&self.remaining, buf, n);
            self.remaining = tail_of(&self.remaining, n);
            n
        }
    }

    /// Reads up to `buf.len()` bytes: from the carry-over buffer if it holds
    /// any, else from the oldest queued chunk, whose unread part is kept.
    /// With nothing buffered, reports whether more may come.
    pub fn read(&mut self, buf: &mut [u8]) -> (r: ReadOutcome)
        requires
            old(self).wf(),
        ensures
            final(self).wf(),
            final(self)@ == old(self)@.read_step(old(buf)@.len()).0,
            r == old(self)@.read_step(old(buf)@.len()).1,
            final(buf)@ == old(self)@.read_step(old(buf)@.len()).2 + old(buf)@.skip(
                old(self)@.read_step(old(buf)@.len()).2.len() as int,
            ),
    {
        if self.remaining.len() > 0 {
            let n = self.write_remaining(buf);
            return ReadOutcome::Data(n);
        }
        if self.queue.len() == 0 {
            return match self.input {
                InputState::Open => ReadOutcome::Pending,
                InputState::Closed => ReadOutcome::EndOfStream,
                InputState::Failed => ReadOutcome::Failed,
            };
        }
        let chunk = self.queue.remove(0);
        assert(self@.chunks =~= old(self)@.chunks.drop_first());
        let len = chunk.len();
        if len <= buf.len() {
            copy_prefix(&chunk, buf, len);
            assert(chunk@.skip(len as int) =~= self@.carry);
            ReadOutcome::Data(len)
        } else {
            self.remaining = chunk;
            let n = self.write_remaining(buf);
            ReadOutcome::Data(n)
        }
    }

    /// Makes the carry-over buffer hold the next unread bytes, taking the
    /// oldest chunk from the queue if it is empty; `buffer()` then shows them.
    pub fn fill_buffer(&mut self) -> (r: FillStatus)
        requires
            old(self).wf(),
        ensures
            final(self).wf(),
            final(self)@ == old(self)@.fill_step().0,
            r == old(self)@.fill_step().1,
            r == FillStatus::Ready ==> final(self)@.carry.len() > 0,
    {
        if self.remaining.len() > 0 {
            return FillStatus::Ready;
        }
        if self.queue.len() == 0 {
            return match self.input {
                InputState::Open => FillStatus::Pending,
                InputState::Closed => FillStatus::EndOfStream,
                InputState::Failed => FillStatus::Failed,
            };
        }
        self.remaining = self.queue.remove(0);
        assert(self@.chunks =~= old(self)@.chunks.drop_first());
        FillStatus::Ready
    }

    /// Drops the first `amt` bytes of the carry-over buffer.
    pub fn consume(&mut self, amt: usize)
        requires
            old(self).wf(),
            amt <= old(self)@.carry.len(),
        ensures
            final(self).wf(),
            final(self)@ == old(self)@.consume_step(amt as nat),
    {
        if self.remaining.len() == amt {
            self.remaining.clear();
            assert(self@.carry =~= old(self)@.carry.skip(amt as int));
            return;
        }
        self.remaining = tail_of(&self.remaining, amt);
    }

    /// The bytes buffered for the reader, not yet consumed.
    pub fn buffer(&self) -> (r: &[u8])
        ensures
            r@ == self@.carry,
    {
        self.remaining.as_slice()
    }

    pub fn queued_chunks(&self) -> (r: usize)
        ensures
            r == self@.chunks.len(),
    {
        self.queue.len()
    }

    pub fn input_state(&self) -> (r: InputState)
        ensures
            r == self@.input,
    {
        self.input
    }
}

} // verus!
