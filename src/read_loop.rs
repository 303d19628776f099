use vstd::prelude::*;

verus! {

/// Size of the worker's read buffer: one typical network frame.
pub const FRAME_LEN: usize = 1500;

/// What one blocking read on the socket came back with.
#[derive(PartialEq, Eq, Structural, Clone, Copy, Debug)]
pub enum ReadOutcome {
    /// The read completed with this many bytes (zero: the peer closed).
    Received(usize),
    /// The read failed, for instance because the socket was shut down.
    Failed,
}

/// What the worker does after a read.
#[derive(PartialEq, Eq, Structural, Clone, Copy, Debug)]
pub enum WorkerStep {
    /// Hand the whole frame buffer to the handler, then read again.
    Deliver,
    /// Leave the loop; the worker terminates.
    Stop,
}

/// A read completion as the model sees it: the bytes received, or a failure.
pub ghost enum ReadEvent {
    Chunk(Seq<u8>),
    Failed,
}

/// An event ends the loop when it is a failure or a zero-length read.
pub open spec fn ends_loop(e: ReadEvent) -> bool {
    match e {
        ReadEvent::Chunk(c) => c.len() == 0,
        ReadEvent::Failed => true,
    }
}

pub open spec fn chunk_of(e: ReadEvent) -> Seq<u8> {
    match e {
        ReadEvent::Chunk(c) => c,
        ReadEvent::Failed => Seq::empty(),
    }
}

/// Whether some event of the history ended the loop.
pub open spec fn stopped(events: Seq<ReadEvent>) -> bool {
    exists|i: int| 0 <= i < events.len() && ends_loop(#[trigger] events[i])
}

/// The chunks handed to the handler over a history of reads, in order: one
/// for each non-empty read that came before the first event that ended the loop.
pub open spec fn delivered(events: Seq<ReadEvent>) -> Seq<Seq<u8>>
    decreases events.len(),
{
    if events.len() == 0 {
        Seq::empty()
    } else {
        let before = events.drop_last();
        if stopped(before) || ends_loop(events.last()) {
            delivered(before)
        } else {
            delivered(before).push(chunk_of(events.last()))
        }
    }
}

/// Whether a read outcome carries at least one byte.
pub open spec fn brings_bytes(outcome: ReadOutcome) -> bool {
    match outcome {
        ReadOutcome::Received(n) => n > 0,
        ReadOutcome::Failed => false,
    }
}

/// The event that a read outcome on a frame buffer stands for.
pub open spec fn event_of(frame: Seq<u8>, outcome: ReadOutcome) -> ReadEvent {
    match outcome {
        ReadOutcome::Received(n) => ReadEvent::Chunk(frame.subrange(0, n as int)),
        ReadOutcome::Failed => ReadEvent::Failed,
    }
}

/// While no read has ended the loop, the handler has received one chunk per
/// read, each the bytes of that read, in the order the reads completed.
pub proof fn lemma_delivered_in_order(events: Seq<ReadEvent>)
    requires
        !stopped(events),
    ensures
        delivered(events) == events.map_values(|e: ReadEvent| chunk_of(e)),
    decreases events.len(),
{
    if events.len() > 0 {
        let before = events.drop_last();
        assert forall|i: int| 0 <= i < before.len() implies !ends_loop(#[trigger] before[i]) by {
            assert(before[i] == events[i]);
        }
        assert(!ends_loop(events[events.len() - 1]));
        lemma_delivered_in_order(before);
        assert(delivered(events) =~= events.map_values(|e: ReadEvent| chunk_of(e)));
    }
}

/// Once a read fails or comes back empty (the peer closed, or the socket was
/// shut down by an interrupt), the handler is not called for that event, the
/// loop stays ended, and no later read reaches the handler.
pub proof fn lemma_nothing_after_end(before: Seq<ReadEvent>, end: ReadEvent, after: Seq<ReadEvent>)
    requires
        ends_loop(end),
    ensures
        stopped(before.push(end) + after),
        delivered(before.push(end) + after) == delivered(before),
    decreases after.len(),
{
    let all = before.push(end) + after;
    assert(all[before.len() as int] == end);
    if after.len() == 0 {
        assert(all =~= before.push(end));
        assert(all.drop_last() =~= before);
    } else {
        let shorter = after.drop_last();
        lemma_nothing_after_end(before, end, shorter);
        assert(all.drop_last() =~= before.push(end) + shorter);
    }
}

/// A fresh read buffer of one frame, every byte zero. The worker takes a new
/// one for each read, so the bytes past the received length that the handler
/// sees are zero, never left over from an earlier read.
pub fn new_frame() -> (r: [u8; FRAME_LEN])
    ensures
        forall|i: int| 0 <= i < FRAME_LEN ==> r[i] == 0,
{
    [0u8; FRAME_LEN]
}

/// The worker's read loop, as the history of the reads it has seen.
pub struct ReadLoop {
    stopped: bool,
    events: Ghost<Seq<ReadEvent>>,
}

impl View for ReadLoop {
    type V = Seq<ReadEvent>;

    closed spec fn view(&self) -> Seq<ReadEvent> {
        self.events@
    }
}

impl ReadLoop {
    pub closed spec fn wf(&self) -> bool {
        self.stopped == stopped(self.events@)
    }

    /// A loop that has seen no read yet.
    pub fn new() -> (r: ReadLoop)
        ensures
            r.wf(),
            r@ == Seq::<ReadEvent>::empty(),
    {
        ReadLoop { stopped: false, events: Ghost(Seq::empty()) }
    }

    /// Whether the loop has ended; once ended it never resumes.
    pub fn is_stopped(&self) -> (r: bool)
        requires
            self.wf(),
        ensures
            r == stopped(self@),
    {
        self.stopped
    }

    /// Records one read into `frame` and decides what follows: deliver the
    /// frame when the read brought bytes and the loop has not ended, stop
    /// otherwise. A read of zero bytes or a failure ends the loop for good,
    /// without a delivery for that event.
    pub fn on_read(&mut self, frame: &[u8; FRAME_LEN], outcome: ReadOutcome) -> (r: WorkerStep)
        requires
            old(self).wf(),
            outcome matches ReadOutcome::Received(n) ==> n <= FRAME_LEN,
        ensures
            final(self).wf(),
            final(self)@ == old(self)@.push(event_of(frame@, outcome)),
            r == WorkerStep::Deliver <==> (!stopped(old(self)@) && brings_bytes(outcome)),
            stopped(final(self)@) <==> r == WorkerStep::Stop,
            r == WorkerStep::Deliver ==> delivered(final(self)@) == delivered(old(self)@).push(
                frame@.subrange(0, outcome->Received_0 as int),
            ),
            r == WorkerStep::Stop ==> delivered(final(self)@) == delivered(old(self)@),
    {
        let ghost e = event_of(frame@, outcome);
        let ends = match outcome {
            ReadOutcome::Received(n) => n == 0,
            ReadOutcome::Failed => true,
        };
        proof {
            assert(ends == ends_loop(e));
            let evs = self.events@.push(e);
            assert(evs.drop_last() =~= self.events@);
            assert(evs.last() == e);
            if ends {
                assert(ends_loop(evs[evs.len() - 1]));
            }
            if self.stopped {
                let i = choose|i: int| 0 <= i < self.events@.len() && ends_loop(#[trigger] self.events@[i]);
                assert(evs[i] == self.events@[i]);
            }
            if stopped(evs) && !self.stopped {
                let i = choose|i: int| 0 <= i < evs.len() && ends_loop(#[trigger] evs[i]);
                if i < self.events@.len() {
                    assert(evs[i] == self.events@[i]);
                }
            }
        }
        self.events = Ghost(self.events@.push(e));
        if self.stopped || ends {
            self.stopped = true;
            WorkerStep::Stop
        } else {
            WorkerStep::Deliver
        }
    }
}

} // verus!
