use crate::codec::append_bytes;
use crate::error::ErrorKind;
use vstd::prelude::*;

verus! {

/// A reassembler as contracts see it.
pub struct ReassemblerView {
    /// The payload bytes gathered since the last flush, in arrival order.
    pub buffer: Seq<u8>,
    /// Whether a start of group has been seen.
    pub group_started: bool,
    /// The most bytes the buffer may hold.
    pub limit: nat,
}

impl ReassemblerView {
    /// A reassembler that has seen nothing yet.
    pub open spec fn new(limit: nat) -> ReassemblerView {
        ReassemblerView { buffer: Seq::empty(), group_started: false, limit }
    }

    /// Whether `payload` can be appended without passing the limit.
    pub open spec fn fits(self, payload: Seq<u8>) -> bool {
        self.buffer.len() + payload.len() <= self.limit
    }

    /// The reassembler after `payload` arrived: appended where it fits, else unchanged.
    pub open spec fn append(self, payload: Seq<u8>) -> ReassemblerView {
        if self.fits(payload) {
            ReassemblerView { buffer: self.buffer + payload, ..self }
        } else {
            self
        }
    }

    /// What the arrival of `payload` is answered with: refused where it does not fit.
    pub open spec fn append_answer(self, payload: Seq<u8>) -> Result<(), ErrorKind> {
        if self.fits(payload) {
            Ok(())
        } else {
            Err(ErrorKind::BufferLimit)
        }
    }

    /// The reassembler after each of `payloads` arrived, in order.
    pub open spec fn append_all(self, payloads: Seq<Seq<u8>>) -> ReassemblerView
        decreases payloads.len(),
    {
        if payloads.len() == 0 {
            self
        } else {
            self.append_all(payloads.drop_last()).append(payloads.last())
        }
    }

    /// What a start of group flushes: the buffer, where a group was under way.
    pub open spec fn flushed(self) -> Option<Seq<u8>> {
        if self.group_started {
            Some(self.buffer)
        } else {
            None
        }
    }

    /// The reassembler with its buffer emptied.
    pub open spec fn discard(self) -> ReassemblerView {
        ReassemblerView { buffer: Seq::empty(), ..self }
    }

    /// The reassembler after a start of group: a group is under way, and the buffer is
    /// empty where it was flushed.
    pub open spec fn start_group(self) -> ReassemblerView {
        ReassemblerView {
            buffer: if self.group_started {
                Seq::empty()
            } else {
                self.buffer
            },
            group_started: true,
            ..self
        }
    }
}

/// The bytes of a flushed unit, as contracts see them.
pub open spec fn unit_of(flushed: Option<Vec<u8>>) -> Option<Seq<u8>> {
    match flushed {
        Some(unit) => Some(unit@),
        None => None,
    }
}

/// Gathers the payloads of consecutive packets into access units. It owns the one
/// accumulation buffer; a flush moves the bytes out and leaves the buffer empty.
pub struct Reassembler {
    buffer: Vec<u8>,
    group_started: bool,
    limit: usize,
}

impl View for Reassembler {
    type V = ReassemblerView;

    closed spec fn view(&self) -> ReassemblerView {
        ReassemblerView {
            buffer: self.buffer@,
            group_started: self.group_started,
            limit: self.limit as nat,
        }
    }
}

impl Reassembler {
    #[verifier::type_invariant]
    spec fn inv(self) -> bool {
        self.buffer@.len() <= self.limit
    }

    /// A reassembler whose buffer may grow as far as memory lets it.
    pub fn new() -> (reassembler: Reassembler)
        ensures
            reassembler@ == ReassemblerView::new(usize::MAX as nat),
    {
        Reassembler { buffer: Vec::new(), group_started: false, limit: usize::MAX }
    }

    /// A reassembler whose buffer holds at most `limit` bytes.
    pub fn with_limit(limit: usize) -> (reassembler: Reassembler)
        ensures
            reassembler@ == ReassemblerView::new(limit as nat),
    {
        Reassembler { buffer: Vec::new(), group_started: false, limit }
    }

    /// Takes note of a start of group. Where a group was under way this ends it: its
    /// bytes are handed out and the buffer starts empty for the new group.
    pub fn on_start_of_group(&mut self) -> (flushed: Option<Vec<u8>>)
        ensures
            final(self)@ == old(self)@.start_group(),
            unit_of(flushed) == old(self)@.flushed(),
    {
        proof {
            use_type_invariant(&*self);
        }
        if self.group_started {
            let mut unit: Vec<u8> = Vec::new();
            core::mem::swap(&mut self.buffer, &mut unit);
            Some(unit)
        } else {
            self.group_started = true;
            None
        }
    }

    /// Appends the payload of a fragment. The fragment header changes nothing, whatever
    /// it marks: no fragment ends a unit, only the next start of group does.
    pub fn on_fragment(&mut self, _fragment_header: u8, payload: &[u8]) -> (r: Result<
        (),
        ErrorKind,
    >)
        ensures
            final(self)@ == old(self)@.append(payload@),
            r == old(self)@.append_answer(payload@),
    {
        self.push_payload(payload)
    }

    /// Appends the payload of a complete unit, which ends a group no more than a fragment
    /// does.
    pub fn on_complete(&mut self, payload: &[u8]) -> (r: Result<(), ErrorKind>)
        ensures
            final(self)@ == old(self)@.append(payload@),
            r == old(self)@.append_answer(payload@),
    {
        self.push_payload(payload)
    }

    fn push_payload(&mut self, payload: &[u8]) -> (r: Result<(), ErrorKind>)
        ensures
            final(self)@ == old(self)@.append(payload@),
            r == old(self)@.append_answer(payload@),
    {
        proof {
            use_type_invariant(&*self);
        }
        if payload.len() > self.limit - self.buffer.len() {
            Err(ErrorKind::BufferLimit)
        } else {
            // The buffer is taken out while it grows, so that the limit holds of `self`
            // at every moment.
            let mut bytes: Vec<u8> = Vec::new();
            core::mem::swap(&mut self.buffer, &mut bytes);
            append_bytes(&mut bytes, payload);
            core::mem::swap(&mut self.buffer, &mut bytes);
            Ok(())
        }
    }

    /// Throws away the bytes gathered since the last flush.
    pub fn discard(&mut self)
        ensures
            final(self)@ == old(self)@.discard(),
    {
        proof {
            use_type_invariant(&*self);
        }
        let mut dropped: Vec<u8> = Vec::new();
        core::mem::swap(&mut self.buffer, &mut dropped);
    }

    /// The bytes gathered since the last flush.
    pub fn buffered(&self) -> (bytes: &[u8])
        ensures
            bytes@ == self@.buffer,
    {
        self.buffer.as_slice()
    }

    /// Whether a start of group has been seen.
    pub fn group_started(&self) -> (started: bool)
        ensures
            started == self@.group_started,
    {
        self.group_started
    }

    /// The most bytes the buffer may hold.
    pub fn limit(&self) -> (limit: usize)
        ensures
            limit == self@.limit,
    {
        self.limit
    }
}

/// Reassembly is concatenation in arrival order: where the payloads fit, the buffer grows
/// by exactly their bytes, one payload after the other, nothing dropped, doubled or moved.
pub proof fn lemma_appends_concatenate(start: ReassemblerView, payloads: Seq<Seq<u8>>)
    requires
        start.buffer.len() + payloads.flatten().len() <= start.limit,
    ensures
        start.append_all(payloads) == (ReassemblerView {
            buffer: start.buffer + payloads.flatten(),
            ..start
        }),
    decreases payloads.len(),
{
    payloads.lemma_flatten_and_flatten_alt_are_equivalent();
    if payloads.len() > 0 {
        let earlier = payloads.drop_last();
        earlier.lemma_flatten_and_flatten_alt_are_equivalent();
        lemma_appends_concatenate(start, earlier);
        assert(start.buffer + earlier.flatten() + payloads.last() =~= start.buffer
            + payloads.flatten());
    }
}

/// The unit that a start of group flushes is the concatenation of the payloads that came
/// since the group before it started, and the buffer is empty afterwards.
pub proof fn lemma_flush_is_concatenation(limit: nat, payloads: Seq<Seq<u8>>)
    requires
        payloads.flatten().len() <= limit,
    ensures
        ({
            let gathered = ReassemblerView::new(limit).start_group().append_all(payloads);
            &&& gathered.flushed() == Some(payloads.flatten())
            &&& gathered.start_group().buffer == Seq::<u8>::empty()
            &&& gathered.start_group().group_started
        }),
{
    let started = ReassemblerView::new(limit).start_group();
    lemma_appends_concatenate(started, payloads);
}

} // verus!
