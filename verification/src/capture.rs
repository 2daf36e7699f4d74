use crate::codec::{payload_of, split, unit_type_of, UnitType};
use crate::error::ErrorKind;
use crate::reassembler::{unit_of, Reassembler, ReassemblerView};
use vstd::prelude::*;

verus! {

/// A capture as contracts see it.
pub struct CaptureView {
    pub reassembler: ReassemblerView,
    /// How many access units are still to be handed out.
    pub remaining: nat,
}

impl CaptureView {
    /// A capture that is to hand out `units` access units, none of them longer than
    /// `limit` bytes.
    pub open spec fn new(limit: nat, units: nat) -> CaptureView {
        CaptureView { reassembler: ReassemblerView::new(limit), remaining: units }
    }

    /// Whether the capture has handed out all it was asked for.
    pub open spec fn finished(self) -> bool {
        self.remaining == 0
    }

    /// What the capture answers to `packet`: the access unit that the packet completes,
    /// `None` where it completes none, or the reason the packet is refused.
    pub open spec fn answer(self, packet: Seq<u8>) -> Result<Option<Seq<u8>>, ErrorKind> {
        if self.finished() {
            Err(ErrorKind::OutOfTurn)
        } else {
            match unit_type_of(packet) {
                None => Err(ErrorKind::MalformedPacket),
                Some(UnitType::StartOfGroup) => Ok(self.reassembler.flushed()),
                Some(_) => if self.reassembler.fits(payload_of(packet)) {
                    Ok(None)
                } else {
                    Err(ErrorKind::BufferLimit)
                },
            }
        }
    }

    /// The capture after `packet`. A refused packet leaves it unchanged.
    pub open spec fn after(self, packet: Seq<u8>) -> CaptureView {
        if self.answer(packet) is Err {
            self
        } else {
            match unit_type_of(packet) {
                Some(UnitType::StartOfGroup) => CaptureView {
                    reassembler: self.reassembler.start_group(),
                    remaining: if self.reassembler.group_started {
                        (self.remaining - 1) as nat
                    } else {
                        self.remaining
                    },
                },
                _ => CaptureView {
                    reassembler: self.reassembler.append(payload_of(packet)),
                    ..self
                },
            }
        }
    }

    /// The capture after it was called off: finished, with the unit in progress given up.
    pub open spec fn cancelled(self) -> CaptureView {
        CaptureView { reassembler: self.reassembler.discard(), remaining: 0 }
    }

    /// The capture after each of `packets`, in order.
    pub open spec fn run(self, packets: Seq<Seq<u8>>) -> CaptureView
        decreases packets.len(),
    {
        if packets.len() == 0 {
            self
        } else {
            self.run(packets.drop_last()).after(packets.last())
        }
    }
}

/// The access unit of an answer, as contracts see it.
pub open spec fn answer_of(r: Result<Option<Vec<u8>>, ErrorKind>) -> Result<
    Option<Seq<u8>>,
    ErrorKind,
> {
    match r {
        Ok(unit) => Ok(unit_of(unit)),
        Err(e) => Err(e),
    }
}

/// The receiving side of a media stream, without the socket: it is handed each datagram
/// as it arrives and says when an access unit is complete and when to stop receiving.
pub struct Capture {
    reassembler: Reassembler,
    remaining: usize,
}

impl View for Capture {
    type V = CaptureView;

    closed spec fn view(&self) -> CaptureView {
        CaptureView { reassembler: self.reassembler@, remaining: self.remaining as nat }
    }
}

impl Capture {
    /// A capture that ends with its first access unit and lets the buffer grow as far as
    /// memory lets it.
    pub fn single_shot() -> (capture: Capture)
        ensures
            capture@ == CaptureView::new(usize::MAX as nat, 1),
    {
        Capture { reassembler: Reassembler::new(), remaining: 1 }
    }

    /// A capture that ends after `units` access units, none longer than `limit` bytes.
    pub fn new(limit: usize, units: usize) -> (capture: Capture)
        ensures
            capture@ == CaptureView::new(limit as nat, units as nat),
    {
        Capture { reassembler: Reassembler::with_limit(limit), remaining: units }
    }

    /// Whether to stop receiving.
    pub fn is_finished(&self) -> (finished: bool)
        ensures
            finished == self@.finished(),
    {
        self.remaining == 0
    }

    /// The reassembler that gathers the unit in progress.
    pub fn reassembler(&self) -> (reassembler: &Reassembler)
        ensures
            reassembler@ == self@.reassembler,
    {
        &self.reassembler
    }

    /// How many access units are still to come.
    pub fn remaining(&self) -> (units: usize)
        ensures
            units == self@.remaining,
    {
        self.remaining
    }

    /// Calls the capture off between two datagrams. The bytes of the unit in progress
    /// are thrown away and no further packet is taken.
    pub fn cancel(&mut self)
        ensures
            final(self)@ == old(self)@.cancelled(),
    {
        self.reassembler.discard();
        self.remaining = 0;
    }

    /// Takes one datagram. A start of group that ends a group in progress hands out the
    /// access unit gathered; a fragment or a complete unit has its payload appended.
    pub fn on_packet(&mut self, packet: &[u8]) -> (r: Result<Option<Vec<u8>>, ErrorKind>)
        ensures
            answer_of(r) == old(self)@.answer(packet@),
            final(self)@ == old(self)@.after(packet@),
    {
        if self.remaining == 0 {
            return Err(ErrorKind::OutOfTurn);
        }
        match split(packet) {
            Err(e) => Err(e),
            Ok((UnitType::StartOfGroup, _)) => {
                let flushed: Option<Vec<u8>> = self.reassembler.on_start_of_group();
                if flushed.is_some() {
                    self.remaining = self.remaining - 1;
                }
                Ok(flushed)
            },
            Ok((UnitType::Fragment { fragment_header }, payload)) => {
                match self.reassembler.on_fragment(fragment_header, payload) {
                    Ok(()) => Ok(None),
                    Err(e) => Err(e),
                }
            },
            Ok((UnitType::Complete, payload)) => {
                match self.reassembler.on_complete(payload) {
                    Ok(()) => Ok(None),
                    Err(e) => Err(e),
                }
            },
        }
    }
}

/// Whether a packet is a fragment or a complete unit: one whose payload is gathered.
pub open spec fn carries_payload(packet: Seq<u8>) -> bool {
    unit_type_of(packet) is Some && unit_type_of(packet) != Some(UnitType::StartOfGroup)
}

/// The payload of each packet, in the packets' order.
pub open spec fn payloads_of(packets: Seq<Seq<u8>>) -> Seq<Seq<u8>> {
    packets.map_values(|packet: Seq<u8>| payload_of(packet))
}

/// A run of fragments and complete units that fit is gathered whole: the buffer grows by
/// their payloads, concatenated in arrival order, and nothing else changes.
pub proof fn lemma_run_gathers_payloads(start: CaptureView, packets: Seq<Seq<u8>>)
    requires
        !start.finished(),
        forall|i: int| 0 <= i < packets.len() ==> carries_payload(#[trigger] packets[i]),
        start.reassembler.buffer.len() + payloads_of(packets).flatten().len()
            <= start.reassembler.limit,
    ensures
        start.run(packets) == (CaptureView {
            reassembler: ReassemblerView {
                buffer: start.reassembler.buffer + payloads_of(packets).flatten(),
                ..start.reassembler
            },
            ..start
        }),
        forall|i: int|
            0 <= i < packets.len() ==> #[trigger] start.run(packets.take(i)).answer(packets[i])
                == Ok::<Option<Seq<u8>>, ErrorKind>(None),
    decreases packets.len(),
{
    let payloads = payloads_of(packets);
    payloads.lemma_flatten_and_flatten_alt_are_equivalent();
    if packets.len() > 0 {
        let earlier = packets.drop_last();
        assert(payloads.drop_last() =~= payloads_of(earlier));
        payloads_of(earlier).lemma_flatten_and_flatten_alt_are_equivalent();
        lemma_run_gathers_payloads(start, earlier);
        let before = start.run(earlier);
        assert(before.reassembler.buffer + payload_of(packets.last())
            =~= start.reassembler.buffer + payloads.flatten());
        assert forall|i: int| 0 <= i < packets.len() implies #[trigger] start.run(
            packets.take(i),
        ).answer(packets[i]) == Ok::<Option<Seq<u8>>, ErrorKind>(None) by {
            if i < earlier.len() {
                assert(packets.take(i) =~= earlier.take(i));
                assert(packets[i] == earlier[i]);
            }
        }
    }
}

/// Between two starts of group lies one access unit. A new capture that sees a start of
/// group, then fragments and complete units that fit, then a start of group again, hands
/// out nothing before the closing packet and on it exactly the payloads that came between,
/// concatenated in arrival order; its buffer is empty again afterwards.
pub proof fn lemma_unit_between_starts_of_group(
    limit: nat,
    units: nat,
    opening: Seq<u8>,
    between: Seq<Seq<u8>>,
    closing: Seq<u8>,
)
    requires
        units > 0,
        unit_type_of(opening) == Some(UnitType::StartOfGroup),
        unit_type_of(closing) == Some(UnitType::StartOfGroup),
        forall|i: int| 0 <= i < between.len() ==> carries_payload(#[trigger] between[i]),
        payloads_of(between).flatten().len() <= limit,
    ensures
        ({
            let start = CaptureView::new(limit, units);
            let opened = start.after(opening);
            let gathered = opened.run(between);
            &&& start.answer(opening) == Ok::<Option<Seq<u8>>, ErrorKind>(None)
            &&& forall|i: int|
                0 <= i < between.len() ==> #[trigger] opened.run(between.take(i)).answer(
                    between[i],
                ) == Ok::<Option<Seq<u8>>, ErrorKind>(None)
            &&& gathered.answer(closing) == Ok::<Option<Seq<u8>>, ErrorKind>(
                Some(payloads_of(between).flatten()),
            )
            &&& gathered.after(closing).remaining == units - 1
            &&& gathered.after(closing).reassembler.buffer == Seq::<u8>::empty()
        }),
{
    let opened = CaptureView::new(limit, units).after(opening);
    lemma_run_gathers_payloads(opened, between);
}

} // verus!
