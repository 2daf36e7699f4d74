use crate::error::ErrorKind;
use crate::text::{decimal, decimal_text, decode_lossy, find_in, lossy_text, occurs_in};
use vstd::prelude::*;
use vstd::string::*;
use vstd::utf8::{decode_utf8, valid_utf8};

verus! {

/// Size of the buffer that the single read of a response fills.
pub const RESPONSE_BUFFER_LEN: usize = 1024;

/// The requests a session can issue.
#[derive(Debug, Clone, Copy, PartialEq, Eq, Structural)]
pub enum Methods {
    Options,
    Describe,
    Setup,
    Play,
}

impl Methods {
    /// The method's name as it stands at the start of a request.
    pub open spec fn name(self) -> Seq<char> {
        match self {
            Methods::Options => "OPTIONS"@,
            Methods::Describe => "DESCRIBE"@,
            Methods::Setup => "SETUP"@,
            Methods::Play => "PLAY"@,
        }
    }

    /// The method's name as it is written in a request.
    pub fn as_str(&self) -> (s: &'static str)
        ensures
            s@ == self.name(),
    {
        match self {
            Methods::Options => "OPTIONS",
            Methods::Describe => "DESCRIBE",
            Methods::Setup => "SETUP",
            Methods::Play => "PLAY",
        }
    }
}

/// The text of one request: a request line, the sequence header, and an empty line.
pub open spec fn request_text(method: Methods, target: Seq<char>, cseq: nat) -> Seq<char> {
    method.name() + " "@ + target + " RTSP/1.0\r\nCSeq: "@ + decimal(cseq) + "\r\n\r\n"@
}

/// Formats the request for `method` on `target` with sequence number `cseq`.
pub fn format_request(method: Methods, target: &str, cseq: u32) -> (request: String)
    ensures
        request@ == request_text(method, target@, cseq as nat),
{
    let mut request: String = String::from_str(method.as_str());
    request.append(" ");
    request.append(target);
    request.append(" RTSP/1.0\r\nCSeq: ");
    let digits: String = decimal_text(cseq);
    request.append(digits.as_str());
    request.append("\r\n\r\n");
    request
}

/// Whether a response carries the marker of success.
pub fn is_success(response: &str) -> (ok: bool)
    ensures
        ok == occurs_in("200 OK"@, response@),
{
    find_in(response, "200 OK")
}

/// A text result as contracts see it.
pub open spec fn text_of(r: Result<String, ErrorKind>) -> Result<Seq<char>, ErrorKind> {
    match r {
        Ok(text) => Ok(text@),
        Err(e) => Err(e),
    }
}

/// The response that the bytes of one read amount to: their lossy decoding, or a failed
/// connection where the read returned nothing.
pub open spec fn response_of(bytes: Seq<u8>) -> Result<Seq<char>, ErrorKind> {
    if bytes.len() == 0 {
        Err(ErrorKind::Connection)
    } else {
        Ok(lossy_text(bytes))
    }
}

/// Where a session stands between two events.
#[derive(Debug, Clone, Copy, PartialEq, Eq, Structural)]
pub enum Phase {
    /// Connected and idle: a request may be started.
    Ready,
    /// A request has been handed out and is being written to the connection.
    Writing,
    /// The request is written; its response is being read.
    Reading,
    /// The connection is closed for good.
    Stopped,
}

/// What can happen to a session.
pub enum Event {
    /// The caller asks for a request to be sent.
    Send(Methods),
    /// The request handed out last has been written to the connection.
    Written,
    /// Writing the request or reading the response failed.
    Failed,
    /// One read of the connection returned these bytes.
    Received(Seq<u8>),
    /// The caller ends the session.
    Stop,
}

/// A session as contracts see it.
pub struct SessionView {
    pub server_addr: Seq<char>,
    pub cseq: nat,
    pub phase: Phase,
}

impl SessionView {
    /// A session just connected to `server_addr`.
    pub open spec fn new(server_addr: Seq<char>) -> SessionView {
        SessionView { server_addr, cseq: 1, phase: Phase::Ready }
    }

    /// Whether the session acts on `event`; if not, the event leaves it unchanged.
    pub open spec fn accepts(self, event: Event) -> bool {
        match event {
            Event::Send(_) => self.phase is Ready && self.cseq < u32::MAX,
            Event::Written => self.phase is Writing,
            Event::Failed => self.phase is Writing || self.phase is Reading,
            Event::Received(_) => self.phase is Reading,
            Event::Stop => true,
        }
    }

    /// The session after `event`.
    pub open spec fn after(self, event: Event) -> SessionView {
        if !self.accepts(event) {
            self
        } else {
            match event {
                Event::Send(_) => SessionView { phase: Phase::Writing, ..self },
                Event::Written => SessionView { phase: Phase::Reading, cseq: self.cseq + 1, ..self },
                Event::Failed => SessionView { phase: Phase::Ready, ..self },
                Event::Received(_) => SessionView { phase: Phase::Ready, ..self },
                Event::Stop => SessionView { phase: Phase::Stopped, ..self },
            }
        }
    }

    /// The session after all of `events`, in order.
    pub open spec fn run(self, events: Seq<Event>) -> SessionView
        decreases events.len(),
    {
        if events.len() == 0 {
            self
        } else {
            self.run(events.drop_last()).after(events.last())
        }
    }

    /// How many requests were successfully written in the course of `events`.
    pub open spec fn sends(self, events: Seq<Event>) -> nat
        decreases events.len(),
    {
        if events.len() == 0 {
            0
        } else {
            let earlier = events.drop_last();
            if events.last() is Written && self.run(earlier).accepts(Event::Written) {
                self.sends(earlier) + 1
            } else {
                self.sends(earlier)
            }
        }
    }

    /// What asking for `method` to be sent returns: the request to write, or the refusal.
    pub open spec fn request_for(self, method: Methods) -> Result<Seq<char>, ErrorKind> {
        if self.accepts(Event::Send(method)) {
            Ok(request_text(method, self.server_addr, self.cseq))
        } else if self.phase is Ready {
            Err(ErrorKind::SequenceExhausted)
        } else {
            Err(ErrorKind::OutOfTurn)
        }
    }

    /// What handing in the bytes of the response's one read returns: the response text,
    /// or the failure.
    pub open spec fn response_to(self, bytes: Seq<u8>) -> Result<Seq<char>, ErrorKind> {
        if !self.accepts(Event::Received(bytes)) {
            Err(ErrorKind::OutOfTurn)
        } else {
            response_of(bytes)
        }
    }

    /// The status text that ending the session reports.
    pub open spec fn stop_status(self) -> Seq<char> {
        if self.phase is Stopped {
            "connection already closed"@
        } else {
            "connection closed"@
        }
    }
}

/// One control session: the peer's address, the sequence counter and the phase.
/// The connection itself stays with the caller, who reports what happened on it.
pub struct Session {
    server_addr: String,
    cseq: u32,
    phase: Phase,
}

impl View for Session {
    type V = SessionView;

    closed spec fn view(&self) -> SessionView {
        SessionView { server_addr: self.server_addr@, cseq: self.cseq as nat, phase: self.phase }
    }
}

impl Session {
    #[verifier::type_invariant]
    spec fn inv(self) -> bool {
        self.phase is Writing ==> self.cseq < u32::MAX
    }

    /// A session for a connection just opened to `server_addr`.
    pub fn new(server_addr: String) -> (session: Session)
        ensures
            session@ == SessionView::new(server_addr@),
    {
        Session { server_addr, cseq: 1, phase: Phase::Ready }
    }

    /// A session taken up where an earlier one on the same connection left off: its next
    /// request carries `cseq`.
    pub fn resume(server_addr: String, cseq: u32) -> (session: Session)
        ensures
            session@ == (SessionView { cseq: cseq as nat, ..SessionView::new(server_addr@) }),
    {
        Session { server_addr, cseq, phase: Phase::Ready }
    }

    /// The sequence number that the next request will carry.
    pub fn cseq(&self) -> (n: u32)
        ensures
            n == self@.cseq,
    {
        self.cseq
    }

    /// Where the session stands.
    pub fn phase(&self) -> (phase: Phase)
        ensures
            phase == self@.phase,
    {
        self.phase
    }

    /// The address of the peer, which is also what requests name as their target.
    pub fn server_addr(&self) -> (addr: &str)
        ensures
            addr@ == self@.server_addr,
    {
        self.server_addr.as_str()
    }

    /// Starts a request: returns the text to write to the connection.
    ///
    /// Refused with `OutOfTurn` unless the session is ready, and with `SequenceExhausted`
    /// once the counter has reached its last value.
    pub fn send(&mut self, method: Methods) -> (request: Result<String, ErrorKind>)
        ensures
            final(self)@ == old(self)@.after(Event::Send(method)),
            text_of(request) == old(self)@.request_for(method),
    {
        proof {
            use_type_invariant(&*self);
        }
        match self.phase {
            Phase::Ready => {
                if self.cseq == u32::MAX {
                    Err(ErrorKind::SequenceExhausted)
                } else {
                    let text: String = format_request(method, self.server_addr.as_str(), self.cseq);
                    self.phase = Phase::Writing;
                    Ok(text)
                }
            },
            _ => Err(ErrorKind::OutOfTurn),
        }
    }

    /// Records that the request was written: the sequence number goes up by one, and the
    /// response is to be read next, with one read into a buffer of `RESPONSE_BUFFER_LEN` bytes.
    pub fn written(&mut self) -> (r: Result<(), ErrorKind>)
        ensures
            final(self)@ == old(self)@.after(Event::Written),
            r == (if old(self)@.accepts(Event::Written) {
                Ok::<(), ErrorKind>(())
            } else {
                Err(ErrorKind::OutOfTurn)
            }),
    {
        proof {
            use_type_invariant(&*self);
        }
        match self.phase {
            Phase::Writing => {
                self.phase = Phase::Reading;
                self.cseq = self.cseq + 1;
                Ok(())
            },
            _ => Err(ErrorKind::OutOfTurn),
        }
    }

    /// Records that writing the request or reading its response failed. The request is
    /// given up, the session is ready again, and the error to surface is returned.
    pub fn failed(&mut self) -> (e: ErrorKind)
        ensures
            final(self)@ == old(self)@.after(Event::Failed),
            e == (if old(self)@.accepts(Event::Failed) {
                ErrorKind::Connection
            } else {
                ErrorKind::OutOfTurn
            }),
    {
        proof {
            use_type_invariant(&*self);
        }
        match self.phase {
            Phase::Writing | Phase::Reading => {
                self.phase = Phase::Ready;
                ErrorKind::Connection
            },
            _ => ErrorKind::OutOfTurn,
        }
    }

    /// Takes the bytes that the one read of the response returned and gives the response
    /// text. A read of no bytes fails the request.
    pub fn received(&mut self, bytes: &[u8]) -> (response: Result<String, ErrorKind>)
        ensures
            final(self)@ == old(self)@.after(Event::Received(bytes@)),
            text_of(response) == old(self)@.response_to(bytes@),
            response is Ok && valid_utf8(bytes@) ==> text_of(response) == Ok::<
                Seq<char>,
                ErrorKind,
            >(decode_utf8(bytes@)),
    {
        proof {
            use_type_invariant(&*self);
        }
        match self.phase {
            Phase::Reading => {
                self.phase = Phase::Ready;
                response_text(bytes)
            },
            _ => Err(ErrorKind::OutOfTurn),
        }
    }

    /// Ends the session, whatever it was doing, and reports so in words.
    pub fn stop(&mut self) -> (status: String)
        ensures
            final(self)@ == old(self)@.after(Event::Stop),
            status@ == old(self)@.stop_status(),
    {
        proof {
            use_type_invariant(&*self);
        }
        let status: String = match self.phase {
            Phase::Stopped => String::from_str("connection already closed"),
            _ => String::from_str("connection closed"),
        };
        self.phase = Phase::Stopped;
        status
    }
}

/// The response text for the bytes of one read.
pub fn response_text(bytes: &[u8]) -> (response: Result<String, ErrorKind>)
    ensures
        text_of(response) == response_of(bytes@),
        response is Ok && valid_utf8(bytes@) ==> text_of(response) == Ok::<Seq<char>, ErrorKind>(
            decode_utf8(bytes@),
        ),
{
    if bytes.len() == 0 {
        Err(ErrorKind::Connection)
    } else {
        Ok(decode_lossy(bytes))
    }
}

/// From any state and over any events, the sequence number rises by exactly the number of
/// requests that were written, and never falls.
pub proof fn lemma_sequence_number_counts_sends(start: SessionView, events: Seq<Event>)
    ensures
        start.run(events).cseq == start.cseq + start.sends(events),
        start.run(events).server_addr == start.server_addr,
    decreases events.len(),
{
    if events.len() > 0 {
        lemma_sequence_number_counts_sends(start, events.drop_last());
    }
}

/// A new session numbers its requests from 1: after any events of which `n` were requests
/// successfully written, the next request carries `1 + n`.
pub proof fn lemma_fresh_session_sequence_number(server_addr: Seq<char>, events: Seq<Event>)
    ensures
        SessionView::new(server_addr).run(events).cseq == 1 + SessionView::new(server_addr).sends(
            events,
        ),
{
    lemma_sequence_number_counts_sends(SessionView::new(server_addr), events);
}

/// No sequence number is used twice: of two requests that were written to the connection,
/// the later one carries the larger number.
pub proof fn lemma_sequence_numbers_are_not_reused(
    start: SessionView,
    events: Seq<Event>,
    between: Seq<Event>,
    first: Methods,
)
    requires
        start.run(events).accepts(Event::Send(first)),
    ensures
        start.run(events).cseq < start.run(
            events + seq![Event::Send(first), Event::Written] + between,
        ).cseq,
{
    let sent = seq![Event::Send(first), Event::Written];
    lemma_run_append(start, events, sent);
    lemma_run_append(start, events + sent, between);
    assert(start.run(events).run(sent).cseq == start.run(events).cseq + 1) by {
        reveal_with_fuel(SessionView::run, 3);
    }
    lemma_sequence_number_counts_sends(start.run(events).run(sent), between);
}

/// Running two runs of events one after the other is running their concatenation.
pub proof fn lemma_run_append(start: SessionView, head: Seq<Event>, tail: Seq<Event>)
    ensures
        start.run(head + tail) == start.run(head).run(tail),
    decreases tail.len(),
{
    if tail.len() > 0 {
        lemma_run_append(start, head, tail.drop_last());
        assert((head + tail).drop_last() =~= head + tail.drop_last());
    }
}

} // verus!
