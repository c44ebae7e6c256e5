//! The protocol session: it numbers the messages that leave, takes frames
//! out of the bytes that arrive, and tells the kinds of message apart.

use crate::framing::{frame_of, read_frame, FramingError};
use crate::text::{copy_text, str_eq};
use crate::types::{Breakpoint, Request, Response, ResponseBody, ResponseView};
use vstd::prelude::*;
use vstd::slice::{slice_subrange, slice_to_vec};
use vstd::string::StringExecFns;

verus! {

/// Whether the client is asked to start the session again.
#[derive(Debug, Copy, Clone, PartialEq, Eq, Structural)]
pub enum RestartRequest {
    Yes,
    No,
}

/// What can go wrong in a session.
#[derive(Clone, Debug, PartialEq, Eq)]
pub enum Error {
    /// The stream does not hold a frame.
    Framing(FramingError),
    /// A message whose `type` is none of `request`, `response`, `event`.
    /// Holds that type.
    UnknownMessageType(String),
    /// A payload, or the arguments of a request, that a decoder refused.
    /// Holds the decoder's words.
    MalformedPayload(String),
    /// The probe failed. Holds the probe's words.
    ProbeError(String),
    /// The command needs a probe, and none is attached.
    MissingSession,
    /// The request lacks what its command needs.
    InvalidRequest,
    /// The command is not supported.
    Unimplemented,
    /// No sequence number or identifier is left to give out.
    Exhausted,
    /// Anything else. Holds the words of the error.
    Other(String),
}

/// `Error` as the contracts speak of it.
#[verifier::ext_equal]
pub enum ErrorView {
    Framing(FramingError),
    UnknownMessageType(Seq<char>),
    MalformedPayload(Seq<char>),
    ProbeError(Seq<char>),
    MissingSession,
    InvalidRequest,
    Unimplemented,
    Exhausted,
    Other(Seq<char>),
}

impl ErrorView {
    /// The words in which a failed response reports the error.
    pub open spec fn text(self) -> Seq<char> {
        match self {
            ErrorView::Framing(FramingError::MissingLength) => "Failed to read content length from header"@,
            ErrorView::Framing(_) => "Input error"@,
            ErrorView::UnknownMessageType(kind) => "Unknown message type: "@ + kind,
            ErrorView::MalformedPayload(_) => "Serialiation error"@,
            ErrorView::ProbeError(_) => "Error in interaction with probe"@,
            ErrorView::MissingSession => "Missing session for interaction with probe"@,
            ErrorView::InvalidRequest => "Received an invalid requeset"@,
            ErrorView::Unimplemented => "Request not implemented"@,
            ErrorView::Exhausted => "Sequence numbers exhausted"@,
            ErrorView::Other(words) => words,
        }
    }
}

impl DeepView for Error {
    type V = ErrorView;

    open spec fn deep_view(&self) -> ErrorView {
        match self {
            Error::Framing(e) => ErrorView::Framing(*e),
            Error::UnknownMessageType(kind) => ErrorView::UnknownMessageType(kind@),
            Error::MalformedPayload(why) => ErrorView::MalformedPayload(why@),
            Error::ProbeError(why) => ErrorView::ProbeError(why@),
            Error::MissingSession => ErrorView::MissingSession,
            Error::InvalidRequest => ErrorView::InvalidRequest,
            Error::Unimplemented => ErrorView::Unimplemented,
            Error::Exhausted => ErrorView::Exhausted,
            Error::Other(words) => ErrorView::Other(words@),
        }
    }
}

impl View for Error {
    type V = ErrorView;

    open spec fn view(&self) -> ErrorView {
        self.deep_view()
    }
}

impl Error {
    /// The words in which a failed response reports the error.
    pub fn message(&self) -> (r: String)
        ensures
            r@ == self@.text(),
    {
        match self {
            Error::Framing(FramingError::MissingLength) => String::from_str(
                "Failed to read content length from header",
            ),
            Error::Framing(_) => String::from_str("Input error"),
            Error::UnknownMessageType(kind) => String::from_str("Unknown message type: ").concat(
                kind.as_str(),
            ),
            Error::MalformedPayload(_) => String::from_str("Serialiation error"),
            Error::ProbeError(_) => String::from_str("Error in interaction with probe"),
            Error::MissingSession => String::from_str(
                "Missing session for interaction with probe",
            ),
            Error::InvalidRequest => String::from_str("Received an invalid requeset"),
            Error::Unimplemented => String::from_str("Request not implemented"),
            Error::Exhausted => String::from_str("Sequence numbers exhausted"),
            Error::Other(words) => words.clone(),
        }
    }
}

/// What the adapter tells the client without being asked.
#[derive(Clone, Debug, PartialEq, Eq)]
#[allow(inconsistent_fields)]
pub enum Event {
    Exited(i64),
    Module,
    Output { output: String, category: Option<String> },
    Thread { reason: String, thread_id: i64 },
    Process { name: String },
    Stopped { reason: String, description: Option<String>, thread_id: Option<i64> },
    Continued,
    Breakpoint { reason: String, breakpoint: Breakpoint },
    Terminated(RestartRequest),
    Initialized,
    Capabilities,
    LoadedSource,
}

/// `Event` as the contracts speak of it.
#[allow(inconsistent_fields)]
#[verifier::ext_equal]
pub enum EventView {
    Exited(i64),
    Module,
    Output { output: Seq<char>, category: Option<Seq<char>> },
    Thread { reason: Seq<char>, thread_id: i64 },
    Process { name: Seq<char> },
    Stopped { reason: Seq<char>, description: Option<Seq<char>>, thread_id: Option<i64> },
    Continued,
    Breakpoint { reason: Seq<char>, breakpoint: Breakpoint },
    Terminated(RestartRequest),
    Initialized,
    Capabilities,
    LoadedSource,
}

impl DeepView for Event {
    type V = EventView;

    open spec fn deep_view(&self) -> EventView {
        match self {
            Event::Exited(code) => EventView::Exited(*code),
            Event::Module => EventView::Module,
            Event::Output { output, category } => EventView::Output {
                output: output@,
                category: category.deep_view(),
            },
            Event::Thread { reason, thread_id } => EventView::Thread {
                reason: reason@,
                thread_id: *thread_id,
            },
            Event::Process { name } => EventView::Process { name: name@ },
            Event::Stopped { reason, description, thread_id } => EventView::Stopped {
                reason: reason@,
                description: description.deep_view(),
                thread_id: *thread_id,
            },
            Event::Continued => EventView::Continued,
            Event::Breakpoint { reason, breakpoint } => EventView::Breakpoint {
                reason: reason@,
                breakpoint: *breakpoint,
            },
            Event::Terminated(restart) => EventView::Terminated(*restart),
            Event::Initialized => EventView::Initialized,
            Event::Capabilities => EventView::Capabilities,
            Event::LoadedSource => EventView::LoadedSource,
        }
    }
}

impl View for Event {
    type V = EventView;

    open spec fn view(&self) -> EventView {
        self.deep_view()
    }
}

/// What an event message carries, by the kind of event.
#[derive(Clone, Debug, PartialEq, Eq)]
#[allow(inconsistent_fields)]
pub enum EventBody {
    Exited { exit_code: i64 },
    Output { output: String, category: Option<String> },
    Thread { reason: String, thread_id: i64 },
    Process { name: String },
    Stopped { reason: String, description: Option<String>, thread_id: Option<i64> },
    Breakpoint { reason: String, breakpoint: Breakpoint },
    Terminated { restart: bool },
}

/// `EventBody` as the contracts speak of it.
#[allow(inconsistent_fields)]
#[verifier::ext_equal]
pub enum EventBodyView {
    Exited { exit_code: i64 },
    Output { output: Seq<char>, category: Option<Seq<char>> },
    Thread { reason: Seq<char>, thread_id: i64 },
    Process { name: Seq<char> },
    Stopped { reason: Seq<char>, description: Option<Seq<char>>, thread_id: Option<i64> },
    Breakpoint { reason: Seq<char>, breakpoint: Breakpoint },
    Terminated { restart: bool },
}

impl DeepView for EventBody {
    type V = EventBodyView;

    open spec fn deep_view(&self) -> EventBodyView {
        match self {
            EventBody::Exited { exit_code } => EventBodyView::Exited { exit_code: *exit_code },
            EventBody::Output { output, category } => EventBodyView::Output {
                output: output@,
                category: category.deep_view(),
            },
            EventBody::Thread { reason, thread_id } => EventBodyView::Thread {
                reason: reason@,
                thread_id: *thread_id,
            },
            EventBody::Process { name } => EventBodyView::Process { name: name@ },
            EventBody::Stopped { reason, description, thread_id } => EventBodyView::Stopped {
                reason: reason@,
                description: description.deep_view(),
                thread_id: *thread_id,
            },
            EventBody::Breakpoint { reason, breakpoint } => EventBodyView::Breakpoint {
                reason: reason@,
                breakpoint: *breakpoint,
            },
            EventBody::Terminated { restart } => EventBodyView::Terminated { restart: *restart },
        }
    }
}

impl View for EventBody {
    type V = EventBodyView;

    open spec fn view(&self) -> EventBodyView {
        self.deep_view()
    }
}

/// An event as a message: numbered, named, with what it carries.
#[derive(Clone, Debug, PartialEq, Eq)]
pub struct EventMessage {
    /// The sequence number of this message.
    pub seq: i64,
    /// The name of the kind of event.
    pub event: String,
    pub body: Option<EventBody>,
}

/// `EventMessage` as the contracts speak of it.
#[verifier::ext_equal]
pub struct EventMessageView {
    pub seq: i64,
    pub event: Seq<char>,
    pub body: Option<EventBodyView>,
}

impl DeepView for EventMessage {
    type V = EventMessageView;

    open spec fn deep_view(&self) -> EventMessageView {
        EventMessageView { seq: self.seq, event: self.event@, body: self.body.deep_view() }
    }
}

impl View for EventMessage {
    type V = EventMessageView;

    open spec fn view(&self) -> EventMessageView {
        self.deep_view()
    }
}

impl EventView {
    /// The name under which a kind of event goes out.
    pub open spec fn name(self) -> Seq<char> {
        match self {
            EventView::Exited(_) => "exited"@,
            EventView::Module => "module"@,
            EventView::Output { .. } => "output"@,
            EventView::Thread { .. } => "thread"@,
            EventView::Process { .. } => "process"@,
            EventView::Stopped { .. } => "stopped"@,
            EventView::Continued => "continued"@,
            EventView::Breakpoint { .. } => "breakpoint"@,
            EventView::Terminated(_) => "terminated"@,
            EventView::Initialized => "initialized"@,
            EventView::Capabilities => "capabilities"@,
            EventView::LoadedSource => "loadedSource"@,
        }
    }

    /// What the message of an event carries: what the event itself
    /// holds, and nothing for an event that holds nothing.
    pub open spec fn body(self) -> Option<EventBodyView> {
        match self {
            EventView::Exited(exit_code) => Some(EventBodyView::Exited { exit_code }),
            EventView::Process { name } => Some(EventBodyView::Process { name }),
            EventView::Thread { reason, thread_id } => Some(
                EventBodyView::Thread { reason, thread_id },
            ),
            EventView::Stopped { reason, description, thread_id } => Some(
                EventBodyView::Stopped { reason, description, thread_id },
            ),
            EventView::Output { output, category } => Some(
                EventBodyView::Output { output, category },
            ),
            EventView::Terminated(restart) => Some(
                EventBodyView::Terminated { restart: restart == RestartRequest::Yes },
            ),
            EventView::Breakpoint { reason, breakpoint } => Some(
                EventBodyView::Breakpoint { reason, breakpoint },
            ),
            EventView::Module
            | EventView::Continued
            | EventView::Initialized
            | EventView::Capabilities
            | EventView::LoadedSource => None,
        }
    }

    /// The message of an event, numbered `seq`.
    pub open spec fn message(self, seq: i64) -> EventMessageView {
        EventMessageView { seq, event: self.name(), body: self.body() }
    }

    /// The event that shows `msg` on the client's console.
    pub open spec fn console_output(msg: Seq<char>) -> EventView {
        EventView::Output { output: msg, category: Some("console"@) }
    }
}

impl Event {
    /// The message of this event, numbered `seq`. Every event has one,
    /// so the result is never an error.
    pub fn serialize(&self, seq: i64) -> (r: Result<EventMessage, Error>)
        ensures
            r matches Ok(message) && message@ == self@.message(seq),
    {
        Ok(self.to_message(seq))
    }

    /// The message of this event, numbered `seq`.
    pub fn to_message(&self, seq: i64) -> (r: EventMessage)
        ensures
            r@ == self@.message(seq),
    {
        let (event, body) = match self {
            Event::Exited(exit_code) => (
                String::from_str("exited"),
                Some(EventBody::Exited { exit_code: *exit_code }),
            ),
            Event::Module => (String::from_str("module"), None),
            Event::Continued => (String::from_str("continued"), None),
            Event::Capabilities => (String::from_str("capabilities"), None),
            Event::LoadedSource => (String::from_str("loadedSource"), None),
            Event::Initialized => (String::from_str("initialized"), None),
            Event::Process { name } => (
                String::from_str("process"),
                Some(EventBody::Process { name: name.clone() }),
            ),
            Event::Thread { reason, thread_id } => (
                String::from_str("thread"),
                Some(EventBody::Thread { reason: reason.clone(), thread_id: *thread_id }),
            ),
            Event::Stopped { reason, description, thread_id } => (
                String::from_str("stopped"),
                Some(
                    EventBody::Stopped {
                        reason: reason.clone(),
                        description: copy_text(description),
                        thread_id: *thread_id,
                    },
                ),
            ),
            Event::Output { output, category } => (
                String::from_str("output"),
                Some(EventBody::Output { output: output.clone(), category: copy_text(category) }),
            ),
            Event::Terminated(restart) => (
                String::from_str("terminated"),
                Some(EventBody::Terminated { restart: *restart == RestartRequest::Yes }),
            ),
            Event::Breakpoint { reason, breakpoint } => (
                String::from_str("breakpoint"),
                Some(EventBody::Breakpoint { reason: reason.clone(), breakpoint: *breakpoint }),
            ),
        };
        EventMessage { seq, event, body }
    }

    /// The event that shows `msg` on the client's console.
    pub fn console_output(msg: String) -> (r: Event)
        ensures
            r@ == EventView::console_output(msg@),
    {
        Event::Output { output: msg, category: Some(String::from_str("console")) }
    }
}

/// A message that waits to be written to the client.
#[derive(Clone, Debug, PartialEq, Eq)]
pub enum Outgoing {
    Response(Response),
    Event(EventMessage),
}

/// `Outgoing` as the contracts speak of it.
#[verifier::ext_equal]
pub enum OutgoingView {
    Response(ResponseView),
    Event(EventMessageView),
}

impl OutgoingView {
    /// The sequence number of the message.
    pub open spec fn seq(self) -> i64 {
        match self {
            OutgoingView::Response(r) => r.seq,
            OutgoingView::Event(e) => e.seq,
        }
    }

    /// The message with the sequence number `seq` in place of its own.
    pub open spec fn numbered(self, seq: i64) -> OutgoingView {
        match self {
            OutgoingView::Response(r) => OutgoingView::Response(ResponseView { seq, ..r }),
            OutgoingView::Event(e) => OutgoingView::Event(EventMessageView { seq, ..e }),
        }
    }
}

impl DeepView for Outgoing {
    type V = OutgoingView;

    open spec fn deep_view(&self) -> OutgoingView {
        match self {
            Outgoing::Response(r) => OutgoingView::Response(r.deep_view()),
            Outgoing::Event(e) => OutgoingView::Event(e.deep_view()),
        }
    }
}

impl View for Outgoing {
    type V = OutgoingView;

    open spec fn view(&self) -> OutgoingView {
        self.deep_view()
    }
}

/// The kinds of message.
#[derive(Debug, Copy, Clone, PartialEq, Eq, Structural)]
pub enum MessageKind {
    Request,
    Response,
    Event,
}

/// The kind of message that the value `kind` of the field `type` stands
/// for.
pub open spec fn message_kind(kind: Seq<char>) -> Option<MessageKind> {
    if kind == "request"@ {
        Some(MessageKind::Request)
    } else if kind == "response"@ {
        Some(MessageKind::Response)
    } else if kind == "event"@ {
        Some(MessageKind::Event)
    } else {
        None
    }
}

/// The value of the field `type` of the message that the payload
/// `content` holds, as `serde_json::from_slice` decodes the payload into a
/// `debugserver_types::ProtocolMessage`; or, for a payload that is no such
/// message, the words of the decoder's error.
pub uninterp spec fn envelope_of(content: Seq<u8>) -> Result<Seq<char>, Seq<char>>;

/// `serde_json::from_slice` at the type `debugserver_types::ProtocolMessage`,
/// which holds the fields `seq` and `type` of a message and passes over
/// all others. The result is the value of `type`, or the words of the
/// decoder's error. Nothing is claimed of it but that it depends on the
/// payload alone.
#[verifier::external_body]
fn decode_envelope(content: &[u8]) -> (r: Result<String, String>)
    ensures
        match r {
            Ok(kind) => envelope_of(content@) == Ok::<Seq<char>, Seq<char>>(kind@),
            Err(why) => envelope_of(content@) == Err::<Seq<char>, Seq<char>>(why@),
        },
{
    match serde_json::from_slice::<debugserver_types::ProtocolMessage>(content) {
        Ok(message) => Ok(message.type_),
        Err(e) => Err(e.to_string()),
    }
}

/// The kind of the message that the payload `content` holds. A payload
/// that is no message at all is a `MalformedPayload`, and a message of no
/// known kind an `UnknownMessageType`.
pub open spec fn kind_of_payload(content: Seq<u8>) -> Result<MessageKind, ErrorView> {
    match envelope_of(content) {
        Err(why) => Err(ErrorView::MalformedPayload(why)),
        Ok(kind) => match message_kind(kind) {
            Some(k) => Ok(k),
            None => Err(ErrorView::UnknownMessageType(kind)),
        },
    }
}

/// A message as it comes out of the input: its kind, and the payload
/// that holds it.
#[derive(Clone, Debug, PartialEq, Eq)]
pub struct Received {
    pub kind: MessageKind,
    pub payload: Vec<u8>,
}

/// A message of the client.
#[derive(Clone, Debug, PartialEq, Eq)]
pub enum DebugAdapterMessage {
    Request(Request),
    Response(Response),
    Event(EventMessage),
}

/// `DebugAdapterMessage` as the contracts speak of it.
#[verifier::ext_equal]
pub enum DebugAdapterMessageView {
    Request(crate::types::RequestView),
    Response(ResponseView),
    Event(EventMessageView),
}

impl DeepView for DebugAdapterMessage {
    type V = DebugAdapterMessageView;

    open spec fn deep_view(&self) -> DebugAdapterMessageView {
        match self {
            DebugAdapterMessage::Request(r) => DebugAdapterMessageView::Request(r.deep_view()),
            DebugAdapterMessage::Response(r) => DebugAdapterMessageView::Response(r.deep_view()),
            DebugAdapterMessage::Event(e) => DebugAdapterMessageView::Event(e.deep_view()),
        }
    }
}

impl View for DebugAdapterMessage {
    type V = DebugAdapterMessageView;

    open spec fn view(&self) -> DebugAdapterMessageView {
        self.deep_view()
    }
}

impl DebugAdapterMessage {
    /// The kind of message that `kind`, the value of a message's field
    /// `type`, stands for. Any value but `request`, `response` and `event`
    /// is an error that holds the value.
    pub fn kind_of(kind: &str) -> (r: Result<MessageKind, Error>)
        ensures
            match r {
                Ok(k) => message_kind(kind@) == Some(k),
                Err(e) => message_kind(kind@) is None && e@ == ErrorView::UnknownMessageType(
                    kind@,
                ),
            },
    {
        if str_eq(kind, "request") {
            Ok(MessageKind::Request)
        } else if str_eq(kind, "response") {
            Ok(MessageKind::Response)
        } else if str_eq(kind, "event") {
            Ok(MessageKind::Event)
        } else {
            Err(Error::UnknownMessageType(String::from_str(kind)))
        }
    }
}

/// The response that answers `request` with `outcome`, numbered `seq`.
pub open spec fn response_to(
    request: crate::types::RequestView,
    outcome: Result<Option<crate::types::ResponseBodyView>, ErrorView>,
    seq: i64,
) -> ResponseView {
    ResponseView {
        seq,
        request_seq: request.seq,
        command: request.command,
        success: outcome is Ok,
        message: match outcome {
            Ok(_) => None,
            Err(e) => Some(e.text()),
        },
        body: match outcome {
            Ok(body) => body,
            Err(_) => None,
        },
    }
}

/// The state of a protocol session.
pub struct DebugAdapter {
    seq: i64,
    input: Vec<u8>,
    outbox: Vec<Outgoing>,
}

/// `DebugAdapter` as the contracts speak of it.
#[verifier::ext_equal]
pub struct DebugAdapterView {
    /// The sequence number that the next message to leave will have.
    pub seq: i64,
    /// The bytes that have arrived and belong to no frame taken so far.
    pub input: Seq<u8>,
    /// The messages that wait to be written, the oldest first.
    pub outbox: Seq<OutgoingView>,
}

impl DebugAdapterView {
    /// The state after `message` was sent: it waits in the outbox under
    /// the number that was next, and the number after that is next.
    pub open spec fn sent(self, message: OutgoingView) -> DebugAdapterView {
        DebugAdapterView {
            seq: (self.seq + 1) as i64,
            outbox: self.outbox.push(message.numbered(self.seq)),
            ..self
        }
    }

    /// Whether a message can still be numbered.
    pub open spec fn can_send(self) -> bool {
        self.seq < i64::MAX
    }

    /// Whether `count` messages can still be numbered.
    pub open spec fn can_send_all(self, count: nat) -> bool {
        self.seq + count <= i64::MAX
    }

    /// The state after the messages `messages` were sent one after the
    /// other, for as long as a number was left.
    pub open spec fn sent_all(self, messages: Seq<OutgoingView>) -> DebugAdapterView
        decreases messages.len(),
    {
        if messages.len() == 0 || !self.can_send() {
            self
        } else {
            self.sent(messages[0]).sent_all(messages.drop_first())
        }
    }

    /// The waiting messages are numbered in a row that ends just before
    /// the number that is next.
    pub open spec fn numbered_in_a_row(self) -> bool {
        forall|i: int|
            0 <= i < self.outbox.len() ==> (#[trigger] self.outbox[i]).seq() == self.seq
                - self.outbox.len() + i
    }
}

impl View for DebugAdapter {
    type V = DebugAdapterView;

    closed spec fn view(&self) -> DebugAdapterView {
        DebugAdapterView {
            seq: self.seq,
            input: self.input@,
            outbox: self.outbox.deep_view(),
        }
    }
}

proof fn lemma_same_outbox_same_numbering(before: DebugAdapterView, after: DebugAdapterView)
    requires
        before.numbered_in_a_row(),
        after.seq == before.seq,
        after.outbox == before.outbox,
    ensures
        after.numbered_in_a_row(),
{
    assert forall|i: int| 0 <= i < after.outbox.len() implies (#[trigger] after.outbox[i]).seq()
        == after.seq - after.outbox.len() + i by {
        assert(before.outbox[i].seq() == before.seq - before.outbox.len() + i);
    }
}

impl DebugAdapter {
    /// The messages that wait are numbered in a row that ends just before
    /// the number that is next: no number is used twice.
    #[verifier::type_invariant]
    pub open spec fn numbered(&self) -> bool {
        self@.numbered_in_a_row()
    }

    /// A session in which nothing has arrived and nothing was sent. Its
    /// first message will have the number 1.
    pub fn new() -> (r: DebugAdapter)
        ensures
            r@ == (DebugAdapterView { seq: 1, input: Seq::empty(), outbox: Seq::empty() }),
            r@.numbered_in_a_row(),
    {
        let r = DebugAdapter { seq: 1, input: Vec::new(), outbox: Vec::new() };
        assert(r@.outbox =~= Seq::empty());
        r
    }

    /// Takes the whole state out of `self`, and leaves the state of a
    /// new session in its place.
    fn take(&mut self) -> (r: DebugAdapter)
        ensures
            r@ == old(self)@,
            r@.numbered_in_a_row(),
            final(self)@ == (DebugAdapterView {
                seq: 1,
                input: Seq::empty(),
                outbox: Seq::empty(),
            }),
    {
        proof {
            use_type_invariant(&*self);
        }
        let mut taken = DebugAdapter::new();
        std::mem::swap(self, &mut taken);
        taken
    }

    /// The sequence number that the next message to leave will have.
    pub fn peek_seq(&self) -> (r: i64)
        ensures
            r == self@.seq,
            self@.numbered_in_a_row(),
    {
        proof {
            use_type_invariant(self);
        }
        self.seq
    }

    /// Takes in `bytes` that arrived from the client.
    pub fn feed(&mut self, bytes: &[u8])
        ensures
            final(self)@ == (DebugAdapterView {
                input: old(self)@.input + bytes@,
                ..old(self)@
            }),
            old(self)@.numbered_in_a_row(),
            final(self)@.numbered_in_a_row(),
    {
        let DebugAdapter { seq, mut input, outbox } = self.take();
        input.extend_from_slice(bytes);
        proof {
            lemma_same_outbox_same_numbering(
                old(self)@,
                DebugAdapterView { seq, input: input@, outbox: outbox.deep_view() },
            );
        }
        *self = DebugAdapter { seq, input, outbox };
        assert(self@.input =~= old(self)@.input + bytes@);
        assert(self@.outbox =~= old(self)@.outbox);
    }

    /// Takes the next message out of the bytes that have arrived: the
    /// frame at their start is taken out, and its payload is looked at
    /// just far enough to tell the kind of message that it holds.
    ///
    /// The bytes are taken as all that can be read before the end of the
    /// stream: a frame that is not whole is an error, and then no byte is
    /// taken. A whole frame is taken also where its payload is refused.
    pub fn receive_data(&mut self) -> (r: Result<Received, Error>)
        ensures
            match frame_of(old(self)@.input) {
                Ok((payload, consumed)) => {
                    &&& final(self)@ == (DebugAdapterView {
                        input: old(self)@.input.skip(consumed),
                        ..old(self)@
                    })
                    &&& match kind_of_payload(payload) {
                        Ok(kind) => r matches Ok(message) && message.kind == kind
                            && message.payload@ == payload,
                        Err(e) => r matches Err(err) && err@ == e,
                    }
                },
                Err(e) => {
                    &&& r matches Err(err)
                    &&& err@ == ErrorView::Framing(e)
                    &&& final(self)@ == old(self)@
                },
            },
            old(self)@.numbered_in_a_row(),
            final(self)@.numbered_in_a_row(),
    {
        proof {
            use_type_invariant(&*self);
        }
        let frame = match read_frame(self.input.as_slice()) {
            Ok(frame) => frame,
            Err(e) => {
                return Err(Error::Framing(e));
            },
        };
        let rest = slice_to_vec(
            slice_subrange(self.input.as_slice(), frame.consumed, self.input.len()),
        );
        proof {
            lemma_same_outbox_same_numbering(
                self@,
                DebugAdapterView { input: rest@, ..self@ },
            );
        }
        self.input = rest;
        let kind = match decode_envelope(frame.payload.as_slice()) {
            Ok(kind) => kind,
            Err(why) => {
                return Err(Error::MalformedPayload(why));
            },
        };
        match DebugAdapterMessage::kind_of(kind.as_str()) {
            Ok(kind) => Ok(Received { kind, payload: frame.payload }),
            Err(e) => Err(e),
        }
    }

    /// Sends `message`: gives it the number that is next and lets it wait
    /// to be written. Fails, and sends nothing, where no number is left.
    pub fn send_data(&mut self, message: Outgoing) -> (r: Result<(), Error>)
        ensures
            old(self)@.can_send() ==> r is Ok && final(self)@ == old(self)@.sent(message@),
            !old(self)@.can_send() ==> (r matches Err(e) && e@ == ErrorView::Exhausted)
                && final(self)@ == old(self)@,
            old(self)@.numbered_in_a_row(),
            final(self)@.numbered_in_a_row(),
    {
        proof {
            use_type_invariant(&*self);
        }
        if self.seq == i64::MAX {
            return Err(Error::Exhausted);
        }
        let ghost before = self@;
        let DebugAdapter { seq, input, mut outbox } = self.take();
        let numbered = match message {
            Outgoing::Response(r) => Outgoing::Response(Response { seq, ..r }),
            Outgoing::Event(e) => Outgoing::Event(EventMessage { seq, ..e }),
        };
        assert(numbered@ == message@.numbered(seq));
        outbox.push(numbered);
        proof {
            lemma_sent_numbers_in_a_row(before, message@);
            assert(outbox.deep_view() =~= before.outbox.push(numbered@));
        }
        *self = DebugAdapter { seq: seq + 1, input, outbox };
        Ok(())
    }

    /// Sends `messages` one after the other. Fails at the first for which
    /// no number is left, and sends neither it nor those after it.
    pub fn send_all(&mut self, messages: Vec<Outgoing>) -> (r: Result<(), Error>)
        ensures
            final(self)@ == old(self)@.sent_all(messages.deep_view()),
            old(self)@.can_send_all(messages.len() as nat) ==> r is Ok,
            !old(self)@.can_send_all(messages.len() as nat) ==> (r matches Err(e) && e@
                == ErrorView::Exhausted),
            old(self)@.numbered_in_a_row(),
            final(self)@.numbered_in_a_row(),
    {
        proof {
            use_type_invariant(&*self);
        }
        let ghost all = messages.deep_view();
        let ghost start = self@;
        assert(all.skip(0) =~= all);
        for message in it: messages
            invariant
                start.numbered_in_a_row(),
                self@.numbered_in_a_row(),
                it.seq() == messages@,
                all == messages.deep_view(),
                start == old(self)@,
                self@.sent_all(all.skip(it.index() as int)) == start.sent_all(all),
                self@.seq == start.seq + it.index(),
        {
            let ghost i = it.index() as int;
            assert(all.skip(i).drop_first() =~= all.skip(i + 1));
            assert(all.skip(i)[0] == message@);
            assert(i < messages.len());
            match self.send_data(message) {
                Ok(()) => {},
                Err(e) => {
                    return Err(e);
                },
            }
        }
        assert(all.skip(all.len() as int) =~= Seq::empty());
        Ok(())
    }

    /// Answers `request`: with success and the body of `response`, or
    /// with failure and the words of its error.
    pub fn send_response(
        &mut self,
        request: &Request,
        response: Result<Option<ResponseBody>, Error>,
    ) -> (r: Result<(), Error>)
        ensures
            old(self)@.can_send() ==> r is Ok && final(self)@ == old(self)@.sent(
                OutgoingView::Response(
                    response_to(request@, outcome_view(response), old(self)@.seq),
                ),
            ),
            !old(self)@.can_send() ==> (r matches Err(e) && e@ == ErrorView::Exhausted)
                && final(self)@ == old(self)@,
            old(self)@.numbered_in_a_row(),
            final(self)@.numbered_in_a_row(),
    {
        let seq = self.peek_seq();
        let mut resp = Response {
            command: request.command.clone(),
            request_seq: request.seq,
            seq,
            success: false,
            body: None,
            message: None,
        };
        match response {
            Ok(body) => {
                resp.success = true;
                resp.body = body;
            },
            Err(e) => {
                resp.message = Some(e.message());
            },
        }
        self.send_data(Outgoing::Response(resp))
    }

    /// Sends `event`, whatever its kind. Fails, and sends nothing, where
    /// no number is left.
    pub fn send_event(&mut self, event: &Event) -> (r: Result<(), Error>)
        ensures
            old(self)@.can_send() ==> r is Ok && final(self)@ == old(self)@.sent(
                OutgoingView::Event(event@.message(old(self)@.seq)),
            ),
            !old(self)@.can_send() ==> (r matches Err(e) && e@ == ErrorView::Exhausted)
                && final(self)@ == old(self)@,
            old(self)@.numbered_in_a_row(),
            final(self)@.numbered_in_a_row(),
    {
        let message = event.to_message(self.seq);
        self.send_data(Outgoing::Event(message))
    }

    /// Shows `msg` on the client's console.
    pub fn log_to_console(&mut self, msg: &str) -> (r: Result<(), Error>)
        ensures
            old(self)@.can_send() ==> r is Ok && final(self)@ == old(self)@.sent(
                OutgoingView::Event(
                    EventView::console_output(msg@).message(old(self)@.seq),
                ),
            ),
            !old(self)@.can_send() ==> (r matches Err(e) && e@ == ErrorView::Exhausted)
                && final(self)@ == old(self)@,
            old(self)@.numbered_in_a_row(),
            final(self)@.numbered_in_a_row(),
    {
        let output_event = Event::console_output(String::from_str(msg));
        self.send_event(&output_event)
    }

    /// Takes the messages that wait to be written, the oldest first. They
    /// are numbered in a row that ends just before the number that is
    /// next.
    pub fn take_outgoing(&mut self) -> (r: Vec<Outgoing>)
        ensures
            r.deep_view() == old(self)@.outbox,
            final(self)@ == (DebugAdapterView { outbox: Seq::empty(), ..old(self)@ }),
            old(self)@.numbered_in_a_row(),
            final(self)@.numbered_in_a_row(),
            forall|i: int|
                0 <= i < r.len() ==> (#[trigger] r[i])@.seq() == old(self)@.seq - r.len() + i,
    {
        let DebugAdapter { seq, input, outbox } = self.take();
        let waiting: Vec<Outgoing> = Vec::new();
        assert(waiting.deep_view() =~= Seq::empty());
        *self = DebugAdapter { seq, input, outbox: waiting };
        assert forall|i: int| 0 <= i < outbox.len() implies (#[trigger] outbox[i])@.seq() == old(
            self,
        )@.seq - outbox.len() + i by {
            assert(old(self)@.outbox[i] == outbox[i]@);
            assert(old(self)@.outbox[i].seq() == old(self)@.seq - old(self)@.outbox.len() + i);
        }
        outbox
    }
}

/// Sending keeps the numbering: where the waiting messages are numbered
/// in a row that ends just before the number that is next, they still are
/// after one more message was sent, and the number that is next has grown
/// by one.
pub proof fn lemma_sent_numbers_in_a_row(state: DebugAdapterView, message: OutgoingView)
    requires
        state.numbered_in_a_row(),
        state.can_send(),
    ensures
        state.sent(message).numbered_in_a_row(),
        state.sent(message).seq == state.seq + 1,
        state.sent(message).outbox.last().seq() == state.seq,
{
    let after = state.sent(message);
    assert forall|i: int| 0 <= i < after.outbox.len() implies (#[trigger] after.outbox[i]).seq()
        == after.seq - after.outbox.len() + i by {
        if i < state.outbox.len() {
            assert(after.outbox[i] == state.outbox[i]);
        }
    }
}

/// The outcome of a request as the contracts speak of it.
pub open spec fn outcome_view(outcome: Result<Option<ResponseBody>, Error>) -> Result<
    Option<crate::types::ResponseBodyView>,
    ErrorView,
> {
    match outcome {
        Ok(body) => Ok(body.deep_view()),
        Err(e) => Err(e@),
    }
}

} // verus!
