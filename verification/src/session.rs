//! A whole session, from the first message of the client to the last
//! message of the adapter: the handshake, the requests, the end.
//!
//! The session reads and writes nothing. Whoever drives it hands it each
//! message that arrived and each reply of the probe, and writes out the
//! messages that wait in its adapter.

use crate::debug_adapter::{
    kind_of_payload, DebugAdapter, DebugAdapterMessage, DebugAdapterMessageView,
    DebugAdapterView, Error, ErrorView, Event, EventView, Outgoing, OutgoingView, Received,
    RestartRequest,
};
use crate::command::{command_of, Command};
use crate::debugger::{delivered, deliver, get_arguments, Debugger, Decision, HandleResult};
use crate::messages::{none, notice, one, refusal, success, two, RequestHead};
use crate::probe::{ProbeReply, ProbeReplyView};
use crate::rules;
use crate::rules::{DebuggerView, DecisionView, HandleResultView};
use crate::types::{Capabilities, ResponseBody, ResponseBodyView};
use vstd::prelude::*;
use vstd::string::StringExecFns;

verus! {

/// How far a session has come.
#[derive(Clone, Copy, Debug, PartialEq, Eq, Structural)]
pub enum Phase {
    /// The client has not yet sent `initialize`.
    Uninitialized,
    /// The handshake is done, and requests are handled.
    Running,
    /// The session has ended.
    Terminated,
}

/// What the adapter announces in the handshake.
pub open spec fn capabilities() -> Capabilities {
    Capabilities { supports_configuration_done_request: Some(true) }
}

/// What a session decides on a message or a reply.
#[verifier::ext_equal]
pub struct SessionDecisionView {
    pub phase: Phase,
    /// What the debug session decides, with the messages of the session
    /// itself among its messages.
    pub decision: DecisionView,
}

/// The words of the error for a first message that is no request.
pub open spec fn no_request_words() -> Seq<char> {
    "Expected request as initial message"@
}

/// The words of the error for a first request that names `command`
/// instead of `initialize`.
pub open spec fn wrong_command_words(command: Seq<char>) -> Seq<char> {
    "Initial command was '"@ + command + "', expected 'initialize'"@
}

/// The decision of the session itself: the debug session stays as it
/// is, `messages` go out, and the next message is read.
pub open spec fn passed(debugger: DebuggerView, messages: Seq<OutgoingView>) -> DecisionView {
    DecisionView { state: debugger, messages, result: Ok(HandleResultView::Continue) }
}

/// The decision that ends a session before it began.
pub open spec fn startup_failure(debugger: DebuggerView, words: Seq<char>) -> SessionDecisionView {
    SessionDecisionView {
        phase: Phase::Terminated,
        decision: DecisionView {
            state: debugger,
            messages: Seq::empty(),
            result: Err(ErrorView::Other(words)),
        },
    }
}

/// What a session in the phase `phase`, whose debug session is in the
/// state `debugger`, decides on the message `message` of the client.
pub open spec fn on_message(
    phase: Phase,
    debugger: DebuggerView,
    message: DebugAdapterMessageView,
) -> SessionDecisionView {
    match phase {
        Phase::Terminated => SessionDecisionView { phase, decision: rules::misuse(debugger) },
        Phase::Uninitialized => match message {
            DebugAdapterMessageView::Request(request) => if command_of(request.command)
                == Command::Initialize {
                match rules::arguments_error(request.arguments) {
                    Some(e) => SessionDecisionView {
                        phase,
                        decision: passed(
                            debugger,
                            seq![rules::refusal(rules::head_of(request), e)],
                        ),
                    },
                    None => SessionDecisionView {
                        phase: Phase::Running,
                        decision: passed(
                            debugger,
                            seq![
                                rules::success(
                                    rules::head_of(request),
                                    Some(ResponseBodyView::Capabilities(capabilities())),
                                ),
                                rules::notice(EventView::Initialized),
                            ],
                        ),
                    },
                }
            } else {
                startup_failure(debugger, wrong_command_words(request.command))
            },
            _ => startup_failure(debugger, no_request_words()),
        },
        Phase::Running => match message {
            DebugAdapterMessageView::Request(request) => {
                let decision = rules::on_request(debugger, request);
                if decision.result == Ok::<HandleResultView, ErrorView>(HandleResultView::Stop) {
                    SessionDecisionView {
                        phase: Phase::Terminated,
                        decision: DecisionView {
                            messages: decision.messages.push(
                                rules::notice(EventView::Terminated(RestartRequest::No)),
                            ),
                            ..decision
                        },
                    }
                } else {
                    SessionDecisionView { phase, decision }
                }
            },
            _ => SessionDecisionView { phase, decision: passed(debugger, Seq::empty()) },
        },
    }
}

/// What a session decides on the reply to the action that it asked for.
pub open spec fn on_reply(
    phase: Phase,
    debugger: DebuggerView,
    reply: ProbeReplyView,
) -> SessionDecisionView {
    match phase {
        Phase::Running => SessionDecisionView {
            phase,
            decision: rules::on_reply(debugger, reply),
        },
        _ => SessionDecisionView { phase, decision: rules::misuse(debugger) },
    }
}

/// A session: the protocol session, the debug session, and how far the
/// two have come.
pub struct Session {
    phase: Phase,
    adapter: DebugAdapter,
    debugger: Debugger,
}

/// `Session` as the contracts speak of it.
#[verifier::ext_equal]
pub struct SessionView {
    pub phase: Phase,
    pub adapter: DebugAdapterView,
    pub debugger: DebuggerView,
}

impl View for Session {
    type V = SessionView;

    closed spec fn view(&self) -> SessionView {
        SessionView { phase: self.phase, adapter: self.adapter@, debugger: self.debugger@ }
    }
}

impl SessionView {
    /// No number is used twice: the messages that wait are numbered in
    /// a row, and the breakpoints are numbered in order.
    pub open spec fn well_formed(self) -> bool {
        self.adapter.numbered_in_a_row() && rules::well_numbered(self.debugger)
    }

    /// The session after `decision` was taken and its messages were
    /// sent.
    pub open spec fn after(self, decision: SessionDecisionView) -> SessionView {
        SessionView {
            phase: decision.phase,
            adapter: self.adapter.sent_all(decision.decision.messages),
            debugger: decision.decision.state,
        }
    }
}

impl Session {
    /// A session that has not begun. Its debug session will resolve
    /// relative paths against the directory `cwd`.
    pub fn new(cwd: &str) -> (r: Session)
        ensures
            r@ == (SessionView {
                phase: Phase::Uninitialized,
                adapter: DebugAdapterView { seq: 1, input: Seq::empty(), outbox: Seq::empty() },
                debugger: rules::initial(cwd@),
            }),
            r@.well_formed(),
    {
        Session {
            phase: Phase::Uninitialized,
            adapter: DebugAdapter::new(),
            debugger: Debugger::new(cwd),
        }
    }

    /// How far the session has come.
    pub fn phase(&self) -> (r: Phase)
        ensures
            r == self@.phase,
            self@.well_formed(),
    {
        proof {
            use_type_invariant(&self.adapter);
            use_type_invariant(&self.debugger);
        }
        self.phase
    }

    /// Takes in `bytes` that arrived from the client.
    pub fn feed(&mut self, bytes: &[u8])
        ensures
            final(self)@ == (SessionView {
                adapter: DebugAdapterView {
                    input: old(self)@.adapter.input + bytes@,
                    ..old(self)@.adapter
                },
                ..old(self)@
            }),
            old(self)@.well_formed(),
            final(self)@.well_formed(),
    {
        proof {
            use_type_invariant(&self.adapter);
            use_type_invariant(&self.debugger);
        }
        self.adapter.feed(bytes);
    }

    /// Takes the next message out of the bytes that have arrived, as
    /// `DebugAdapter::receive_data` does.
    pub fn receive_data(&mut self) -> (r: Result<Received, Error>)
        ensures
            match crate::framing::frame_of(old(self)@.adapter.input) {
                Ok((payload, consumed)) => {
                    &&& final(self)@ == (SessionView {
                        adapter: DebugAdapterView {
                            input: old(self)@.adapter.input.skip(consumed),
                            ..old(self)@.adapter
                        },
                        ..old(self)@
                    })
                    &&& match kind_of_payload(payload) {
                        Ok(kind) => r matches Ok(message) && message.kind == kind
                            && message.payload@ == payload,
                        Err(e) => r matches Err(err) && err@ == e,
                    }
                },
                Err(e) => {
                    &&& r matches Err(err)
                    &&& err@ == ErrorView::Framing(e)
                    &&& final(self)@ == old(self)@
                },
            },
            old(self)@.well_formed(),
            final(self)@.well_formed(),
    {
        proof {
            use_type_invariant(&self.adapter);
            use_type_invariant(&self.debugger);
        }
        self.adapter.receive_data()
    }

    /// Takes the messages that wait to be written, the oldest first.
    pub fn take_outgoing(&mut self) -> (r: Vec<Outgoing>)
        ensures
            r.deep_view() == old(self)@.adapter.outbox,
            forall|i: int|
                0 <= i < r.len() ==> (#[trigger] r[i])@.seq() == old(self)@.adapter.seq - r.len()
                    + i,
            final(self)@ == (SessionView {
                adapter: DebugAdapterView { outbox: Seq::empty(), ..old(self)@.adapter },
                ..old(self)@
            }),
            old(self)@.well_formed(),
            final(self)@.well_formed(),
    {
        proof {
            use_type_invariant(&self.adapter);
            use_type_invariant(&self.debugger);
        }
        self.adapter.take_outgoing()
    }

    fn decide(&mut self, message: &DebugAdapterMessage) -> (r: Decision)
        ensures
            final(self).adapter@ == old(self).adapter@,
            ({
                let d = on_message(old(self)@.phase, old(self)@.debugger, message@);
                &&& final(self)@.phase == d.phase
                &&& r.is(final(self)@.debugger, d.decision)
            }),
            old(self)@.well_formed(),
            final(self)@.well_formed(),
    {
        proof {
            use_type_invariant(&self.adapter);
            use_type_invariant(&self.debugger);
        }
        match self.phase {
            Phase::Terminated => Decision {
                messages: none(),
                result: Err(Error::InvalidRequest),
            },
            Phase::Uninitialized => match message {
                DebugAdapterMessage::Request(request) => {
                    match Command::of(request.command.as_str()) {
                        Command::Initialize => {
                            let head = RequestHead {
                                seq: request.seq,
                                command: request.command.clone(),
                            };
                            match get_arguments(request) {
                                Err(e) => Decision {
                                    messages: one(
                                        refusal(&head, &e),
                                    ),
                                    result: Ok(HandleResult::Continue),
                                },
                                Ok(_) => {
                                    self.phase = Phase::Running;
                                    let body = ResponseBody::Capabilities(
                                        Capabilities {
                                            supports_configuration_done_request: Some(true),
                                        },
                                    );
                                    Decision {
                                        messages: two(
                                            success(&head, Some(body)),
                                            notice(&Event::Initialized),
                                        ),
                                        result: Ok(HandleResult::Continue),
                                    }
                                },
                            }
                        },
                        _ => {
                            self.phase = Phase::Terminated;
                            let words = String::from_str("Initial command was '").concat(
                                request.command.as_str(),
                            ).concat("', expected 'initialize'");
                            Decision { messages: none(), result: Err(Error::Other(words)) }
                        },
                    }
                },
                _ => {
                    self.phase = Phase::Terminated;
                    Decision {
                        messages: none(),
                        result: Err(
                            Error::Other(String::from_str("Expected request as initial message")),
                        ),
                    }
                },
            },
            Phase::Running => match message {
                DebugAdapterMessage::Request(request) => {
                    let Decision { mut messages, result } = self.debugger.decide(request);
                    match result {
                        Ok(HandleResult::Stop) => {
                            self.phase = Phase::Terminated;
                            let ghost before = messages.deep_view();
                            let last = notice(
                                &Event::Terminated(RestartRequest::No),
                            );
                            messages.push(last);
                            assert(messages.deep_view() =~= before.push(last@));
                            Decision { messages, result: Ok(HandleResult::Stop) }
                        },
                        _ => Decision { messages, result },
                    }
                },
                _ => Decision { messages: none(), result: Ok(HandleResult::Continue) },
            },
        }
    }

    /// Takes the message `message` of the client. Before the handshake
    /// only `initialize` is accepted; after it each request is handled by
    /// the debug session, and a request that ends the session is followed
    /// by the event `terminated`. What else the client sends is passed
    /// over. The messages of the decision are sent, and the result says
    /// what is to happen next.
    pub fn on_message(&mut self, message: &DebugAdapterMessage) -> (r: Result<
        HandleResult,
        Error,
    >)
        ensures
            final(self)@ == old(self)@.after(
                on_message(old(self)@.phase, old(self)@.debugger, message@),
            ),
            delivered(
                r,
                old(self)@.adapter,
                on_message(old(self)@.phase, old(self)@.debugger, message@).decision,
            ),
            old(self)@.well_formed(),
            final(self)@.well_formed(),
    {
        proof {
            use_type_invariant(&self.adapter);
            use_type_invariant(&self.debugger);
        }
        let decision = self.decide(message);
        deliver(&mut self.adapter, decision)
    }

    /// Takes `reply`, the reply to the action that the session asked for
    /// last.
    pub fn on_reply(&mut self, reply: ProbeReply) -> (r: Result<HandleResult, Error>)
        ensures
            final(self)@ == old(self)@.after(
                on_reply(old(self)@.phase, old(self)@.debugger, reply@),
            ),
            delivered(
                r,
                old(self)@.adapter,
                on_reply(old(self)@.phase, old(self)@.debugger, reply@).decision,
            ),
            old(self)@.well_formed(),
            final(self)@.well_formed(),
    {
        proof {
            use_type_invariant(&self.adapter);
            use_type_invariant(&self.debugger);
        }
        let decision = match self.phase {
            Phase::Running => self.debugger.decide_reply(reply),
            _ => Decision { messages: none(), result: Err(Error::InvalidRequest) },
        };
        deliver(&mut self.adapter, decision)
    }
}

} // verus!
