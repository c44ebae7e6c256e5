//! The debug session: its state, and the handling of each request and of
//! each reply of the probe, as the rules of the session lay it down.

use crate::breakpoints::{
    add_breakpoints, addresses_from, armed_from, newly_verified, places_from, reported_from,
    resolved_from, resolved_unknown, unresolved_places, without_source, BreakpointInfo,
};
use crate::command::Command;
use crate::debug_adapter::{DebugAdapter, DebugAdapterView, Error, ErrorView, Event, Outgoing};
use crate::frames::{no_frames, reported_frames, scopes_of, to_i64, variables_of};
use crate::laws::{
    lemma_numbers_are_never_reused, lemma_replaced_in_order,
    lemma_resolved_unknown_keeps_numbers, lemma_same_numbers_in_order,
};
use crate::messages::{
    failure, failure_words, head_of, main_thread, none, notice, one, probe_failure, refusal,
    stopped, success, two, RequestHead,
};
use crate::path::join_path;
use crate::probe::{Frame, ProbeAction, ProbeReply};
use crate::rules;
use crate::rules::{DebuggerView, DecisionView, HandleResultView, PendingView};
use crate::types::{
    Arguments, AttachRequestArguments, Request, ResponseBody, SourceBreakpoint,
};
use vstd::prelude::*;
use vstd::string::StringExecFns;

verus! {

/// What is to happen once a request or a reply has been dealt with.
#[derive(Clone, Debug, PartialEq, Eq)]
pub enum HandleResult {
    /// Read the next request.
    Continue,
    /// End the session.
    Stop,
    /// Perform the action, and hand its reply to `Debugger::resume`.
    Probe(ProbeAction),
}

impl DeepView for HandleResult {
    type V = HandleResultView;

    open spec fn deep_view(&self) -> HandleResultView {
        match self {
            HandleResult::Continue => HandleResultView::Continue,
            HandleResult::Stop => HandleResultView::Stop,
            HandleResult::Probe(action) => HandleResultView::Probe(action.deep_view()),
        }
    }
}

impl View for HandleResult {
    type V = HandleResultView;

    open spec fn view(&self) -> HandleResultView {
        self.deep_view()
    }
}

/// What the session waits for: nothing, or the reply to the action that
/// it asked for last, and the request that the reply is for.
#[derive(Clone, Debug, PartialEq, Eq)]
pub enum Pending {
    Idle,
    Attach { request: RequestHead, arguments: AttachRequestArguments, program: String },
    AttachResolve,
    AttachArm,
    SetBreakpointsResolve { request: RequestHead, first: usize },
    SetBreakpointsArm { request: RequestHead, first: usize },
    Reset { request: RequestHead },
    ResetRun { request: RequestHead },
    Pause,
    Continue { request: RequestHead },
    Next { request: RequestHead },
    ProgramCounter { request: RequestHead },
    Unwind { request: RequestHead },
    Source { request: RequestHead },
}

impl DeepView for Pending {
    type V = PendingView;

    open spec fn deep_view(&self) -> PendingView {
        match self {
            Pending::Idle => PendingView::Idle,
            Pending::Attach { request, arguments, program } => PendingView::Attach {
                request: request@,
                arguments: arguments@,
                program: program@,
            },
            Pending::AttachResolve => PendingView::AttachResolve,
            Pending::AttachArm => PendingView::AttachArm,
            Pending::SetBreakpointsResolve { request, first } => PendingView::SetBreakpointsResolve {
                request: request@,
                first: *first as nat,
            },
            Pending::SetBreakpointsArm { request, first } => PendingView::SetBreakpointsArm {
                request: request@,
                first: *first as nat,
            },
            Pending::Reset { request } => PendingView::Reset { request: request@ },
            Pending::ResetRun { request } => PendingView::ResetRun { request: request@ },
            Pending::Pause => PendingView::Pause,
            Pending::Continue { request } => PendingView::Continue { request: request@ },
            Pending::Next { request } => PendingView::Next { request: request@ },
            Pending::ProgramCounter { request } => PendingView::ProgramCounter {
                request: request@,
            },
            Pending::Unwind { request } => PendingView::Unwind { request: request@ },
            Pending::Source { request } => PendingView::Source { request: request@ },
        }
    }
}

impl View for Pending {
    type V = PendingView;

    open spec fn view(&self) -> PendingView {
        self.deep_view()
    }
}

/// What the session decides on a request or a reply.
#[derive(Debug, PartialEq, Eq)]
pub struct Decision {
    /// The messages to send, in this order, not yet numbered.
    pub messages: Vec<Outgoing>,
    /// What is to happen next.
    pub result: Result<HandleResult, Error>,
}

/// What is to happen next, as the rules speak of it.
pub open spec fn result_view(result: Result<HandleResult, Error>) -> Result<
    HandleResultView,
    ErrorView,
> {
    match result {
        Ok(next) => Ok(next@),
        Err(e) => Err(e@),
    }
}

impl Decision {
    /// Whether this decision, with the state `state`, is what the rules
    /// lay down as `decision`.
    pub open spec fn is(self, state: DebuggerView, decision: DecisionView) -> bool {
        &&& state == decision.state
        &&& self.messages.deep_view() == decision.messages
        &&& result_view(self.result) == decision.result
    }
}

/// The arguments of `req`, where it has arguments that were decoded.
/// A request without arguments is an `InvalidRequest`; arguments that a
/// decoder refused are a `MalformedPayload` with the decoder's words.
pub fn get_arguments(req: &Request) -> (r: Result<&Arguments, Error>)
    ensures
        match r {
            Ok(arguments) => rules::arguments_error(req@.arguments) is None && arguments
                == &req.arguments,
            Err(e) => rules::arguments_error(req@.arguments) == Some(e@),
        },
{
    match &req.arguments {
        Arguments::Missing => Err(Error::InvalidRequest),
        Arguments::Malformed(why) => Err(Error::MalformedPayload(why.clone())),
        arguments => Ok(arguments),
    }
}

fn bad_arguments(req: &Request) -> (e: Error)
    ensures
        e@ == match rules::arguments_error(req@.arguments) {
            Some(e) => e,
            None => ErrorView::InvalidRequest,
        },
{
    match get_arguments(req) {
        Err(e) => e,
        Ok(_) => Error::InvalidRequest,
    }
}

/// The state of a debug session.
pub struct Debugger {
    location: String,
    arguments: AttachRequestArguments,
    program: Option<String>,
    session: bool,
    debug_info: bool,
    breakpoints: Vec<BreakpointInfo>,
    bp_id: u32,
    current_stackframes: Vec<Frame>,
    pending: Pending,
}

impl View for Debugger {
    type V = DebuggerView;

    closed spec fn view(&self) -> DebuggerView {
        DebuggerView {
            location: self.location@,
            arguments: self.arguments@,
            program: self.program.deep_view(),
            session: self.session,
            debug_info: self.debug_info,
            breakpoints: self.breakpoints.deep_view(),
            bp_id: self.bp_id,
            current_stackframes: self.current_stackframes.deep_view(),
            pending: self.pending@,
        }
    }
}

impl Pending {
    fn duplicate(&self) -> (r: Pending)
        ensures
            r@ == self@,
    {
        match self {
            Pending::Idle => Pending::Idle,
            Pending::Attach { request, arguments, program } => Pending::Attach {
                request: request.duplicate(),
                arguments: arguments.duplicate(),
                program: program.clone(),
            },
            Pending::AttachResolve => Pending::AttachResolve,
            Pending::AttachArm => Pending::AttachArm,
            Pending::SetBreakpointsResolve { request, first } => Pending::SetBreakpointsResolve {
                request: request.duplicate(),
                first: *first,
            },
            Pending::SetBreakpointsArm { request, first } => Pending::SetBreakpointsArm {
                request: request.duplicate(),
                first: *first,
            },
            Pending::Reset { request } => Pending::Reset { request: request.duplicate() },
            Pending::ResetRun { request } => Pending::ResetRun { request: request.duplicate() },
            Pending::Pause => Pending::Pause,
            Pending::Continue { request } => Pending::Continue { request: request.duplicate() },
            Pending::Next { request } => Pending::Next { request: request.duplicate() },
            Pending::ProgramCounter { request } => Pending::ProgramCounter {
                request: request.duplicate(),
            },
            Pending::Unwind { request } => Pending::Unwind { request: request.duplicate() },
            Pending::Source { request } => Pending::Source { request: request.duplicate() },
        }
    }
}

impl Debugger {
    /// No two breakpoints of a session have the same number, and the
    /// number that the next breakpoint will have is above them all.
    #[verifier::type_invariant]
    pub open spec fn numbered(&self) -> bool {
        rules::well_numbered(self@)
    }

    /// A session that begins in the directory `location`: no probe is
    /// attached, and there are no breakpoints.
    pub fn new(location: &str) -> (r: Debugger)
        ensures
            r@ == rules::initial(location@),
            rules::well_numbered(r@),
    {
        let r = Debugger {
            location: String::from_str(location),
            arguments: AttachRequestArguments {
                program: String::new(),
                chip: String::new(),
                cwd: None,
                reset: None,
                halt_after_reset: None,
            },
            program: None,
            session: false,
            debug_info: false,
            breakpoints: Vec::new(),
            bp_id: 0,
            current_stackframes: Vec::new(),
            pending: Pending::Idle,
        };
        assert(r@ =~~= rules::initial(location@));
        r
    }

    /// Whether a probe is attached.
    pub fn is_attached(&self) -> (r: bool)
        ensures
            r == self@.session,
            rules::well_numbered(self@),
    {
        proof {
            use_type_invariant(self);
        }
        self.session
    }

    /// The breakpoints of the session, in the order in which they were
    /// asked for.
    pub fn breakpoints(&self) -> (r: &Vec<BreakpointInfo>)
        ensures
            r.deep_view() == self@.breakpoints,
            rules::well_numbered(self@),
    {
        proof {
            use_type_invariant(self);
        }
        &self.breakpoints
    }

    fn done(&mut self, messages: Vec<Outgoing>) -> (r: Decision)
        ensures
            r.is(final(self)@, rules::done(old(self)@, messages.deep_view())),
    {
        proof {
            use_type_invariant(&*self);
        }
        self.pending = Pending::Idle;
        Decision { messages, result: Ok(HandleResult::Continue) }
    }

    fn ask(&mut self, pending: Pending, messages: Vec<Outgoing>, action: ProbeAction) -> (r:
        Decision)
        ensures
            r.is(
                final(self)@,
                rules::ask(old(self)@, pending@, messages.deep_view(), action@),
            ),
    {
        proof {
            use_type_invariant(&*self);
        }
        self.pending = pending;
        Decision { messages, result: Ok(HandleResult::Probe(action)) }
    }
}

/// Whether `result` is what comes of the decision `decision` once its
/// messages were handed to a session in the state `adapter`: what the
/// decision says is to happen next, unless the session has too few
/// numbers left for the messages, which is the error `Exhausted`.
pub open spec fn delivered(
    result: Result<HandleResult, Error>,
    adapter: DebugAdapterView,
    decision: DecisionView,
) -> bool {
    if adapter.can_send_all(decision.messages.len()) {
        result_view(result) == decision.result
    } else {
        result_view(result) == Err::<HandleResultView, ErrorView>(ErrorView::Exhausted)
    }
}

pub(crate) fn deliver(adapter: &mut DebugAdapter, decision: Decision) -> (r: Result<HandleResult, Error>)
    ensures
        final(adapter)@ == old(adapter)@.sent_all(decision.messages.deep_view()),
        old(adapter)@.can_send_all(decision.messages.len() as nat) ==> result_view(r)
            == result_view(decision.result),
        !old(adapter)@.can_send_all(decision.messages.len() as nat) ==> result_view(r) == Err::<
            HandleResultView,
            ErrorView,
        >(ErrorView::Exhausted),
        old(adapter)@.numbered_in_a_row(),
        final(adapter)@.numbered_in_a_row(),
{
    let Decision { messages, result } = decision;
    match adapter.send_all(messages) {
        Ok(()) => result,
        Err(e) => Err(e),
    }
}

impl Debugger {
    fn on_attach(&mut self, request: RequestHead, arguments: &AttachRequestArguments) -> (r:
        Decision)
        ensures
            r.is(final(self)@, rules::on_attach(old(self)@, request@, arguments@)),
    {
        proof {
            use_type_invariant(&*self);
        }
        let program = match &arguments.cwd {
            Some(cwd) => join_path(cwd.as_str(), arguments.program.as_str()),
            None => arguments.program.clone(),
        };
        match &arguments.cwd {
            Some(cwd) => {
                self.location = cwd.clone();
            },
            None => {},
        }
        let action = ProbeAction::Attach {
            program: program.clone(),
            chip: arguments.chip.clone(),
        };
        self.ask(
            Pending::Attach { request, arguments: arguments.duplicate(), program },
            none(),
            action,
        )
    }

    fn on_set_breakpoints(
        &mut self,
        request: RequestHead,
        source: &Option<String>,
        requested: &Vec<SourceBreakpoint>,
    ) -> (r: Decision)
        ensures
            r.is(
                final(self)@,
                rules::on_set_breakpoints(old(self)@, request@, source.deep_view(), requested@),
            ),
    {
        proof {
            use_type_invariant(&*self);
        }
        if requested.len() > (u32::MAX - self.bp_id) as usize {
            return self.done(one(refusal(&request, &Error::Exhausted)));
        }
        let mut table = without_source(&self.breakpoints, source);
        let first = table.len();
        add_breakpoints(&mut table, requested, source, self.bp_id);
        proof {
            lemma_replaced_in_order(self@, source.deep_view(), requested@);
        }
        self.bp_id = self.bp_id + requested.len() as u32;
        self.breakpoints = table;
        match source {
            Some(path) if self.debug_info && requested.len() > 0 => {
                let locations = places_from(&self.breakpoints, first, path.as_str());
                self.ask(
                    Pending::SetBreakpointsResolve { request, first },
                    none(),
                    ProbeAction::Resolve { locations },
                )
            },
            _ => {
                let breakpoints = reported_from(&self.breakpoints, first);
                let message = success(&request, Some(ResponseBody::SetBreakpoints { breakpoints }));
                self.done(one(message))
            },
        }
    }

    /// What the session decides on the request `req`: the state changes
    /// as the rules lay down, and the result holds the messages to send
    /// and what is to happen next. The result is never an error.
    pub fn decide(&mut self, req: &Request) -> (r: Decision)
        ensures
            r.is(final(self)@, rules::on_request(old(self)@, req@)),
            rules::well_numbered(old(self)@),
            rules::well_numbered(final(self)@),
    {
        proof {
            use_type_invariant(&*self);
            lemma_numbers_are_never_reused(self@, req@, crate::probe::ProbeReplyView::Done);
        }
        let head = head_of(req);
        match Command::of(req.command.as_str()) {
            Command::Launch => match get_arguments(req) {
                Err(e) => self.done(one(refusal(&head, &e))),
                Ok(_) => self.done(
                    one(
                        failure(
                            &head,
                            String::from_str("Launching a program is not yet supported."),
                        ),
                    ),
                ),
            },
            Command::Attach => match &req.arguments {
                Arguments::Attach(arguments) => self.on_attach(head, arguments),
                _ => self.done(one(refusal(&head, &bad_arguments(req)))),
            },
            Command::Disconnect => match get_arguments(req) {
                Err(e) => self.done(one(refusal(&head, &e))),
                Ok(_) => {
                    self.pending = Pending::Idle;
                    Decision { messages: one(success(&head, None)), result: Ok(HandleResult::Stop) }
                },
            },
            Command::SetBreakpoints => match &req.arguments {
                Arguments::SetBreakpoints(arguments) => {
                    let empty: Vec<SourceBreakpoint> = Vec::new();
                    match &arguments.breakpoints {
                        Some(requested) => self.on_set_breakpoints(
                            head,
                            &arguments.source_path,
                            requested,
                        ),
                        None => self.on_set_breakpoints(head, &arguments.source_path, &empty),
                    }
                },
                _ => self.done(one(refusal(&head, &bad_arguments(req)))),
            },
            Command::SetExceptionBreakpoints => match get_arguments(req) {
                Err(e) => self.done(one(refusal(&head, &e))),
                Ok(_) => self.done(one(success(&head, None))),
            },
            Command::ConfigurationDone => {
                let reset = match self.arguments.reset {
                    Some(reset) => reset,
                    None => false,
                };
                if reset && self.session {
                    self.ask(Pending::Reset { request: head }, none(), ProbeAction::ResetAndHalt)
                } else {
                    self.done(one(success(&head, None)))
                }
            },
            Command::Threads => self.done(
                one(success(&head, Some(ResponseBody::Threads { threads: main_thread() }))),
            ),
            Command::Pause => match get_arguments(req) {
                Err(e) => self.done(one(refusal(&head, &e))),
                Ok(_) => if self.session {
                    self.ask(Pending::Pause, one(success(&head, None)), ProbeAction::Halt)
                } else {
                    self.done(
                        two(
                            success(&head, None),
                            notice(&stopped("pause", "Target paused due to pause request.")),
                        ),
                    )
                },
            },
            Command::StackTrace => match get_arguments(req) {
                Err(e) => self.done(one(refusal(&head, &e))),
                Ok(_) => if !self.session {
                    self.done(one(refusal(&head, &Error::MissingSession)))
                } else if !self.debug_info {
                    self.done(
                        one(failure(&head, String::from_str("No debug information found"))),
                    )
                } else {
                    self.ask(
                        Pending::ProgramCounter { request: head },
                        none(),
                        ProbeAction::ReadProgramCounter,
                    )
                },
            },
            Command::Scopes => match &req.arguments {
                Arguments::Scopes { frame_id } => {
                    let scopes = scopes_of(&self.current_stackframes, *frame_id);
                    self.done(one(success(&head, Some(ResponseBody::Scopes { scopes }))))
                },
                _ => self.done(one(refusal(&head, &bad_arguments(req)))),
            },
            Command::Source => match &req.arguments {
                Arguments::Source { path: Some(path) } => {
                    let path = join_path(self.location.as_str(), path.as_str());
                    self.ask(
                        Pending::Source { request: head },
                        none(),
                        ProbeAction::ReadSource { path },
                    )
                },
                Arguments::Source { path: None } => self.done(
                    one(failure(&head, String::from_str("Unable to open resource"))),
                ),
                _ => self.done(one(refusal(&head, &bad_arguments(req)))),
            },
            Command::Variables => match &req.arguments {
                Arguments::Variables { variables_reference } => {
                    let variables = variables_of(&self.current_stackframes, *variables_reference);
                    self.done(one(success(&head, Some(ResponseBody::Variables { variables }))))
                },
                _ => self.done(one(refusal(&head, &bad_arguments(req)))),
            },
            Command::Continue => match get_arguments(req) {
                Err(e) => self.done(one(refusal(&head, &e))),
                Ok(_) => if !self.session {
                    self.done(one(refusal(&head, &Error::MissingSession)))
                } else {
                    self.current_stackframes = no_frames();
                    self.ask(Pending::Continue { request: head }, none(), ProbeAction::Run)
                },
            },
            Command::Next => match get_arguments(req) {
                Err(e) => self.done(one(refusal(&head, &e))),
                Ok(_) => if !self.session {
                    self.done(one(refusal(&head, &Error::MissingSession)))
                } else {
                    self.current_stackframes = no_frames();
                    self.ask(Pending::Next { request: head }, none(), ProbeAction::Step)
                },
            },
            _ => {
                let words = String::from_str("Received unsupported request '").concat(
                    req.command.as_str(),
                ).concat("'\n");
                self.done(
                    two(
                        refusal(&head, &Error::Unimplemented),
                        notice(&Event::console_output(words)),
                    ),
                )
            },
        }
    }

    /// What the session decides on `reply`, the reply to the action that
    /// it asked for last.
    pub fn decide_reply(&mut self, reply: ProbeReply) -> (r: Decision)
        ensures
            r.is(final(self)@, rules::on_reply(old(self)@, reply@)),
            rules::well_numbered(old(self)@),
            rules::well_numbered(final(self)@),
    {
        proof {
            use_type_invariant(&*self);
        }
        let pending = self.pending.duplicate();
        self.pending = Pending::Idle;
        match pending {
            Pending::Idle => Decision { messages: none(), result: Err(Error::InvalidRequest) },
            Pending::Attach { request, arguments, program } => match reply {
                ProbeReply::Attached { debug_info, error: None } => {
                    self.arguments = arguments;
                    self.program = Some(program);
                    self.debug_info = debug_info;
                    self.session = true;
                    let messages = two(
                        notice(&Event::console_output(String::from_str("Attached to probe"))),
                        success(&request, None),
                    );
                    let locations = unresolved_places(&self.breakpoints);
                    let addresses = addresses_from(&self.breakpoints, 0);
                    if debug_info && locations.len() > 0 {
                        self.ask(
                            Pending::AttachResolve,
                            messages,
                            ProbeAction::Resolve { locations },
                        )
                    } else if addresses.len() > 0 {
                        self.ask(Pending::AttachArm, messages, ProbeAction::Arm { addresses })
                    } else {
                        self.done(messages)
                    }
                },
                ProbeReply::Attached { debug_info, error: Some(_) } => {
                    self.arguments = arguments;
                    self.program = Some(program);
                    self.debug_info = debug_info;
                    self.done(
                        one(failure(&request, String::from_str("Failed to attach to probe."))),
                    )
                },
                _ => self.done(
                    one(failure(&request, String::from_str("Failed to attach to probe."))),
                ),
            },
            Pending::AttachResolve => {
                match reply {
                    ProbeReply::Resolved { addresses } => {
                        let table = resolved_unknown(&self.breakpoints, &addresses);
                        proof {
                            lemma_resolved_unknown_keeps_numbers(
                                self@.breakpoints,
                                addresses@,
                            );
                            lemma_same_numbers_in_order(
                                self@.breakpoints,
                                table.deep_view(),
                                self@.bp_id as int,
                            );
                        }
                        self.breakpoints = table;
                    },
                    _ => {},
                }
                let addresses = addresses_from(&self.breakpoints, 0);
                if addresses.len() > 0 {
                    self.ask(Pending::AttachArm, none(), ProbeAction::Arm { addresses })
                } else {
                    self.done(none())
                }
            },
            Pending::AttachArm => match reply {
                ProbeReply::Done => {
                    let messages = newly_verified(&self.breakpoints);
                    let table = armed_from(&self.breakpoints, 0);
                    proof {
                        lemma_same_numbers_in_order(
                            self@.breakpoints,
                            table.deep_view(),
                            self@.bp_id as int,
                        );
                    }
                    self.breakpoints = table;
                    self.done(messages)
                },
                _ => self.done(none()),
            },
            Pending::SetBreakpointsResolve { request, first } => {
                match reply {
                    ProbeReply::Resolved { addresses } => {
                        let table = resolved_from(&self.breakpoints, first, &addresses);
                        proof {
                            lemma_same_numbers_in_order(
                                self@.breakpoints,
                                table.deep_view(),
                                self@.bp_id as int,
                            );
                        }
                        self.breakpoints = table;
                    },
                    _ => {},
                }
                let addresses = addresses_from(&self.breakpoints, first);
                if self.session && addresses.len() > 0 {
                    self.ask(
                        Pending::SetBreakpointsArm { request, first },
                        none(),
                        ProbeAction::Arm { addresses },
                    )
                } else {
                    self.report_breakpoints(&request, first)
                }
            },
            Pending::SetBreakpointsArm { request, first } => match reply {
                ProbeReply::Done => {
                    let table = armed_from(&self.breakpoints, first);
                    proof {
                        lemma_same_numbers_in_order(
                            self@.breakpoints,
                            table.deep_view(),
                            self@.bp_id as int,
                        );
                    }
                    self.breakpoints = table;
                    self.report_breakpoints(&request, first)
                },
                _ => self.done(probe_failure(&request, &reply)),
            },
            Pending::Reset { request } => match reply {
                ProbeReply::Done => {
                    let halt = match self.arguments.halt_after_reset {
                        Some(halt) => halt,
                        None => true,
                    };
                    if !halt {
                        self.ask(Pending::ResetRun { request }, none(), ProbeAction::Run)
                    } else {
                        self.done(one(success(&request, None)))
                    }
                },
                _ => self.done(probe_failure(&request, &reply)),
            },
            Pending::ResetRun { request } => match reply {
                ProbeReply::Done => self.done(one(success(&request, None))),
                _ => self.done(probe_failure(&request, &reply)),
            },
            Pending::Pause => match reply {
                ProbeReply::Done => self.done(
                    one(notice(&stopped("pause", "Target paused due to pause request."))),
                ),
                _ => self.done(none()),
            },
            Pending::Continue { request } => match reply {
                ProbeReply::Done => self.done(
                    one(
                        success(
                            &request,
                            Some(ResponseBody::Continue { all_threads_continued: Some(true) }),
                        ),
                    ),
                ),
                _ => self.done(probe_failure(&request, &reply)),
            },
            Pending::Next { request } => match reply {
                ProbeReply::Done => self.done(
                    two(
                        success(&request, None),
                        notice(&stopped("step", "Target paused after step.")),
                    ),
                ),
                _ => self.done(probe_failure(&request, &reply)),
            },
            Pending::ProgramCounter { request } => match reply {
                ProbeReply::ProgramCounter(pc) => self.ask(
                    Pending::Unwind { request },
                    none(),
                    ProbeAction::Unwind { pc },
                ),
                _ => self.done(probe_failure(&request, &reply)),
            },
            Pending::Unwind { request } => match reply {
                ProbeReply::Frames(frames) => {
                    let stack_frames = reported_frames(&frames);
                    let total_frames = Some(to_i64(frames.len() as u64));
                    self.current_stackframes = frames;
                    self.done(
                        one(
                            success(
                                &request,
                                Some(ResponseBody::StackTrace { stack_frames, total_frames }),
                            ),
                        ),
                    )
                },
                _ => self.done(probe_failure(&request, &reply)),
            },
            Pending::Source { request } => match reply {
                ProbeReply::Content(content) => self.done(
                    one(success(&request, Some(ResponseBody::Source { content }))),
                ),
                _ => {
                    let words = String::from_str("Unable to open resource: ").concat(
                        failure_words(&reply).as_str(),
                    );
                    self.done(one(failure(&request, words)))
                },
            },
        }
    }

    fn report_breakpoints(&mut self, request: &RequestHead, first: usize) -> (r: Decision)
        ensures
            r.is(
                final(self)@,
                rules::done(
                    old(self)@,
                    seq![
                        rules::success(
                            request@,
                            Some(
                                crate::types::ResponseBodyView::SetBreakpoints {
                                    breakpoints: rules::reported_from(
                                        old(self)@.breakpoints,
                                        first as nat,
                                    ),
                                },
                            ),
                        ),
                    ],
                ),
            ),
    {
        proof {
            use_type_invariant(&*self);
        }
        let breakpoints = reported_from(&self.breakpoints, first);
        self.done(one(success(request, Some(ResponseBody::SetBreakpoints { breakpoints }))))
    }

    /// Handles the request `req`: the state changes as the rules lay
    /// down, and the messages that they ask for are sent through
    /// `adapter`. The result says what is to happen next. A request is
    /// handled in every state of the session, and the only error is
    /// `Exhausted`.
    pub fn handle(&mut self, adapter: &mut DebugAdapter, req: &Request) -> (r: Result<
        HandleResult,
        Error,
    >)
        ensures
            final(self)@ == rules::on_request(old(self)@, req@).state,
            final(adapter)@ == old(adapter)@.sent_all(
                rules::on_request(old(self)@, req@).messages,
            ),
            delivered(r, old(adapter)@, rules::on_request(old(self)@, req@)),
            rules::well_numbered(old(self)@),
            rules::well_numbered(final(self)@),
            old(adapter)@.numbered_in_a_row(),
            final(adapter)@.numbered_in_a_row(),
    {
        let decision = self.decide(req);
        deliver(adapter, decision)
    }

    /// Takes `reply`, the reply to the action that the session asked for
    /// last: the state changes as the rules lay down, and the messages
    /// that they ask for are sent through `adapter`. The result says what
    /// is to happen next. A reply that nothing waits for is an
    /// `InvalidRequest`, and changes nothing.
    pub fn resume(&mut self, adapter: &mut DebugAdapter, reply: ProbeReply) -> (r: Result<
        HandleResult,
        Error,
    >)
        ensures
            final(self)@ == rules::on_reply(old(self)@, reply@).state,
            final(adapter)@ == old(adapter)@.sent_all(
                rules::on_reply(old(self)@, reply@).messages,
            ),
            delivered(r, old(adapter)@, rules::on_reply(old(self)@, reply@)),
            rules::well_numbered(old(self)@),
            rules::well_numbered(final(self)@),
            old(adapter)@.numbered_in_a_row(),
            final(adapter)@.numbered_in_a_row(),
    {
        let decision = self.decide_reply(reply);
        deliver(adapter, decision)
    }
}

} // verus!
