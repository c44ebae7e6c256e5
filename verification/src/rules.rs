//! The rules of a debug session: what each request, and each reply of the
//! probe, does to the state of the session, which messages it sends, and
//! what is to happen next.
//!
//! Everything here is mathematics. `on_request` and `on_reply` say what
//! `Debugger::handle` and `Debugger::resume` compute.

use crate::command::{command_of, Command};
use crate::debug_adapter::{ErrorView, EventView, OutgoingView};
use crate::path::join;
use crate::probe::{
    ColumnType, FrameVariableView, FrameView, LocationView, ProbeActionView, ProbeReplyView,
    SourceLocationView,
};
use crate::types::{
    ArgumentsView, AttachRequestArgumentsView, Breakpoint, RequestView, ResponseBodyView,
    ResponseView, ScopeView, SourceBreakpoint, SourceView, StackFrameView, ThreadView,
    VariableView,
};
use vstd::prelude::*;

verus! {

/// What is kept of a request while the probe works on it: enough to
/// answer it.
#[verifier::ext_equal]
pub struct RequestHeadView {
    pub seq: i64,
    pub command: Seq<char>,
}

/// A breakpoint as the session keeps it.
#[verifier::ext_equal]
pub struct BreakpointInfoView {
    /// The number of the breakpoint. No two breakpoints of a session have
    /// the same.
    pub id: u32,
    /// Whether the breakpoint is set on the target.
    pub verified: bool,
    /// The place that the client asked for.
    pub info: SourceBreakpoint,
    /// The source file of that place.
    pub source: Option<Seq<char>>,
    /// The address of that place, where the debug information gave one.
    pub address: Option<u64>,
}

/// What the session waits for.
#[verifier::ext_equal]
pub enum PendingView {
    /// Nothing: the next request can be handled.
    Idle,
    /// The end of an attempt to attach to the chip that `arguments` name,
    /// with the program at `program`.
    Attach { request: RequestHeadView, arguments: AttachRequestArgumentsView, program: Seq<char> },
    /// The addresses of the breakpoints that had none when the probe was
    /// attached. The request is answered already.
    AttachResolve,
    /// That the breakpoints are set on the target that was attached. The
    /// request is answered already.
    AttachArm,
    /// The addresses of the breakpoints that the request asked for, which
    /// are those from the place `first` of the table on.
    SetBreakpointsResolve { request: RequestHeadView, first: nat },
    /// That those of the breakpoints from the place `first` on that have
    /// an address are set on the target.
    SetBreakpointsArm { request: RequestHeadView, first: nat },
    /// That the target is reset and halted.
    Reset { request: RequestHeadView },
    /// That the target runs again after it was reset.
    ResetRun { request: RequestHeadView },
    /// That the target halts. The request is answered already.
    Pause,
    /// That the target runs.
    Continue { request: RequestHeadView },
    /// That the target has made one step.
    Next { request: RequestHeadView },
    /// The program counter, from which the stack is unwound.
    ProgramCounter { request: RequestHeadView },
    /// The frames of the stack.
    Unwind { request: RequestHeadView },
    /// The text of a source file.
    Source { request: RequestHeadView },
}

/// The state of a debug session.
#[verifier::ext_equal]
pub struct DebuggerView {
    /// The directory against which relative paths are resolved.
    pub location: Seq<char>,
    /// The arguments of the last `attach` request.
    pub arguments: AttachRequestArgumentsView,
    /// The program that runs on the target.
    pub program: Option<Seq<char>>,
    /// Whether a probe is attached.
    pub session: bool,
    /// Whether debug information is loaded.
    pub debug_info: bool,
    /// The breakpoints, in the order in which they were asked for.
    pub breakpoints: Seq<BreakpointInfoView>,
    /// The number that the next breakpoint will have.
    pub bp_id: u32,
    /// The stack as it was last unwound. A frame is known to the client
    /// by its place in this sequence.
    pub current_stackframes: Seq<FrameView>,
    pub pending: PendingView,
}

/// The numbers of the breakpoints of `table` grow along the table, and
/// all of them are below `bound`.
pub open spec fn ids_in_order(table: Seq<BreakpointInfoView>, bound: int) -> bool {
    &&& forall|i: int, j: int|
        0 <= i < j < table.len() ==> (#[trigger] table[i]).id < (#[trigger] table[j]).id
    &&& forall|i: int| 0 <= i < table.len() ==> (#[trigger] table[i]).id < bound
}

/// No two breakpoints of the session have the same number, and the
/// number that the next breakpoint will have is above them all.
pub open spec fn well_numbered(state: DebuggerView) -> bool {
    ids_in_order(state.breakpoints, state.bp_id as int)
}

/// What is to happen once a request or a reply has been dealt with.
#[verifier::ext_equal]
pub enum HandleResultView {
    /// Read the next request.
    Continue,
    /// End the session.
    Stop,
    /// Perform the action and hand back its reply.
    Probe(ProbeActionView),
}

/// What the session decides on a request or a reply.
#[verifier::ext_equal]
pub struct DecisionView {
    /// The state of the session from now on.
    pub state: DebuggerView,
    /// The messages to send, in this order. They are numbered as they are
    /// sent.
    pub messages: Seq<OutgoingView>,
    /// What is to happen next.
    pub result: Result<HandleResultView, ErrorView>,
}

/// The state of a session that has just begun in the directory
/// `location`.
pub open spec fn initial(location: Seq<char>) -> DebuggerView {
    DebuggerView {
        location,
        arguments: AttachRequestArgumentsView {
            program: Seq::empty(),
            chip: Seq::empty(),
            cwd: None,
            reset: None,
            halt_after_reset: None,
        },
        program: None,
        session: false,
        debug_info: false,
        breakpoints: Seq::empty(),
        bp_id: 0,
        current_stackframes: Seq::empty(),
        pending: PendingView::Idle,
    }
}

/// What is kept of `request` to answer it.
pub open spec fn head_of(request: RequestView) -> RequestHeadView {
    RequestHeadView { seq: request.seq, command: request.command }
}

/// The response that tells `request` that it succeeded, with `body`.
pub open spec fn success(request: RequestHeadView, body: Option<ResponseBodyView>) -> OutgoingView {
    OutgoingView::Response(
        ResponseView {
            seq: 0,
            request_seq: request.seq,
            command: request.command,
            success: true,
            message: None,
            body,
        },
    )
}

/// The response that tells `request` that it failed, in the words
/// `message`.
pub open spec fn failure(request: RequestHeadView, message: Seq<char>) -> OutgoingView {
    OutgoingView::Response(
        ResponseView {
            seq: 0,
            request_seq: request.seq,
            command: request.command,
            success: false,
            message: Some(message),
            body: None,
        },
    )
}

/// The response that tells `request` that it failed with `error`.
pub open spec fn refusal(request: RequestHeadView, error: ErrorView) -> OutgoingView {
    failure(request, error.text())
}

/// The message of `event`.
pub open spec fn notice(event: EventView) -> OutgoingView {
    OutgoingView::Event(event.message(0))
}

/// The session is done with what it was doing: `messages` go out, and
/// the next request is read.
pub open spec fn done(state: DebuggerView, messages: Seq<OutgoingView>) -> DecisionView {
    DecisionView {
        state: DebuggerView { pending: PendingView::Idle, ..state },
        messages,
        result: Ok(HandleResultView::Continue),
    }
}

/// The session needs the probe: `messages` go out, `action` is to be
/// performed, and `pending` says what its reply is for.
pub open spec fn ask(
    state: DebuggerView,
    pending: PendingView,
    messages: Seq<OutgoingView>,
    action: ProbeActionView,
) -> DecisionView {
    DecisionView {
        state: DebuggerView { pending, ..state },
        messages,
        result: Ok(HandleResultView::Probe(action)),
    }
}

/// A reply came that nothing waits for, or the session has ended:
/// nothing changes and nothing is sent.
pub open spec fn misuse(state: DebuggerView) -> DecisionView {
    DecisionView { state, messages: Seq::empty(), result: Err(ErrorView::InvalidRequest) }
}

/// Why the arguments of a request cannot be used, if they cannot.
pub open spec fn arguments_error(arguments: ArgumentsView) -> Option<ErrorView> {
    match arguments {
        ArgumentsView::Missing => Some(ErrorView::InvalidRequest),
        ArgumentsView::Malformed(why) => Some(ErrorView::MalformedPayload(why)),
        _ => None,
    }
}

/// The words of a reply that tells of a failure.
pub open spec fn failure_words(reply: ProbeReplyView) -> Seq<char> {
    match reply {
        ProbeReplyView::Failed(why) => why,
        _ => "unexpected reply"@,
    }
}

/// The event that tells the client that a breakpoint has changed.
pub open spec fn changed_event(breakpoint: BreakpointInfoView) -> EventView {
    EventView::Breakpoint {
        reason: "changed"@,
        breakpoint: Breakpoint {
            id: Some(breakpoint.id as i64),
            verified: breakpoint.verified,
            line: Some(breakpoint.info.line),
            column: breakpoint.info.column,
        },
    }
}

/// The event that tells the client that the target has stopped.
pub open spec fn stopped_event(reason: Seq<char>, description: Seq<char>) -> EventView {
    EventView::Stopped { reason, description: Some(description), thread_id: Some(0) }
}

/// A breakpoint as a response to `setBreakpoints` reports it.
pub open spec fn reported(breakpoint: BreakpointInfoView) -> Breakpoint {
    Breakpoint {
        id: None,
        verified: breakpoint.verified,
        line: Some(breakpoint.info.line),
        column: breakpoint.info.column,
    }
}

/// The breakpoints of `table` from the place `first` on, as a response
/// reports them.
pub open spec fn reported_from(table: Seq<BreakpointInfoView>, first: nat) -> Seq<Breakpoint> {
    Seq::new(
        if first <= table.len() {
            (table.len() - first) as nat
        } else {
            0
        },
        |i: int| reported(table[first + i]),
    )
}

/// The breakpoints of `table` that are not in the source file `source`.
pub open spec fn without_source(
    table: Seq<BreakpointInfoView>,
    source: Option<Seq<char>>,
) -> Seq<BreakpointInfoView>
    decreases table.len(),
{
    if table.len() == 0 {
        table
    } else if table.last().source == source {
        without_source(table.drop_last(), source)
    } else {
        without_source(table.drop_last(), source).push(table.last())
    }
}

/// The breakpoints that a request adds: one for each requested place, in
/// the order of the request, numbered from `first_id` on, not verified and
/// without an address.
pub open spec fn added(
    requested: Seq<SourceBreakpoint>,
    source: Option<Seq<char>>,
    first_id: u32,
) -> Seq<BreakpointInfoView> {
    Seq::new(
        requested.len(),
        |i: int|
            BreakpointInfoView {
                id: (first_id + i) as u32,
                verified: false,
                info: requested[i],
                source,
                address: None,
            },
    )
}

/// The places of the breakpoints of `table` from the place `first` on,
/// all of them in the source file `source`.
pub open spec fn places_from(
    table: Seq<BreakpointInfoView>,
    first: nat,
    source: Seq<char>,
) -> Seq<LocationView> {
    Seq::new(
        if first <= table.len() {
            (table.len() - first) as nat
        } else {
            0
        },
        |i: int|
            LocationView {
                source,
                line: table[first + i].info.line,
                column: table[first + i].info.column,
            },
    )
}

/// `table` with the addresses `addresses` given to its breakpoints from
/// the place `first` on, one after the other. A breakpoint for which no
/// address is left has none.
pub open spec fn resolved_from(
    table: Seq<BreakpointInfoView>,
    first: nat,
    addresses: Seq<Option<u64>>,
) -> Seq<BreakpointInfoView> {
    Seq::new(
        table.len(),
        |i: int|
            if i >= first {
                BreakpointInfoView {
                    address: if i - first < addresses.len() {
                        addresses[i - first]
                    } else {
                        None
                    },
                    ..table[i]
                }
            } else {
                table[i]
            },
    )
}

/// The addresses of the breakpoints of `table` from the place `first` on
/// that have one, in the order of the table.
pub open spec fn addresses_from(table: Seq<BreakpointInfoView>, first: nat) -> Seq<u64>
    decreases table.len(),
{
    if table.len() <= first {
        Seq::empty()
    } else {
        match table.last().address {
            Some(address) => addresses_from(table.drop_last(), first).push(address),
            None => addresses_from(table.drop_last(), first),
        }
    }
}

/// Whether an address can still be sought for `breakpoint`: it has none,
/// and its source file is known.
pub open spec fn is_unresolved(breakpoint: BreakpointInfoView) -> bool {
    breakpoint.address is None && breakpoint.source is Some
}

/// The places of the breakpoints of `table` for which an address can
/// still be sought, in the order of the table.
pub open spec fn unresolved_places(table: Seq<BreakpointInfoView>) -> Seq<LocationView>
    decreases table.len(),
{
    if table.len() == 0 {
        Seq::empty()
    } else if is_unresolved(table.last()) {
        unresolved_places(table.drop_last()).push(
            LocationView {
                source: table.last().source->0,
                line: table.last().info.line,
                column: table.last().info.column,
            },
        )
    } else {
        unresolved_places(table.drop_last())
    }
}

/// `table` with the addresses `addresses` given, one after the other, to
/// its breakpoints for which an address could still be sought. A
/// breakpoint for which no address is left keeps none.
pub open spec fn resolved_unknown(
    table: Seq<BreakpointInfoView>,
    addresses: Seq<Option<u64>>,
) -> Seq<BreakpointInfoView>
    decreases table.len(),
{
    if table.len() == 0 {
        table
    } else if is_unresolved(table.last()) {
        let place = unresolved_places(table.drop_last()).len() as int;
        resolved_unknown(table.drop_last(), addresses).push(
            BreakpointInfoView {
                address: if place < addresses.len() {
                    addresses[place]
                } else {
                    None
                },
                ..table.last()
            },
        )
    } else {
        resolved_unknown(table.drop_last(), addresses).push(table.last())
    }
}

/// `table` with each breakpoint from the place `first` on that has an
/// address verified.
pub open spec fn armed_from(table: Seq<BreakpointInfoView>, first: nat) -> Seq<
    BreakpointInfoView,
> {
    Seq::new(
        table.len(),
        |i: int|
            if i >= first && table[i].address is Some {
                BreakpointInfoView { verified: true, ..table[i] }
            } else {
                table[i]
            },
    )
}

/// The messages that tell the client of each breakpoint of `table` that
/// has an address and was not verified, and now is.
pub open spec fn newly_verified(table: Seq<BreakpointInfoView>) -> Seq<OutgoingView>
    decreases table.len(),
{
    if table.len() == 0 {
        Seq::empty()
    } else if table.last().address is Some && !table.last().verified {
        newly_verified(table.drop_last()).push(
            notice(changed_event(BreakpointInfoView { verified: true, ..table.last() })),
        )
    } else {
        newly_verified(table.drop_last())
    }
}

/// A line or a count as the protocol writes it.
pub open spec fn as_i64(n: int) -> i64 {
    if n > i64::MAX {
        i64::MAX
    } else {
        n as i64
    }
}

/// A column as the protocol writes it: the left edge is column 0.
pub open spec fn column_number(column: ColumnType) -> i64 {
    match column {
        ColumnType::LeftEdge => 0,
        ColumnType::Column(c) => as_i64(c as int),
    }
}

/// The source file of a frame for a stack trace: its name, and its path
/// in its directory.
pub open spec fn frame_source(location: SourceLocationView) -> SourceView {
    SourceView {
        name: location.file,
        path: match (location.directory, location.file) {
            (Some(directory), Some(file)) => Some(join(directory, file)),
            (Some(directory), None) => Some(directory),
            (None, Some(file)) => Some(file),
            (None, None) => None,
        },
    }
}

/// The frame at the place `index` of the stack, as a stack trace reports
/// it.
pub open spec fn reported_frame(frame: FrameView, index: int) -> StackFrameView {
    StackFrameView {
        id: as_i64(index),
        name: frame.function_name,
        source: match frame.source_location {
            Some(location) => Some(frame_source(location)),
            None => None,
        },
        line: match frame.source_location {
            Some(SourceLocationView { line: Some(line), .. }) => as_i64(line as int),
            _ => 0,
        },
        column: match frame.source_location {
            Some(SourceLocationView { column: Some(column), .. }) => column_number(column),
            _ => 0,
        },
        presentation_hint: Some("normal"@),
    }
}

/// The frames of a stack as a stack trace reports them, each under the
/// number of its place.
pub open spec fn reported_frames(frames: Seq<FrameView>) -> Seq<StackFrameView> {
    Seq::new(frames.len(), |i: int| reported_frame(frames[i], i))
}

/// The frame that the client means by `reference`, if the stack holds it.
pub open spec fn frame_at(frames: Seq<FrameView>, reference: i64) -> Option<FrameView> {
    if 0 <= reference < frames.len() {
        Some(frames[reference as int])
    } else {
        None
    }
}

/// The scope of the frame that the client knows as `reference`.
pub open spec fn scope_of(frame: FrameView, reference: i64) -> ScopeView {
    ScopeView {
        name: "Locals"@,
        variables_reference: reference,
        expensive: false,
        source: match frame.source_location {
            Some(location) => Some(
                SourceView { name: location.file, path: location.directory },
            ),
            None => None,
        },
        line: match frame.source_location {
            Some(SourceLocationView { line: Some(line), .. }) => Some(as_i64(line as int)),
            _ => None,
        },
        column: match frame.source_location {
            Some(SourceLocationView { column: Some(column), .. }) => Some(
                column_number(column),
            ),
            _ => None,
        },
    }
}

/// The scopes of the frame that the client means by `reference`: one
/// where the stack holds the frame, none where it does not.
pub open spec fn scopes_of(frames: Seq<FrameView>, reference: i64) -> Seq<ScopeView> {
    match frame_at(frames, reference) {
        Some(frame) => seq![scope_of(frame, reference)],
        None => Seq::empty(),
    }
}

/// A variable of a frame as the adapter reports it: it has no parts of
/// its own.
pub open spec fn reported_variable(variable: FrameVariableView) -> VariableView {
    VariableView { name: variable.name, value: variable.value, variables_reference: -1i64 }
}

/// The variables of the frame that the client means by `reference`: none
/// where the stack does not hold the frame.
pub open spec fn variables_of(frames: Seq<FrameView>, reference: i64) -> Seq<VariableView> {
    match frame_at(frames, reference) {
        Some(frame) => Seq::new(
            frame.variables.len(),
            |i: int| reported_variable(frame.variables[i]),
        ),
        None => Seq::empty(),
    }
}

/// The one thread that stands for the target.
pub open spec fn main_thread() -> ThreadView {
    ThreadView { id: 0, name: "Main Thread"@ }
}

/// What `attach` decides where its arguments are `arguments`.
pub open spec fn on_attach(
    state: DebuggerView,
    request: RequestHeadView,
    arguments: AttachRequestArgumentsView,
) -> DecisionView {
    let program = match arguments.cwd {
        Some(cwd) => join(cwd, arguments.program),
        None => arguments.program,
    };
    let location = match arguments.cwd {
        Some(cwd) => cwd,
        None => state.location,
    };
    ask(
        DebuggerView { location, ..state },
        PendingView::Attach { request, arguments, program },
        Seq::empty(),
        ProbeActionView::Attach { program, chip: arguments.chip },
    )
}

/// What `setBreakpoints` decides where its arguments name the source file
/// `source` and ask for the places `requested`.
pub open spec fn on_set_breakpoints(
    state: DebuggerView,
    request: RequestHeadView,
    source: Option<Seq<char>>,
    requested: Seq<SourceBreakpoint>,
) -> DecisionView {
    if state.bp_id + requested.len() > u32::MAX {
        done(state, seq![refusal(request, ErrorView::Exhausted)])
    } else {
        let kept = without_source(state.breakpoints, source);
        let table = kept + added(requested, source, state.bp_id);
        let next = DebuggerView {
            breakpoints: table,
            bp_id: (state.bp_id + requested.len()) as u32,
            ..state
        };
        match source {
            Some(path) if state.debug_info && requested.len() > 0 => ask(
                next,
                PendingView::SetBreakpointsResolve { request, first: kept.len() },
                Seq::empty(),
                ProbeActionView::Resolve { locations: places_from(table, kept.len(), path) },
            ),
            _ => done(
                next,
                seq![
                    success(
                        request,
                        Some(
                            ResponseBodyView::SetBreakpoints {
                                breakpoints: reported_from(table, kept.len()),
                            },
                        ),
                    ),
                ],
            ),
        }
    }
}

/// What the session decides on a request of the client.
///
/// A request is taken whatever the session waits for: where the reply to
/// an action is still awaited, the request takes its place, and that
/// reply is no longer expected.
pub open spec fn on_request(state: DebuggerView, request: RequestView) -> DecisionView {
    let head = head_of(request);
    let refused = arguments_error(request.arguments);
    match command_of(request.command) {
        Command::Launch => match refused {
            Some(e) => done(state, seq![refusal(head, e)]),
            None => done(
                state,
                seq![failure(head, "Launching a program is not yet supported."@)],
            ),
        },
        Command::Attach => match request.arguments {
            ArgumentsView::Attach(arguments) => on_attach(state, head, arguments),
            _ => done(
                state,
                seq![
                    refusal(
                        head,
                        match refused {
                            Some(e) => e,
                            None => ErrorView::InvalidRequest,
                        },
                    ),
                ],
            ),
        },
        Command::Disconnect => match refused {
            Some(e) => done(state, seq![refusal(head, e)]),
            None => DecisionView {
                state: DebuggerView { pending: PendingView::Idle, ..state },
                messages: seq![success(head, None)],
                result: Ok(HandleResultView::Stop),
            },
        },
        Command::SetBreakpoints => match request.arguments {
            ArgumentsView::SetBreakpoints(arguments) => on_set_breakpoints(
                state,
                head,
                arguments.source_path,
                match arguments.breakpoints {
                    Some(requested) => requested,
                    None => Seq::empty(),
                },
            ),
            _ => done(
                state,
                seq![
                    refusal(
                        head,
                        match refused {
                            Some(e) => e,
                            None => ErrorView::InvalidRequest,
                        },
                    ),
                ],
            ),
        },
        Command::SetExceptionBreakpoints => match refused {
            Some(e) => done(state, seq![refusal(head, e)]),
            None => done(state, seq![success(head, None)]),
        },
        Command::ConfigurationDone => if state.arguments.reset == Some(true)
            && state.session {
            ask(
                state,
                PendingView::Reset { request: head },
                Seq::empty(),
                ProbeActionView::ResetAndHalt,
            )
        } else {
            done(state, seq![success(head, None)])
        },
        Command::Threads => done(
            state,
            seq![success(head, Some(ResponseBodyView::Threads { threads: seq![main_thread()] }))],
        ),
        Command::Pause => match refused {
            Some(e) => done(state, seq![refusal(head, e)]),
            None => if state.session {
                ask(state, PendingView::Pause, seq![success(head, None)], ProbeActionView::Halt)
            } else {
                done(
                    state,
                    seq![
                        success(head, None),
                        notice(
                            stopped_event("pause"@, "Target paused due to pause request."@),
                        ),
                    ],
                )
            },
        },
        Command::StackTrace => match refused {
            Some(e) => done(state, seq![refusal(head, e)]),
            None => if !state.session {
                done(state, seq![refusal(head, ErrorView::MissingSession)])
            } else if !state.debug_info {
                done(state, seq![failure(head, "No debug information found"@)])
            } else {
                ask(
                    state,
                    PendingView::ProgramCounter { request: head },
                    Seq::empty(),
                    ProbeActionView::ReadProgramCounter,
                )
            },
        },
        Command::Scopes => match request.arguments {
            ArgumentsView::Scopes { frame_id } => done(
                state,
                seq![
                    success(
                        head,
                        Some(
                            ResponseBodyView::Scopes {
                                scopes: scopes_of(state.current_stackframes, frame_id),
                            },
                        ),
                    ),
                ],
            ),
            _ => done(
                state,
                seq![
                    refusal(
                        head,
                        match refused {
                            Some(e) => e,
                            None => ErrorView::InvalidRequest,
                        },
                    ),
                ],
            ),
        },
        Command::Source => match request.arguments {
            ArgumentsView::Source { path: Some(path) } => ask(
                state,
                PendingView::Source { request: head },
                Seq::empty(),
                ProbeActionView::ReadSource { path: join(state.location, path) },
            ),
            ArgumentsView::Source { path: None } => done(
                state,
                seq![failure(head, "Unable to open resource"@)],
            ),
            _ => done(
                state,
                seq![
                    refusal(
                        head,
                        match refused {
                            Some(e) => e,
                            None => ErrorView::InvalidRequest,
                        },
                    ),
                ],
            ),
        },
        Command::Variables => match request.arguments {
            ArgumentsView::Variables { variables_reference } => done(
                state,
                seq![
                    success(
                        head,
                        Some(
                            ResponseBodyView::Variables {
                                variables: variables_of(
                                    state.current_stackframes,
                                    variables_reference,
                                ),
                            },
                        ),
                    ),
                ],
            ),
            _ => done(
                state,
                seq![
                    refusal(
                        head,
                        match refused {
                            Some(e) => e,
                            None => ErrorView::InvalidRequest,
                        },
                    ),
                ],
            ),
        },
        Command::Continue => match refused {
            Some(e) => done(state, seq![refusal(head, e)]),
            None => if !state.session {
                done(state, seq![refusal(head, ErrorView::MissingSession)])
            } else {
                ask(
                    DebuggerView { current_stackframes: Seq::empty(), ..state },
                    PendingView::Continue { request: head },
                    Seq::empty(),
                    ProbeActionView::Run,
                )
            },
        },
        Command::Next => match refused {
            Some(e) => done(state, seq![refusal(head, e)]),
            None => if !state.session {
                done(state, seq![refusal(head, ErrorView::MissingSession)])
            } else {
                ask(
                    DebuggerView { current_stackframes: Seq::empty(), ..state },
                    PendingView::Next { request: head },
                    Seq::empty(),
                    ProbeActionView::Step,
                )
            },
        },
        _ => done(
            state,
            seq![
                refusal(head, ErrorView::Unimplemented),
                notice(
                    EventView::console_output(
                        "Received unsupported request '"@ + request.command + "'\n"@,
                    ),
                ),
            ],
        ),
    }
}

/// What the session decides on the reply to the action that it asked
/// for.
pub open spec fn on_reply(state: DebuggerView, reply: ProbeReplyView) -> DecisionView {
    match state.pending {
        PendingView::Idle => misuse(state),
        PendingView::Attach { request, arguments, program } => match reply {
            ProbeReplyView::Attached { debug_info, error: None } => {
                let next = DebuggerView {
                    arguments,
                    program: Some(program),
                    debug_info,
                    session: true,
                    ..state
                };
                let messages = seq![
                    notice(EventView::console_output("Attached to probe"@)),
                    success(request, None),
                ];
                if debug_info && unresolved_places(state.breakpoints).len() > 0 {
                    ask(
                        next,
                        PendingView::AttachResolve,
                        messages,
                        ProbeActionView::Resolve {
                            locations: unresolved_places(state.breakpoints),
                        },
                    )
                } else if addresses_from(state.breakpoints, 0).len() > 0 {
                    ask(
                        next,
                        PendingView::AttachArm,
                        messages,
                        ProbeActionView::Arm { addresses: addresses_from(state.breakpoints, 0) },
                    )
                } else {
                    done(next, messages)
                }
            },
            ProbeReplyView::Attached { debug_info, error: Some(_) } => done(
                DebuggerView { arguments, program: Some(program), debug_info, ..state },
                seq![failure(request, "Failed to attach to probe."@)],
            ),
            _ => done(state, seq![failure(request, "Failed to attach to probe."@)]),
        },
        PendingView::AttachResolve => {
            let table = match reply {
                ProbeReplyView::Resolved { addresses } => resolved_unknown(
                    state.breakpoints,
                    addresses,
                ),
                _ => state.breakpoints,
            };
            let next = DebuggerView { breakpoints: table, ..state };
            if addresses_from(table, 0).len() > 0 {
                ask(
                    next,
                    PendingView::AttachArm,
                    Seq::empty(),
                    ProbeActionView::Arm { addresses: addresses_from(table, 0) },
                )
            } else {
                done(next, Seq::empty())
            }
        },
        PendingView::AttachArm => match reply {
            ProbeReplyView::Done => done(
                DebuggerView { breakpoints: armed_from(state.breakpoints, 0), ..state },
                newly_verified(state.breakpoints),
            ),
            _ => done(state, Seq::empty()),
        },
        PendingView::SetBreakpointsResolve { request, first } => {
            let table = match reply {
                ProbeReplyView::Resolved { addresses } => resolved_from(
                    state.breakpoints,
                    first,
                    addresses,
                ),
                _ => state.breakpoints,
            };
            let next = DebuggerView { breakpoints: table, ..state };
            if state.session && addresses_from(table, first).len() > 0 {
                ask(
                    next,
                    PendingView::SetBreakpointsArm { request, first },
                    Seq::empty(),
                    ProbeActionView::Arm { addresses: addresses_from(table, first) },
                )
            } else {
                done(
                    next,
                    seq![
                        success(
                            request,
                            Some(
                                ResponseBodyView::SetBreakpoints {
                                    breakpoints: reported_from(table, first),
                                },
                            ),
                        ),
                    ],
                )
            }
        },
        PendingView::SetBreakpointsArm { request, first } => match reply {
            ProbeReplyView::Done => {
                let table = armed_from(state.breakpoints, first);
                done(
                    DebuggerView { breakpoints: table, ..state },
                    seq![
                        success(
                            request,
                            Some(
                                ResponseBodyView::SetBreakpoints {
                                    breakpoints: reported_from(table, first),
                                },
                            ),
                        ),
                    ],
                )
            },
            _ => done(
                state,
                seq![refusal(request, ErrorView::ProbeError(failure_words(reply)))],
            ),
        },
        PendingView::Reset { request } => match reply {
            ProbeReplyView::Done => if state.arguments.halt_after_reset == Some(false) {
                ask(
                    state,
                    PendingView::ResetRun { request },
                    Seq::empty(),
                    ProbeActionView::Run,
                )
            } else {
                done(state, seq![success(request, None)])
            },
            _ => done(
                state,
                seq![refusal(request, ErrorView::ProbeError(failure_words(reply)))],
            ),
        },
        PendingView::ResetRun { request } => match reply {
            ProbeReplyView::Done => done(state, seq![success(request, None)]),
            _ => done(
                state,
                seq![refusal(request, ErrorView::ProbeError(failure_words(reply)))],
            ),
        },
        PendingView::Pause => match reply {
            ProbeReplyView::Done => done(
                state,
                seq![notice(stopped_event("pause"@, "Target paused due to pause request."@))],
            ),
            _ => done(state, Seq::empty()),
        },
        PendingView::Continue { request } => match reply {
            ProbeReplyView::Done => done(
                state,
                seq![
                    success(
                        request,
                        Some(ResponseBodyView::Continue { all_threads_continued: Some(true) }),
                    ),
                ],
            ),
            _ => done(
                state,
                seq![refusal(request, ErrorView::ProbeError(failure_words(reply)))],
            ),
        },
        PendingView::Next { request } => match reply {
            ProbeReplyView::Done => done(
                state,
                seq![
                    success(request, None),
                    notice(stopped_event("step"@, "Target paused after step."@)),
                ],
            ),
            _ => done(
                state,
                seq![refusal(request, ErrorView::ProbeError(failure_words(reply)))],
            ),
        },
        PendingView::ProgramCounter { request } => match reply {
            ProbeReplyView::ProgramCounter(pc) => ask(
                state,
                PendingView::Unwind { request },
                Seq::empty(),
                ProbeActionView::Unwind { pc },
            ),
            _ => done(
                state,
                seq![refusal(request, ErrorView::ProbeError(failure_words(reply)))],
            ),
        },
        PendingView::Unwind { request } => match reply {
            ProbeReplyView::Frames(frames) => done(
                DebuggerView { current_stackframes: frames, ..state },
                seq![
                    success(
                        request,
                        Some(
                            ResponseBodyView::StackTrace {
                                stack_frames: reported_frames(frames),
                                total_frames: Some(as_i64(frames.len() as int)),
                            },
                        ),
                    ),
                ],
            ),
            _ => done(
                state,
                seq![refusal(request, ErrorView::ProbeError(failure_words(reply)))],
            ),
        },
        PendingView::Source { request } => match reply {
            ProbeReplyView::Content(content) => done(
                state,
                seq![success(request, Some(ResponseBodyView::Source { content }))],
            ),
            _ => done(
                state,
                seq![failure(request, "Unable to open resource: "@ + failure_words(reply))],
            ),
        },
    }
}

} // verus!
