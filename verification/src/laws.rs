//! What holds of every session, proved from the rules.

use crate::command::{command_of, Command};
use crate::debug_adapter::{
    response_to, DebugAdapterMessageView, DebugAdapterView, ErrorView, EventView, OutgoingView,
    RestartRequest,
};
use crate::probe::{FrameView, ProbeReplyView};
use crate::rules::{
    added, addresses_from, armed_from, arguments_error, failure, frame_at, head_of,
    newly_verified, notice, on_reply, on_request, on_set_breakpoints, refusal, reported_frames,
    reported_from, resolved_from, resolved_unknown, scopes_of, success, variables_of,
    ids_in_order, well_numbered, without_source, BreakpointInfoView, DebuggerView,
    DecisionView, HandleResultView, PendingView, RequestHeadView,
};
use crate::session;
use crate::session::Phase;
use crate::types::{
    ArgumentsView, RequestView, ResponseBodyView, SourceBreakpoint,
};
use vstd::prelude::*;

verus! {

/// The request that the session is working on, where it will still answer
/// one.
pub open spec fn awaited(pending: PendingView) -> Option<RequestHeadView> {
    match pending {
        PendingView::Idle => None,
        PendingView::Attach { request, .. } => Some(request),
        PendingView::AttachResolve => None,
        PendingView::AttachArm => None,
        PendingView::SetBreakpointsResolve { request, .. } => Some(request),
        PendingView::SetBreakpointsArm { request, .. } => Some(request),
        PendingView::Reset { request } => Some(request),
        PendingView::ResetRun { request } => Some(request),
        PendingView::Pause => None,
        PendingView::Continue { request } => Some(request),
        PendingView::Next { request } => Some(request),
        PendingView::ProgramCounter { request } => Some(request),
        PendingView::Unwind { request } => Some(request),
        PendingView::Source { request } => Some(request),
    }
}

/// Every response among `messages` answers `request`: it carries the
/// sequence number and the command of that request. A failure says why,
/// and carries nothing else.
pub open spec fn all_answer(messages: Seq<OutgoingView>, request: RequestHeadView) -> bool {
    forall|i: int|
        0 <= i < messages.len() ==> match #[trigger] messages[i] {
            OutgoingView::Response(response) => {
                &&& response.request_seq == request.seq
                &&& response.command == request.command
                &&& response.well_formed()
            },
            OutgoingView::Event(_) => true,
        }
}

/// The number of responses among `messages`.
pub open spec fn responses(messages: Seq<OutgoingView>) -> nat
    decreases messages.len(),
{
    if messages.len() == 0 {
        0
    } else if messages.last() is Response {
        responses(messages.drop_last()) + 1
    } else {
        responses(messages.drop_last())
    }
}

proof fn lemma_responses_of_few(messages: Seq<OutgoingView>)
    requires
        messages.len() <= 2,
    ensures
        messages.len() == 0 ==> responses(messages) == 0,
        messages.len() == 1 ==> responses(messages) == if messages[0] is Response {
            1nat
        } else {
            0nat
        },
        messages.len() == 2 ==> responses(messages) == (if messages[0] is Response {
            1nat
        } else {
            0nat
        }) + (if messages[1] is Response {
            1nat
        } else {
            0nat
        }),
    decreases messages.len(),
{
    if messages.len() >= 1 {
        lemma_responses_of_few(messages.drop_last());
    }
}

proof fn lemma_no_response_when_verified(table: Seq<BreakpointInfoView>)
    ensures
        responses(newly_verified(table)) == 0,
    decreases table.len(),
{
    if table.len() > 0 {
        lemma_no_response_when_verified(table.drop_last());
        if table.last().address is Some && !table.last().verified {
            assert(newly_verified(table).drop_last() == newly_verified(table.drop_last()));
        }
    }
}

/// A request is answered by the time the session asks for the next one,
/// and it is answered once: where the session decides to read the next
/// request or to stop, it sends exactly one response, and that response
/// answers the request; where it asks for the probe, it sends at most
/// one, and remembers the request if it has sent none. This holds in
/// every state of the session.
pub proof fn lemma_request_is_answered(state: DebuggerView, request: RequestView)
    ensures
        ({
            let decision = on_request(state, request);
            &&& all_answer(decision.messages, head_of(request))
            &&& decision.result is Ok
            &&& decision.result != Ok::<HandleResultView, ErrorView>(HandleResultView::Stop)
                ==> decision.state.pending is Idle == (decision.result == Ok::<
                HandleResultView,
                ErrorView,
            >(HandleResultView::Continue))
            &&& decision.state.pending is Idle ==> responses(decision.messages) == 1
            &&& !(decision.state.pending is Idle) ==> {
                ||| responses(decision.messages) == 0 && awaited(decision.state.pending) == Some(
                    head_of(request),
                )
                ||| responses(decision.messages) == 1 && awaited(decision.state.pending) is None
            }
        }),
{
    let decision = on_request(state, request);
    lemma_responses_of_few(decision.messages);
}

/// The reply of the probe goes to the request that waits for it: every
/// response that the session sends on a reply answers the request that it
/// was working on, and where the session goes on asking the probe, it
/// still remembers that request. A request that waits is answered exactly
/// once.
pub proof fn lemma_reply_answers_the_waiting_request(state: DebuggerView, reply: ProbeReplyView)
    requires
        !(state.pending is Idle),
    ensures
        ({
            let decision = on_reply(state, reply);
            &&& decision.result is Ok
            &&& decision.result != Ok::<HandleResultView, ErrorView>(HandleResultView::Stop)
            &&& decision.state.pending is Idle == (decision.result == Ok::<
                HandleResultView,
                ErrorView,
            >(HandleResultView::Continue))
            &&& match awaited(state.pending) {
                Some(request) => {
                    &&& all_answer(decision.messages, request)
                    &&& if decision.state.pending is Idle {
                        responses(decision.messages) == 1
                    } else {
                        {
                            ||| responses(decision.messages) == 0 && awaited(
                                decision.state.pending,
                            ) == Some(request)
                            ||| responses(decision.messages) == 1 && awaited(
                                decision.state.pending,
                            ) is None
                        }
                    }
                },
                None => responses(decision.messages) == 0 && awaited(decision.state.pending)
                    is None,
            }
        }),
{
    let decision = on_reply(state, reply);
    match state.pending {
        PendingView::AttachArm => {
            lemma_no_response_when_verified(state.breakpoints);
        },
        _ => {
            lemma_responses_of_few(decision.messages);
        },
    }
}

/// How many replies of the probe the session may still need before it is
/// idle again.
pub open spec fn replies_needed(pending: PendingView) -> nat {
    match pending {
        PendingView::Idle => 0,
        PendingView::Attach { .. } => 3,
        PendingView::AttachResolve => 2,
        PendingView::AttachArm => 1,
        PendingView::SetBreakpointsResolve { .. } => 2,
        PendingView::SetBreakpointsArm { .. } => 1,
        PendingView::Reset { .. } => 2,
        PendingView::ResetRun { .. } => 1,
        PendingView::Pause => 1,
        PendingView::Continue { .. } => 1,
        PendingView::Next { .. } => 1,
        PendingView::ProgramCounter { .. } => 2,
        PendingView::Unwind { .. } => 1,
        PendingView::Source { .. } => 1,
    }
}

/// The probe is never asked without end: every reply brings the session
/// closer to being idle, so that no request keeps it busy for more than
/// three replies.
pub proof fn lemma_work_for_the_probe_ends(
    state: DebuggerView,
    request: RequestView,
    reply: ProbeReplyView,
)
    ensures
        replies_needed(on_request(state, request).state.pending) <= 3,
        !(state.pending is Idle) ==> replies_needed(on_reply(state, reply).state.pending)
            < replies_needed(state.pending),
        replies_needed(state.pending) == 0 <==> state.pending is Idle,
{
}

/// Only `disconnect` ends a session: in every state, a request stops the
/// session exactly where it names that command and has arguments that can
/// be used, and no reply of the probe ever does. No request is an error,
/// and a reply is one exactly where nothing waits for it.
pub proof fn lemma_only_disconnect_stops(
    state: DebuggerView,
    request: RequestView,
    reply: ProbeReplyView,
)
    ensures
        on_reply(state, reply).result != Ok::<HandleResultView, ErrorView>(
            HandleResultView::Stop,
        ),
        on_request(state, request).result == Ok::<HandleResultView, ErrorView>(
            HandleResultView::Stop,
        ) <==> command_of(request.command) == Command::Disconnect && arguments_error(
            request.arguments,
        ) is None,
        on_request(state, request).result is Ok,
        on_reply(state, reply).result is Err <==> state.pending is Idle,
{
}

/// Sending keeps the numbering, for any number of messages: where the
/// waiting messages are numbered in a row that ends just before the number
/// that is next, they still are after more messages were sent, and the
/// number that is next has grown by one for each message sent.
pub proof fn lemma_sent_all_numbers_in_a_row(state: DebugAdapterView, messages: Seq<OutgoingView>)
    requires
        state.numbered_in_a_row(),
        state.can_send_all(messages.len()),
    ensures
        state.sent_all(messages).numbered_in_a_row(),
        state.sent_all(messages).seq == state.seq + messages.len(),
        state.sent_all(messages).outbox.len() == state.outbox.len() + messages.len(),
        state.sent_all(messages).input == state.input,
    decreases messages.len(),
{
    if messages.len() > 0 {
        crate::debug_adapter::lemma_sent_numbers_in_a_row(state, messages[0]);
        lemma_sent_all_numbers_in_a_row(state.sent(messages[0]), messages.drop_first());
    }
}

/// Messages leave in the order in which they were sent, each under the
/// next number: where numbers are left for all of `messages`, the message
/// at the place `i` among them waits behind those that waited before, and
/// its number is the number that was next, plus `i`.
pub proof fn lemma_sent_all_in_order(
    state: DebugAdapterView,
    messages: Seq<OutgoingView>,
    i: int,
)
    requires
        state.can_send_all(messages.len()),
        0 <= i < messages.len(),
    ensures
        state.sent_all(messages).outbox.len() == state.outbox.len() + messages.len(),
        state.sent_all(messages).outbox[state.outbox.len() + i] == messages[i].numbered(
            (state.seq + i) as i64,
        ),
        forall|j: int|
            0 <= j < state.outbox.len() ==> state.sent_all(messages).outbox[j]
                == #[trigger] state.outbox[j],
    decreases messages.len(),
{
    let next = state.sent(messages[0]);
    let rest = messages.drop_first();
    if messages.len() == 1 {
        assert(next.sent_all(rest) == next);
    } else if i == 0 {
        lemma_sent_all_in_order(next, rest, 0);
        assert(next.outbox[state.outbox.len() as int] == messages[0].numbered(state.seq));
    } else {
        lemma_sent_all_in_order(next, rest, i - 1);
        assert(rest[i - 1] == messages[i]);
    }
    assert forall|j: int| 0 <= j < state.outbox.len() implies state.sent_all(messages).outbox[j]
        == #[trigger] state.outbox[j] by {
        assert(next.outbox[j] == state.outbox[j]);
        if messages.len() > 1 {
            lemma_sent_all_in_order(next, rest, 0);
        }
    }
}

/// Of a session that has written out `written` so far and is in the
/// state `state`: the messages written and those that wait are, in this
/// order, numbered 1, 2, 3 and so on, and the number that is next follows
/// the last of them.
pub open spec fn numbered_from_one(written: Seq<OutgoingView>, state: DebugAdapterView) -> bool {
    &&& state.seq == written.len() + state.outbox.len() + 1
    &&& forall|i: int|
        0 <= i < (written + state.outbox).len() ==> (#[trigger] (written + state.outbox)[i]).seq()
            == i + 1
}

/// Over a whole run the messages are numbered from 1 on, each number
/// used once: a new session has written nothing and starts at 1; sending
/// messages, and taking the messages that wait in order to write them
/// out, both keep the numbering; and what arrives does not touch it.
pub proof fn lemma_run_is_numbered_from_one(
    written: Seq<OutgoingView>,
    state: DebugAdapterView,
    messages: Seq<OutgoingView>,
    input: Seq<u8>,
)
    requires
        numbered_from_one(written, state),
    ensures
        numbered_from_one(
            Seq::empty(),
            DebugAdapterView { seq: 1, input: Seq::empty(), outbox: Seq::empty() },
        ),
        state.numbered_in_a_row(),
        state.can_send_all(messages.len()) ==> numbered_from_one(
            written,
            state.sent_all(messages),
        ),
        numbered_from_one(
            written + state.outbox,
            DebugAdapterView { outbox: Seq::empty(), ..state },
        ),
        numbered_from_one(written, DebugAdapterView { input, ..state }),
{
    let all = written + state.outbox;
    assert forall|i: int| 0 <= i < state.outbox.len() implies (#[trigger] state.outbox[i]).seq()
        == state.seq - state.outbox.len() + i by {
        assert(all[written.len() + i] == state.outbox[i]);
    }
    assert((written + state.outbox) + Seq::<OutgoingView>::empty() =~= written + state.outbox);
    if state.can_send_all(messages.len()) {
        let after = state.sent_all(messages);
        lemma_sent_all_numbers_in_a_row(state, messages);
        assert forall|i: int| 0 <= i < (written + after.outbox).len() implies (#[trigger] (written
            + after.outbox)[i]).seq() == i + 1 by {
            if i < written.len() {
                assert(all[i] == written[i]);
            } else {
                let k = i - written.len();
                assert((written + after.outbox)[i] == after.outbox[k]);
                assert(after.outbox[k].seq() == after.seq - after.outbox.len() + k);
            }
        }
    }
}

/// `attach` without a probe does not end the session: where no session
/// with the probe could be opened, the request is answered with a failure,
/// no probe counts as attached that was not before, and the session is
/// idle again, ready for the next request.
pub proof fn lemma_attach_without_probe(
    state: DebuggerView,
    request: RequestView,
    debug_info: bool,
    words: Seq<char>,
)
    requires
        command_of(request.command) == Command::Attach,
        request.arguments is Attach,
    ensures
        ({
            let asked = on_request(state, request);
            let decision = on_reply(
                asked.state,
                ProbeReplyView::Attached { debug_info, error: Some(words) },
            );
            &&& asked.result matches Ok(HandleResultView::Probe(_))
            &&& asked.messages.len() == 0
            &&& decision.messages == seq![
                failure(head_of(request), "Failed to attach to probe."@),
            ]
            &&& decision.result == Ok::<HandleResultView, ErrorView>(HandleResultView::Continue)
            &&& decision.state.pending is Idle
            &&& decision.state.session == state.session
            &&& decision.state.breakpoints == state.breakpoints
            &&& decision.state.current_stackframes == state.current_stackframes
        }),
{
}

/// `stackTrace` without debug information fails, and does nothing else:
/// the request is answered with a failure, the probe is not asked for
/// anything, and the state of the session stays as it was.
pub proof fn lemma_stack_trace_without_debug_info(state: DebuggerView, request: RequestView)
    requires
        command_of(request.command) == Command::StackTrace,
        !state.debug_info,
    ensures
        ({
            let decision = on_request(state, request);
            &&& decision.state == (DebuggerView { pending: PendingView::Idle, ..state })
            &&& decision.result == Ok::<HandleResultView, ErrorView>(HandleResultView::Continue)
            &&& decision.messages.len() == 1
            &&& decision.messages[0] matches OutgoingView::Response(response)
            &&& !response.success
            &&& response.body is None
            &&& response.message is Some
            &&& response.request_seq == request.seq
            &&& arguments_error(request.arguments) is None ==> decision.messages[0] == if state.session {
                failure(head_of(request), "No debug information found"@)
            } else {
                refusal(head_of(request), ErrorView::MissingSession)
            }
        }),
{
}

/// A table that has, place by place, the numbers of a table in order is
/// in order itself.
pub proof fn lemma_same_numbers_in_order(
    before: Seq<BreakpointInfoView>,
    after: Seq<BreakpointInfoView>,
    bound: int,
)
    requires
        ids_in_order(before, bound),
        after.len() == before.len(),
        forall|i: int| 0 <= i < before.len() ==> (#[trigger] after[i]).id == before[i].id,
    ensures
        ids_in_order(after, bound),
{
    assert forall|i: int, j: int| 0 <= i < j < after.len() implies (#[trigger] after[i]).id < (
    #[trigger] after[j]).id by {
        assert(before[i].id < before[j].id);
    }
    assert forall|i: int| 0 <= i < after.len() implies (#[trigger] after[i]).id < bound by {
        assert(before[i].id < bound);
    }
}

/// Giving addresses to the breakpoints that had none changes no number.
pub proof fn lemma_resolved_unknown_keeps_numbers(
    table: Seq<BreakpointInfoView>,
    addresses: Seq<Option<u64>>,
)
    ensures
        resolved_unknown(table, addresses).len() == table.len(),
        forall|i: int|
            0 <= i < table.len() ==> (#[trigger] resolved_unknown(table, addresses)[i]).id
                == table[i].id,
    decreases table.len(),
{
    if table.len() > 0 {
        lemma_resolved_unknown_keeps_numbers(table.drop_last(), addresses);
        let after = resolved_unknown(table, addresses);
        assert forall|i: int| 0 <= i < table.len() implies (#[trigger] after[i]).id
            == table[i].id by {
            if i < table.len() - 1 {
                assert(after[i] == resolved_unknown(table.drop_last(), addresses)[i]);
                assert(table.drop_last()[i] == table[i]);
            }
        }
    }
}

proof fn lemma_without_source_in_order(
    table: Seq<BreakpointInfoView>,
    source: Option<Seq<char>>,
    bound: int,
)
    requires
        ids_in_order(table, bound),
    ensures
        ids_in_order(without_source(table, source), bound),
        without_source(table, source).len() <= table.len(),
        forall|i: int|
            0 <= i < without_source(table, source).len() ==> (#[trigger] without_source(
                table,
                source,
            )[i]).source != source,
        without_source(table, source).len() > 0 ==> table.len() > 0 && without_source(
            table,
            source,
        ).last().id <= table.last().id,
    decreases table.len(),
{
    if table.len() > 0 {
        let rest = table.drop_last();
        assert(ids_in_order(rest, bound)) by {
            assert forall|i: int, j: int| 0 <= i < j < rest.len() implies (#[trigger] rest[i]).id
                < (#[trigger] rest[j]).id by {
                assert(rest[i] == table[i] && rest[j] == table[j]);
            }
            assert forall|i: int| 0 <= i < rest.len() implies (#[trigger] rest[i]).id
                < bound by {
                assert(rest[i] == table[i]);
            }
        }
        lemma_without_source_in_order(rest, source, bound);
        let kept = without_source(rest, source);
        if kept.len() > 0 {
            assert(rest.last() == table[rest.len() - 1]);
            assert(table[rest.len() - 1].id < table[table.len() - 1].id);
        }
    }
}

/// Numbers are never reused: whatever the client asks and whatever the
/// probe replies, no two breakpoints of the session come to have the same
/// number, and the number that the next breakpoint will have never falls.
pub proof fn lemma_numbers_are_never_reused(
    state: DebuggerView,
    request: RequestView,
    reply: ProbeReplyView,
)
    requires
        well_numbered(state),
    ensures
        well_numbered(on_request(state, request).state),
        on_request(state, request).state.bp_id >= state.bp_id,
        well_numbered(on_reply(state, reply).state),
        on_reply(state, reply).state.bp_id == state.bp_id,
{
    let next = on_request(state, request).state;
    if command_of(request.command) == Command::SetBreakpoints {
        match request.arguments {
            ArgumentsView::SetBreakpoints(arguments) => {
                let requested = match arguments.breakpoints {
                    Some(requested) => requested,
                    None => Seq::empty(),
                };
                if state.bp_id + requested.len() <= u32::MAX {
                    lemma_replaced_in_order(state, arguments.source_path, requested);
                }
            },
            _ => {},
        }
    }
    let after = on_reply(state, reply).state;
    match reply {
        ProbeReplyView::Resolved { addresses } => {
            lemma_resolved_unknown_keeps_numbers(state.breakpoints, addresses);
        },
        _ => {},
    }
    assert(ids_in_order(after.breakpoints, state.bp_id as int)) by {
        assert(after.breakpoints.len() == state.breakpoints.len());
        assert forall|i: int| 0 <= i < after.breakpoints.len() implies (
        #[trigger] after.breakpoints[i]).id == state.breakpoints[i].id by {}
    }
}

/// Replacing the breakpoints of one source file keeps the numbers in
/// order: those that stay keep theirs, and the new ones get the numbers
/// from the next one on.
pub proof fn lemma_replaced_in_order(
    state: DebuggerView,
    source: Option<Seq<char>>,
    requested: Seq<SourceBreakpoint>,
)
    requires
        well_numbered(state),
        state.bp_id + requested.len() <= u32::MAX,
    ensures
        ids_in_order(
            without_source(state.breakpoints, source) + added(requested, source, state.bp_id),
            state.bp_id + requested.len(),
        ),
{
    lemma_without_source_in_order(state.breakpoints, source, state.bp_id as int);
    let kept = without_source(state.breakpoints, source);
    let table = kept + added(requested, source, state.bp_id);
    assert forall|i: int, j: int| 0 <= i < j < table.len() implies (#[trigger] table[i]).id < (
    #[trigger] table[j]).id by {
        if j < kept.len() {
            assert(table[i] == kept[i] && table[j] == kept[j]);
        } else if i < kept.len() {
            assert(table[i] == kept[i]);
        }
    }
    assert forall|i: int| 0 <= i < table.len() implies (#[trigger] table[i]).id < state.bp_id
        + requested.len() by {
        if i < kept.len() {
            assert(table[i] == kept[i]);
        }
    }
}

/// The places that a `setBreakpoints` request asks for.
pub open spec fn requested_by(request: RequestView) -> Seq<SourceBreakpoint> {
    match request.arguments {
        ArgumentsView::SetBreakpoints(arguments) => match arguments.breakpoints {
            Some(requested) => requested,
            None => Seq::empty(),
        },
        _ => Seq::empty(),
    }
}

/// The source file that a `setBreakpoints` request names.
pub open spec fn source_of(request: RequestView) -> Option<Seq<char>> {
    match request.arguments {
        ArgumentsView::SetBreakpoints(arguments) => arguments.source_path,
        _ => None,
    }
}

/// What becomes of a `setBreakpoints` request once the probe has replied
/// to what the session asks on its behalf: `resolved` is the reply where
/// the session asks for addresses, `armed` the reply where it then asks
/// for breakpoints to be set.
pub open spec fn settled(
    state: DebuggerView,
    request: RequestView,
    resolved: ProbeReplyView,
    armed: ProbeReplyView,
) -> DecisionView {
    let asked = on_request(state, request);
    match asked.state.pending {
        PendingView::SetBreakpointsResolve { .. } => {
            let next = on_reply(asked.state, resolved);
            match next.state.pending {
                PendingView::SetBreakpointsArm { .. } => on_reply(next.state, armed),
                _ => next,
            }
        },
        _ => asked,
    }
}

/// From the places `first_a` and `first_b` on, the tables `a` and `b`
/// hold as many breakpoints, and one by one these have the same place,
/// the same source file, the same address, and are verified or not alike.
pub open spec fn alike(
    a: Seq<BreakpointInfoView>,
    first_a: nat,
    b: Seq<BreakpointInfoView>,
    first_b: nat,
) -> bool {
    &&& first_a <= a.len()
    &&& first_b <= b.len()
    &&& a.len() - first_a == b.len() - first_b
    &&& forall|j: int|
        first_a <= j < a.len() ==> {
            let x = #[trigger] a[j];
            let y = b[j - first_a + first_b];
            &&& x.info == y.info
            &&& x.source == y.source
            &&& x.address == y.address
            &&& x.verified == y.verified
        }
}

proof fn lemma_alike_addresses(
    a: Seq<BreakpointInfoView>,
    first_a: nat,
    b: Seq<BreakpointInfoView>,
    first_b: nat,
)
    requires
        alike(a, first_a, b, first_b),
    ensures
        addresses_from(a, first_a) == addresses_from(b, first_b),
    decreases a.len(),
{
    if a.len() > first_a {
        let x = a[a.len() - 1];
        assert(b.last() == b[a.len() - 1 - first_a + first_b]);
        assert(alike(a.drop_last(), first_a, b.drop_last(), first_b)) by {
            assert forall|j: int| first_a <= j < a.drop_last().len() implies ({
                let x = #[trigger] a.drop_last()[j];
                let y = b.drop_last()[j - first_a + first_b];
                &&& x.info == y.info
                &&& x.source == y.source
                &&& x.address == y.address
                &&& x.verified == y.verified
            }) by {
                assert(a.drop_last()[j] == a[j]);
            }
        }
        lemma_alike_addresses(a.drop_last(), first_a, b.drop_last(), first_b);
    }
}

proof fn lemma_alike_stages(
    a: Seq<BreakpointInfoView>,
    first_a: nat,
    b: Seq<BreakpointInfoView>,
    first_b: nat,
    addresses: Seq<Option<u64>>,
)
    requires
        alike(a, first_a, b, first_b),
    ensures
        alike(resolved_from(a, first_a, addresses), first_a, resolved_from(b, first_b, addresses), first_b),
        alike(armed_from(a, first_a), first_a, armed_from(b, first_b), first_b),
        reported_from(a, first_a) == reported_from(b, first_b),
{
    let ra = resolved_from(a, first_a, addresses);
    let rb = resolved_from(b, first_b, addresses);
    assert forall|j: int| first_a <= j < ra.len() implies ({
        let x = #[trigger] ra[j];
        let y = rb[j - first_a + first_b];
        &&& x.info == y.info
        &&& x.source == y.source
        &&& x.address == y.address
        &&& x.verified == y.verified
    }) by {
        assert(a[j].info == b[j - first_a + first_b].info);
    }
    let ma = armed_from(a, first_a);
    let mb = armed_from(b, first_b);
    assert forall|j: int| first_a <= j < ma.len() implies ({
        let x = #[trigger] ma[j];
        let y = mb[j - first_a + first_b];
        &&& x.info == y.info
        &&& x.source == y.source
        &&& x.address == y.address
        &&& x.verified == y.verified
    }) by {
        assert(a[j].info == b[j - first_a + first_b].info);
    }
    assert(reported_from(a, first_a) =~= reported_from(b, first_b)) by {
        assert forall|i: int| 0 <= i < a.len() - first_a implies reported_from(a, first_a)[i]
            == reported_from(b, first_b)[i] by {
            assert(a[first_a + i].info == b[first_a + i - first_a + first_b].info);
        }
    }
}

/// The same request for breakpoints has the same outcome wherever the
/// session stands: two sessions in which the same is attached and loaded,
/// asked for the same places in the same file and given the same replies
/// by the probe, answer alike. The answers differ at most in the request
/// that they name.
pub proof fn lemma_breakpoints_outcome(
    one: DebuggerView,
    other: DebuggerView,
    first: RequestView,
    second: RequestView,
    resolved: ProbeReplyView,
    armed: ProbeReplyView,
)
    requires
        one.session == other.session,
        one.debug_info == other.debug_info,
        command_of(first.command) == Command::SetBreakpoints,
        command_of(second.command) == Command::SetBreakpoints,
        first.arguments is SetBreakpoints,
        second.arguments == first.arguments,
        one.bp_id + requested_by(first).len() <= u32::MAX,
        other.bp_id + requested_by(first).len() <= u32::MAX,
    ensures
        ({
            let a = settled(one, first, resolved, armed);
            let b = settled(other, second, resolved, armed);
            &&& a.state.pending is Idle
            &&& b.state.pending is Idle
            &&& a.messages.len() == 1
            &&& b.messages.len() == 1
            &&& a.messages[0] matches OutgoingView::Response(x)
            &&& b.messages[0] matches OutgoingView::Response(y)
            &&& x.success == y.success
            &&& x.message == y.message
            &&& x.body == y.body
        }),
{
    let source = source_of(first);
    let requested = requested_by(first);
    let kept_a = without_source(one.breakpoints, source);
    let kept_b = without_source(other.breakpoints, source);
    let a0 = kept_a + added(requested, source, one.bp_id);
    let b0 = kept_b + added(requested, source, other.bp_id);
    let ka = kept_a.len();
    let kb = kept_b.len();
    assert(alike(a0, ka, b0, kb)) by {
        assert forall|j: int| ka <= j < a0.len() implies ({
            let x = #[trigger] a0[j];
            let y = b0[j - ka + kb];
            &&& x.info == y.info
            &&& x.source == y.source
            &&& x.address == y.address
            &&& x.verified == y.verified
        }) by {
            assert(a0[j] == added(requested, source, one.bp_id)[j - ka]);
            assert(b0[j - ka + kb] == added(requested, source, other.bp_id)[j - ka]);
        }
    }
    let asked_a = on_request(one, first);
    let asked_b = on_request(other, second);
    assert(asked_a == on_set_breakpoints(one, head_of(first), source, requested));
    assert(asked_b == on_set_breakpoints(other, head_of(second), source, requested));
    lemma_alike_stages(a0, ka, b0, kb, Seq::empty());
    if source is Some && one.debug_info && requested.len() > 0 {
        let a1 = match resolved {
            ProbeReplyView::Resolved { addresses } => resolved_from(a0, ka, addresses),
            _ => a0,
        };
        let b1 = match resolved {
            ProbeReplyView::Resolved { addresses } => resolved_from(b0, kb, addresses),
            _ => b0,
        };
        match resolved {
            ProbeReplyView::Resolved { addresses } => {
                lemma_alike_stages(a0, ka, b0, kb, addresses);
            },
            _ => {},
        }
        assert(alike(a1, ka, b1, kb));
        lemma_alike_addresses(a1, ka, b1, kb);
        lemma_alike_stages(a1, ka, b1, kb, Seq::empty());
        let next_a = on_reply(asked_a.state, resolved);
        let next_b = on_reply(asked_b.state, resolved);
        if one.session && addresses_from(a1, ka).len() > 0 {
            let a2 = armed_from(a1, ka);
            let b2 = armed_from(b1, kb);
            lemma_alike_stages(a2, ka, b2, kb, Seq::empty());
            assert(next_a.state.pending is SetBreakpointsArm);
            assert(next_b.state.pending is SetBreakpointsArm);
        }
    }
}

/// `setBreakpoints` replaces the breakpoints of one source file: once
/// the request is dealt with, the table holds the breakpoints of the other
/// source files as before, and after them one breakpoint for each place
/// that was asked for, in the order of the request, numbered from the
/// number that was next. Nothing else of that source file is left.
pub proof fn lemma_breakpoints_are_replaced(
    state: DebuggerView,
    request: RequestView,
    resolved: ProbeReplyView,
    armed: ProbeReplyView,
)
    requires
        well_numbered(state),
        command_of(request.command) == Command::SetBreakpoints,
        request.arguments is SetBreakpoints,
        state.bp_id + requested_by(request).len() <= u32::MAX,
    ensures
        ({
            let after = settled(state, request, resolved, armed).state;
            let kept = without_source(state.breakpoints, source_of(request));
            &&& well_numbered(after)
            &&& after.session == state.session
            &&& after.debug_info == state.debug_info
            &&& after.bp_id == state.bp_id + requested_by(request).len()
            &&& after.breakpoints.len() == kept.len() + requested_by(request).len()
            &&& forall|j: int|
                0 <= j < kept.len() ==> (#[trigger] after.breakpoints[j]).source != source_of(
                    request,
                ) && after.breakpoints[j] == kept[j]
            &&& forall|j: int|
                kept.len() <= j < after.breakpoints.len() ==> {
                    &&& (#[trigger] after.breakpoints[j]).id == state.bp_id + (j - kept.len())
                    &&& after.breakpoints[j].source == source_of(request)
                    &&& after.breakpoints[j].info == requested_by(request)[j - kept.len()]
                }
        }),
{
    let source = source_of(request);
    let requested = requested_by(request);
    let kept = without_source(state.breakpoints, source);
    lemma_without_source_in_order(state.breakpoints, source, state.bp_id as int);
    let t0 = kept + added(requested, source, state.bp_id);
    let asked = on_request(state, request);
    assert(asked == on_set_breakpoints(state, head_of(request), source, requested));
    assert(asked.state.breakpoints == t0);
    assert forall|j: int| 0 <= j < kept.len() implies (#[trigger] t0[j]).source != source by {
        assert(t0[j] == kept[j]);
    }
    assert forall|j: int| kept.len() <= j < t0.len() implies (#[trigger] t0[j]).id
        == state.bp_id + (j - kept.len()) && t0[j].source == source && t0[j].info
        == requested[j - kept.len()] by {
        assert(t0[j] == added(requested, source, state.bp_id)[j - kept.len()]);
    }
    lemma_numbers_are_never_reused(state, request, resolved);
    let next = on_reply(asked.state, resolved);
    lemma_numbers_are_never_reused(asked.state, request, resolved);
    lemma_numbers_are_never_reused(next.state, request, armed);
    match asked.state.pending {
        PendingView::SetBreakpointsResolve { request: head, first } => {
            assert(first == kept.len());
            let t1 = next.state.breakpoints;
            assert(t1.len() == t0.len());
            assert forall|j: int| 0 <= j < t1.len() implies (#[trigger] t1[j]).source
                == t0[j].source && t1[j].id == t0[j].id && t1[j].info == t0[j].info && (j
                < kept.len() ==> t1[j] == t0[j]) by {}
            match next.state.pending {
                PendingView::SetBreakpointsArm { request: head, first } => {
                    let t2 = on_reply(next.state, armed).state.breakpoints;
                    assert(t2.len() == t1.len());
                    assert forall|j: int| 0 <= j < t2.len() implies (#[trigger] t2[j]).source
                        == t1[j].source && t2[j].id == t1[j].id && t2[j].info == t1[j].info && (j
                        < kept.len() ==> t2[j] == t1[j]) by {}
                },
                _ => {},
            }
        },
        _ => {},
    }
}

/// Asking twice for the same breakpoints: where a session is asked for
/// the same places in the same source file twice in a row, and the probe
/// replies the same both times, the two answers report the same
/// breakpoints, verified or not alike, and every breakpoint that the
/// second request makes has a number above those of all breakpoints that
/// the session held before it.
pub proof fn lemma_same_breakpoints_twice(
    state: DebuggerView,
    first: RequestView,
    second: RequestView,
    resolved: ProbeReplyView,
    armed: ProbeReplyView,
)
    requires
        well_numbered(state),
        command_of(first.command) == Command::SetBreakpoints,
        command_of(second.command) == Command::SetBreakpoints,
        first.arguments is SetBreakpoints,
        second.arguments == first.arguments,
        state.bp_id + 2 * requested_by(first).len() <= u32::MAX,
    ensures
        ({
            let once = settled(state, first, resolved, armed);
            let twice = settled(once.state, second, resolved, armed);
            &&& once.messages.len() == 1
            &&& twice.messages.len() == 1
            &&& once.messages[0] matches OutgoingView::Response(x)
            &&& twice.messages[0] matches OutgoingView::Response(y)
            &&& x.success == y.success
            &&& x.message == y.message
            &&& x.body == y.body
            &&& x.request_seq == first.seq
            &&& y.request_seq == second.seq
            &&& forall|i: int, j: int|
                0 <= i < twice.state.breakpoints.len() && 0 <= j < once.state.breakpoints.len()
                    && (#[trigger] twice.state.breakpoints[i]).source == source_of(first) ==> (
                #[trigger] once.state.breakpoints[j]).id < twice.state.breakpoints[i].id
        }),
{
    let once = settled(state, first, resolved, armed);
    let twice = settled(once.state, second, resolved, armed);
    lemma_breakpoints_are_replaced(state, first, resolved, armed);
    lemma_breakpoints_outcome(state, once.state, first, second, resolved, armed);
    lemma_breakpoints_are_replaced(once.state, second, resolved, armed);
    lemma_without_source_in_order(
        once.state.breakpoints,
        source_of(first),
        once.state.bp_id as int,
    );
    lemma_request_is_answered(state, first);
    lemma_request_is_answered(once.state, second);
    let asked = on_request(state, first);
    if !(asked.state.pending is Idle) {
        lemma_reply_answers_the_waiting_request(asked.state, resolved);
        let next = on_reply(asked.state, resolved);
        if !(next.state.pending is Idle) {
            lemma_reply_answers_the_waiting_request(next.state, armed);
        }
    }
    let again = on_request(once.state, second);
    if !(again.state.pending is Idle) {
        lemma_reply_answers_the_waiting_request(again.state, resolved);
        let next = on_reply(again.state, resolved);
        if !(next.state.pending is Idle) {
            lemma_reply_answers_the_waiting_request(next.state, armed);
        }
    }
}

/// A response is as the protocol wants it: it carries the sequence
/// number and the command of its request, it succeeds exactly where the
/// outcome is no error, and a failure says why and carries nothing else.
pub proof fn lemma_response_is_well_formed(
    request: RequestView,
    outcome: Result<Option<ResponseBodyView>, ErrorView>,
    seq: i64,
)
    ensures
        response_to(request, outcome, seq).well_formed(),
        response_to(request, outcome, seq).request_seq == request.seq,
        response_to(request, outcome, seq).command == request.command,
        response_to(request, outcome, seq).success == (outcome is Ok),
        response_to(request, outcome, seq).seq == seq,
{
}

/// A frame is known by its place in the stack: the frames of one stack
/// trace have numbers that differ from each other, and the number of a
/// frame leads back to that frame and to no other.
pub proof fn lemma_frames_are_known_by_their_place(frames: Seq<FrameView>, i: int, j: int)
    requires
        0 <= i < frames.len() <= i64::MAX,
        0 <= j < frames.len(),
    ensures
        reported_frames(frames)[i].id == i,
        i != j ==> reported_frames(frames)[i].id != reported_frames(frames)[j].id,
        frame_at(frames, reported_frames(frames)[i].id) == Some(frames[i]),
{
}

/// Once the target runs again, the stack of before is forgotten: where
/// `continue` or `next` lets the target run, no number leads to a frame
/// any more, and requests for scopes and variables find nothing.
pub proof fn lemma_running_forgets_the_stack(
    state: DebuggerView,
    request: RequestView,
    reference: i64,
)
    requires
        state.session,
        command_of(request.command) == Command::Continue || command_of(request.command)
            == Command::Next,
        arguments_error(request.arguments) is None,
    ensures
        ({
            let after = on_request(state, request).state;
            &&& frame_at(after.current_stackframes, reference) is None
            &&& scopes_of(after.current_stackframes, reference).len() == 0
            &&& variables_of(after.current_stackframes, reference).len() == 0
        }),
{
}

/// The handshake: a session that has not begun answers `initialize` with
/// what the adapter supports, sends the event `initialized` right after,
/// and from then on handles requests.
pub proof fn lemma_handshake(state: DebuggerView, request: RequestView)
    requires
        command_of(request.command) == Command::Initialize,
        arguments_error(request.arguments) is None,
    ensures
        ({
            let decision = session::on_message(
                Phase::Uninitialized,
                state,
                DebugAdapterMessageView::Request(request),
            );
            &&& decision.phase == Phase::Running
            &&& decision.decision.state == state
            &&& decision.decision.result == Ok::<HandleResultView, ErrorView>(
                HandleResultView::Continue,
            )
            &&& decision.decision.messages == seq![
                success(
                    head_of(request),
                    Some(ResponseBodyView::Capabilities(session::capabilities())),
                ),
                notice(EventView::Initialized),
            ]
        }),
{
}

/// The end: a running session answers `disconnect` with
/// success, sends the event `terminated` as its last message, and handles
/// nothing after that.
pub proof fn lemma_disconnect_ends_the_session(
    state: DebuggerView,
    request: RequestView,
    later: DebugAdapterMessageView,
)
    requires
        command_of(request.command) == Command::Disconnect,
        arguments_error(request.arguments) is None,
    ensures
        ({
            let decision = session::on_message(
                Phase::Running,
                state,
                DebugAdapterMessageView::Request(request),
            );
            let after = session::on_message(decision.phase, decision.decision.state, later);
            &&& decision.phase == Phase::Terminated
            &&& decision.decision.result == Ok::<HandleResultView, ErrorView>(
                HandleResultView::Stop,
            )
            &&& decision.decision.messages == seq![
                success(head_of(request), None),
                notice(EventView::Terminated(RestartRequest::No)),
            ]
            &&& after.phase == Phase::Terminated
            &&& after.decision.messages.len() == 0
            &&& after.decision.result is Err
        }),
{
}

} // verus!
