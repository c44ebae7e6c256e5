//! The messages of a debug session, as they are built before they are
//! numbered and sent.

use crate::debug_adapter::{Error, ErrorView, Event, Outgoing, OutgoingView};
use crate::probe::ProbeReply;
use crate::rules;
use crate::rules::RequestHeadView;
use crate::types::{Request, Response, ResponseBody, Thread};
use vstd::prelude::*;
use vstd::string::StringExecFns;

verus! {

/// What is kept of a request while the probe works on it.
#[derive(Clone, Debug, PartialEq, Eq)]
pub struct RequestHead {
    pub seq: i64,
    pub command: String,
}

impl DeepView for RequestHead {
    type V = RequestHeadView;

    open spec fn deep_view(&self) -> RequestHeadView {
        RequestHeadView { seq: self.seq, command: self.command@ }
    }
}

impl View for RequestHead {
    type V = RequestHeadView;

    open spec fn view(&self) -> RequestHeadView {
        self.deep_view()
    }
}

impl RequestHead {
    pub(crate) fn duplicate(&self) -> (r: RequestHead)
        ensures
            r@ == self@,
    {
        RequestHead { seq: self.seq, command: self.command.clone() }
    }
}

pub(crate) fn head_of(request: &Request) -> (r: RequestHead)
    ensures
        r@ == rules::head_of(request@),
{
    RequestHead { seq: request.seq, command: request.command.clone() }
}

pub(crate) fn success(request: &RequestHead, body: Option<ResponseBody>) -> (r: Outgoing)
    ensures
        r@ == rules::success(request@, body.deep_view()),
{
    Outgoing::Response(
        Response {
            seq: 0,
            request_seq: request.seq,
            command: request.command.clone(),
            success: true,
            message: None,
            body,
        },
    )
}

pub(crate) fn failure(request: &RequestHead, message: String) -> (r: Outgoing)
    ensures
        r@ == rules::failure(request@, message@),
{
    Outgoing::Response(
        Response {
            seq: 0,
            request_seq: request.seq,
            command: request.command.clone(),
            success: false,
            message: Some(message),
            body: None,
        },
    )
}

pub(crate) fn refusal(request: &RequestHead, error: &Error) -> (r: Outgoing)
    ensures
        r@ == rules::refusal(request@, error@),
{
    failure(request, error.message())
}

pub(crate) fn notice(event: &Event) -> (r: Outgoing)
    ensures
        r@ == rules::notice(event@),
{
    Outgoing::Event(event.to_message(0))
}

pub(crate) fn stopped(reason: &str, description: &str) -> (r: Event)
    ensures
        r@ == rules::stopped_event(reason@, description@),
{
    Event::Stopped {
        reason: String::from_str(reason),
        description: Some(String::from_str(description)),
        thread_id: Some(0),
    }
}

pub(crate) fn one(message: Outgoing) -> (r: Vec<Outgoing>)
    ensures
        r.deep_view() == seq![message@],
{
    let mut r: Vec<Outgoing> = Vec::new();
    r.push(message);
    assert(r.deep_view() =~= seq![message@]);
    r
}

pub(crate) fn two(first: Outgoing, second: Outgoing) -> (r: Vec<Outgoing>)
    ensures
        r.deep_view() == seq![first@, second@],
{
    let mut r: Vec<Outgoing> = Vec::new();
    r.push(first);
    r.push(second);
    assert(r.deep_view() =~= seq![first@, second@]);
    r
}

pub(crate) fn none() -> (r: Vec<Outgoing>)
    ensures
        r.deep_view() == Seq::<OutgoingView>::empty(),
{
    let r: Vec<Outgoing> = Vec::new();
    assert(r.deep_view() =~= Seq::<OutgoingView>::empty());
    r
}

pub(crate) fn failure_words(reply: &ProbeReply) -> (r: String)
    ensures
        r@ == rules::failure_words(reply@),
{
    match reply {
        ProbeReply::Failed(why) => why.clone(),
        _ => String::from_str("unexpected reply"),
    }
}

pub(crate) fn probe_failure(request: &RequestHead, reply: &ProbeReply) -> (r: Vec<Outgoing>)
    ensures
        r.deep_view() == seq![
            rules::refusal(request@, ErrorView::ProbeError(rules::failure_words(reply@))),
        ],
{
    one(refusal(request, &Error::ProbeError(failure_words(reply))))
}

pub(crate) fn main_thread() -> (r: Vec<Thread>)
    ensures
        r.deep_view() == seq![rules::main_thread()],
{
    let mut threads: Vec<Thread> = Vec::new();
    threads.push(Thread { id: 0, name: String::from_str("Main Thread") });
    assert(threads.deep_view() =~= seq![rules::main_thread()]);
    threads
}

} // verus!
