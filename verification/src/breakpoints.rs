//! The table of breakpoints of a debug session.

use crate::debug_adapter::{Event, Outgoing};
use crate::messages::notice;
use crate::probe::Location;
use crate::rules;
use crate::rules::BreakpointInfoView;
use crate::text::{copy_text, str_eq};
use crate::types::{Breakpoint, SourceBreakpoint};
use vstd::prelude::*;
use vstd::string::StringExecFns;

verus! {

/// A breakpoint as the session keeps it.
#[derive(Clone, Debug, PartialEq, Eq)]
pub struct BreakpointInfo {
    pub id: u32,
    pub verified: bool,
    pub info: SourceBreakpoint,
    pub source: Option<String>,
    pub address: Option<u64>,
}

impl DeepView for BreakpointInfo {
    type V = BreakpointInfoView;

    open spec fn deep_view(&self) -> BreakpointInfoView {
        BreakpointInfoView {
            id: self.id,
            verified: self.verified,
            info: self.info,
            source: self.source.deep_view(),
            address: self.address,
        }
    }
}

impl View for BreakpointInfo {
    type V = BreakpointInfoView;

    open spec fn view(&self) -> BreakpointInfoView {
        self.deep_view()
    }
}

impl BreakpointInfo {
    /// The event that tells the client that this breakpoint has changed.
    pub fn get_event_body(&self) -> (r: Event)
        ensures
            r@ == rules::changed_event(self@),
    {
        Event::Breakpoint {
            reason: String::from_str("changed"),
            breakpoint: Breakpoint {
                id: Some(self.id as i64),
                column: self.info.column,
                line: Some(self.info.line),
                verified: self.verified,
            },
        }
    }
}

pub(crate) fn same_text(a: &Option<String>, b: &Option<String>) -> (r: bool)
    ensures
        r == (a.deep_view() == b.deep_view()),
{
    match (a, b) {
        (Some(x), Some(y)) => str_eq(x.as_str(), y.as_str()),
        (None, None) => true,
        _ => false,
    }
}

impl BreakpointInfo {
    pub(crate) fn duplicate(&self) -> (r: BreakpointInfo)
        ensures
            r@ == self@,
    {
        BreakpointInfo {
            id: self.id,
            verified: self.verified,
            info: self.info,
            source: copy_text(&self.source),
            address: self.address,
        }
    }
}

pub(crate) fn without_source(table: &Vec<BreakpointInfo>, source: &Option<String>) -> (r: Vec<
    BreakpointInfo,
>)
    ensures
        r.deep_view() == rules::without_source(table.deep_view(), source.deep_view()),
{
    let mut kept: Vec<BreakpointInfo> = Vec::new();
    let mut i: usize = 0;
    assert(table.deep_view().take(0) =~= Seq::empty());
    assert(kept.deep_view() =~= Seq::empty());
    while i < table.len()
        invariant
            i <= table.len(),
            kept.deep_view() == rules::without_source(
                table.deep_view().take(i as int),
                source.deep_view(),
            ),
        decreases table.len() - i,
    {
        let ghost before = kept.deep_view();
        assert(table.deep_view().take(i + 1).drop_last() =~= table.deep_view().take(i as int));
        assert(table.deep_view().take(i + 1).last() == table[i as int]@);
        if !same_text(&table[i].source, source) {
            kept.push(table[i].duplicate());
            assert(kept.deep_view() =~= before.push(table[i as int]@));
        }
        i += 1;
    }
    assert(table.deep_view().take(table.len() as int) =~= table.deep_view());
    kept
}

/// Appends to `table` a breakpoint for each of the places `requested`.
pub(crate) fn add_breakpoints(
    table: &mut Vec<BreakpointInfo>,
    requested: &Vec<SourceBreakpoint>,
    source: &Option<String>,
    first_id: u32,
)
    requires
        first_id + requested.len() <= u32::MAX,
    ensures
        final(table).deep_view() == old(table).deep_view() + rules::added(
            requested@,
            source.deep_view(),
            first_id,
        ),
{
    let ghost start = table.deep_view();
    let ghost all = rules::added(requested@, source.deep_view(), first_id);
    let mut i: usize = 0;
    assert(table.deep_view() =~= start + all.take(0));
    while i < requested.len()
        invariant
            i <= requested.len(),
            first_id + requested.len() <= u32::MAX,
            all == rules::added(requested@, source.deep_view(), first_id),
            table.deep_view() == start + all.take(i as int),
        decreases requested.len() - i,
    {
        let ghost before = table.deep_view();
        let entry = BreakpointInfo {
            id: first_id + i as u32,
            verified: false,
            info: requested[i],
            source: copy_text(source),
            address: None,
        };
        assert(entry@ == all[i as int]);
        table.push(entry);
        assert(table.deep_view() =~= before.push(all[i as int]));
        assert(before.push(all[i as int]) =~= start + all.take(i + 1));
        i += 1;
    }
    assert(all.take(requested.len() as int) =~= all);
}

pub(crate) fn places_from(table: &Vec<BreakpointInfo>, first: usize, source: &str) -> (r: Vec<Location>)
    ensures
        r.deep_view() == rules::places_from(table.deep_view(), first as nat, source@),
{
    let mut out: Vec<Location> = Vec::new();
    let mut i: usize = first;
    while i < table.len()
        invariant
            first <= i,
            first <= table.len() ==> i <= table.len(),
            out.len() == if first <= table.len() { i - first } else { 0 },
            forall|j: int|
                0 <= j < i - first ==> (#[trigger] out[j])@ == rules::places_from(
                    table.deep_view(),
                    first as nat,
                    source@,
                )[j],
        decreases table.len() - i,
    {
        out.push(
            Location {
                source: String::from_str(source),
                line: table[i].info.line,
                column: table[i].info.column,
            },
        );
        i += 1;
    }
    assert(out.deep_view() =~= rules::places_from(table.deep_view(), first as nat, source@));
    out
}

pub(crate) fn reported_from(table: &Vec<BreakpointInfo>, first: usize) -> (r: Vec<Breakpoint>)
    ensures
        r@ == rules::reported_from(table.deep_view(), first as nat),
{
    let mut out: Vec<Breakpoint> = Vec::new();
    let mut i: usize = first;
    while i < table.len()
        invariant
            first <= i,
            first <= table.len() ==> i <= table.len(),
            out.len() == if first <= table.len() { i - first } else { 0 },
            forall|j: int|
                0 <= j < i - first ==> #[trigger] out[j] == rules::reported_from(
                    table.deep_view(),
                    first as nat,
                )[j],
        decreases table.len() - i,
    {
        out.push(
            Breakpoint {
                id: None,
                verified: table[i].verified,
                line: Some(table[i].info.line),
                column: table[i].info.column,
            },
        );
        i += 1;
    }
    assert(out@ =~= rules::reported_from(table.deep_view(), first as nat));
    out
}

pub(crate) fn resolved_from(table: &Vec<BreakpointInfo>, first: usize, addresses: &Vec<Option<u64>>) -> (r:
    Vec<BreakpointInfo>)
    ensures
        r.deep_view() == rules::resolved_from(table.deep_view(), first as nat, addresses@),
{
    let mut out: Vec<BreakpointInfo> = Vec::new();
    let mut i: usize = 0;
    while i < table.len()
        invariant
            i <= table.len(),
            out.len() == i,
            forall|j: int|
                0 <= j < i ==> (#[trigger] out[j])@ == rules::resolved_from(
                    table.deep_view(),
                    first as nat,
                    addresses@,
                )[j],
        decreases table.len() - i,
    {
        let mut entry = table[i].duplicate();
        if i >= first {
            entry.address = if i - first < addresses.len() {
                addresses[i - first]
            } else {
                None
            };
        }
        out.push(entry);
        i += 1;
    }
    assert(out.deep_view() =~= rules::resolved_from(
        table.deep_view(),
        first as nat,
        addresses@,
    ));
    out
}

pub(crate) fn unresolved(breakpoint: &BreakpointInfo) -> (r: bool)
    ensures
        r == rules::is_unresolved(breakpoint@),
{
    breakpoint.address.is_none() && breakpoint.source.is_some()
}

pub(crate) fn unresolved_places(table: &Vec<BreakpointInfo>) -> (r: Vec<Location>)
    ensures
        r.deep_view() == rules::unresolved_places(table.deep_view()),
{
    let mut out: Vec<Location> = Vec::new();
    let mut i: usize = 0;
    assert(table.deep_view().take(0) =~= Seq::empty());
    assert(out.deep_view() =~= Seq::empty());
    while i < table.len()
        invariant
            i <= table.len(),
            out.deep_view() == rules::unresolved_places(table.deep_view().take(i as int)),
        decreases table.len() - i,
    {
        let ghost before = out.deep_view();
        assert(table.deep_view().take(i + 1).drop_last() =~= table.deep_view().take(i as int));
        assert(table.deep_view().take(i + 1).last() == table[i as int]@);
        if table[i].address.is_none() {
            match &table[i].source {
                Some(source) => {
                    let place = Location {
                        source: source.clone(),
                        line: table[i].info.line,
                        column: table[i].info.column,
                    };
                    out.push(place);
                    assert(out.deep_view() =~= before.push(place@));
                },
                None => {},
            }
        }
        i += 1;
    }
    assert(table.deep_view().take(table.len() as int) =~= table.deep_view());
    out
}

pub(crate) fn resolved_unknown(table: &Vec<BreakpointInfo>, addresses: &Vec<Option<u64>>) -> (r: Vec<
    BreakpointInfo,
>)
    ensures
        r.deep_view() == rules::resolved_unknown(table.deep_view(), addresses@),
{
    let mut out: Vec<BreakpointInfo> = Vec::new();
    let mut i: usize = 0;
    let mut place: usize = 0;
    assert(table.deep_view().take(0) =~= Seq::empty());
    assert(out.deep_view() =~= Seq::empty());
    while i < table.len()
        invariant
            i <= table.len(),
            place == rules::unresolved_places(table.deep_view().take(i as int)).len(),
            place <= i,
            out.deep_view() == rules::resolved_unknown(
                table.deep_view().take(i as int),
                addresses@,
            ),
        decreases table.len() - i,
    {
        let ghost before = out.deep_view();
        assert(table.deep_view().take(i + 1).drop_last() =~= table.deep_view().take(i as int));
        assert(table.deep_view().take(i + 1).last() == table[i as int]@);
        let mut entry = table[i].duplicate();
        if unresolved(&table[i]) {
            entry.address = if place < addresses.len() {
                addresses[place]
            } else {
                None
            };
            place += 1;
        }
        out.push(entry);
        assert(out.deep_view() =~= before.push(entry@));
        i += 1;
    }
    assert(table.deep_view().take(table.len() as int) =~= table.deep_view());
    out
}

pub(crate) fn armed_from(table: &Vec<BreakpointInfo>, first: usize) -> (r: Vec<BreakpointInfo>)
    ensures
        r.deep_view() == rules::armed_from(table.deep_view(), first as nat),
{
    let mut out: Vec<BreakpointInfo> = Vec::new();
    let mut i: usize = 0;
    while i < table.len()
        invariant
            i <= table.len(),
            out.len() == i,
            forall|j: int|
                0 <= j < i ==> (#[trigger] out[j])@ == rules::armed_from(
                    table.deep_view(),
                    first as nat,
                )[j],
        decreases table.len() - i,
    {
        let mut entry = table[i].duplicate();
        if i >= first && entry.address.is_some() {
            entry.verified = true;
        }
        out.push(entry);
        i += 1;
    }
    assert(out.deep_view() =~= rules::armed_from(table.deep_view(), first as nat));
    out
}

pub(crate) fn addresses_from(table: &Vec<BreakpointInfo>, first: usize) -> (r: Vec<u64>)
    ensures
        r@ == rules::addresses_from(table.deep_view(), first as nat),
{
    let mut out: Vec<u64> = Vec::new();
    let mut i: usize = 0;
    assert(table.deep_view().take(0) =~= Seq::empty());
    while i < table.len()
        invariant
            i <= table.len(),
            out@ == rules::addresses_from(table.deep_view().take(i as int), first as nat),
        decreases table.len() - i,
    {
        assert(table.deep_view().take(i + 1).drop_last() =~= table.deep_view().take(i as int));
        assert(table.deep_view().take(i + 1).last() == table[i as int]@);
        if i >= first {
            match table[i].address {
                Some(address) => {
                    out.push(address);
                },
                None => {},
            }
        }
        i += 1;
    }
    assert(table.deep_view().take(table.len() as int) =~= table.deep_view());
    out
}

pub(crate) fn newly_verified(table: &Vec<BreakpointInfo>) -> (r: Vec<Outgoing>)
    ensures
        r.deep_view() == rules::newly_verified(table.deep_view()),
{
    let mut out: Vec<Outgoing> = Vec::new();
    let mut i: usize = 0;
    assert(table.deep_view().take(0) =~= Seq::empty());
    assert(out.deep_view() =~= Seq::empty());
    while i < table.len()
        invariant
            i <= table.len(),
            out.deep_view() == rules::newly_verified(table.deep_view().take(i as int)),
        decreases table.len() - i,
    {
        let ghost before = out.deep_view();
        assert(table.deep_view().take(i + 1).drop_last() =~= table.deep_view().take(i as int));
        assert(table.deep_view().take(i + 1).last() == table[i as int]@);
        if table[i].address.is_some() && !table[i].verified {
            let mut entry = table[i].duplicate();
            entry.verified = true;
            let message = notice(&entry.get_event_body());
            out.push(message);
            assert(out.deep_view() =~= before.push(message@));
        }
        i += 1;
    }
    assert(table.deep_view().take(table.len() as int) =~= table.deep_view());
    out
}

} // verus!
