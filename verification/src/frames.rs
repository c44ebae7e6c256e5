//! The stack as the adapter reports it: frames, their scopes and their
//! variables.

use crate::path::join_path;
use crate::probe::{ColumnType, Frame, FrameView, SourceLocation};
use crate::rules;
use crate::text::copy_text;
use crate::types::{Scope, Source, StackFrame, Variable};
use vstd::prelude::*;
use vstd::string::StringExecFns;

verus! {

pub(crate) fn to_i64(n: u64) -> (r: i64)
    ensures
        r == rules::as_i64(n as int),
{
    if n > i64::MAX as u64 {
        i64::MAX
    } else {
        n as i64
    }
}

pub(crate) fn column_number(column: ColumnType) -> (r: i64)
    ensures
        r == rules::column_number(column),
{
    match column {
        ColumnType::LeftEdge => 0,
        ColumnType::Column(c) => to_i64(c),
    }
}

pub(crate) fn frame_source(location: &SourceLocation) -> (r: Source)
    ensures
        r@ == rules::frame_source(location@),
{
    Source {
        name: copy_text(&location.file),
        path: match (&location.directory, &location.file) {
            (Some(directory), Some(file)) => Some(join_path(directory.as_str(), file.as_str())),
            (Some(directory), None) => Some(directory.clone()),
            (None, Some(file)) => Some(file.clone()),
            (None, None) => None,
        },
    }
}

pub(crate) fn reported_frame(frame: &Frame, index: usize) -> (r: StackFrame)
    ensures
        r@ == rules::reported_frame(frame@, index as int),
{
    StackFrame {
        id: to_i64(index as u64),
        name: frame.function_name.clone(),
        source: match &frame.source_location {
            Some(location) => Some(frame_source(location)),
            None => None,
        },
        line: match &frame.source_location {
            Some(SourceLocation { line: Some(line), .. }) => to_i64(*line),
            _ => 0,
        },
        column: match &frame.source_location {
            Some(SourceLocation { column: Some(column), .. }) => column_number(*column),
            _ => 0,
        },
        presentation_hint: Some(String::from_str("normal")),
    }
}

pub(crate) fn reported_frames(frames: &Vec<Frame>) -> (r: Vec<StackFrame>)
    ensures
        r.deep_view() == rules::reported_frames(frames.deep_view()),
{
    let mut out: Vec<StackFrame> = Vec::new();
    let mut i: usize = 0;
    while i < frames.len()
        invariant
            i <= frames.len(),
            out.len() == i,
            forall|j: int|
                0 <= j < i ==> (#[trigger] out[j])@ == rules::reported_frames(
                    frames.deep_view(),
                )[j],
        decreases frames.len() - i,
    {
        out.push(reported_frame(&frames[i], i));
        i += 1;
    }
    assert(out.deep_view() =~= rules::reported_frames(frames.deep_view()));
    out
}

pub(crate) fn frame_at(frames: &Vec<Frame>, reference: i64) -> (r: Option<&Frame>)
    ensures
        match r {
            Some(frame) => rules::frame_at(frames.deep_view(), reference) == Some(frame@),
            None => rules::frame_at(frames.deep_view(), reference) is None,
        },
{
    if reference >= 0 && (reference as u64) < frames.len() as u64 {
        Some(&frames[reference as usize])
    } else {
        None
    }
}

pub(crate) fn scopes_of(frames: &Vec<Frame>, reference: i64) -> (r: Vec<Scope>)
    ensures
        r.deep_view() == rules::scopes_of(frames.deep_view(), reference),
{
    let mut out: Vec<Scope> = Vec::new();
    match frame_at(frames, reference) {
        Some(frame) => {
            let scope = Scope {
                name: String::from_str("Locals"),
                variables_reference: reference,
                expensive: false,
                source: match &frame.source_location {
                    Some(location) => Some(
                        Source {
                            name: copy_text(&location.file),
                            path: copy_text(&location.directory),
                        },
                    ),
                    None => None,
                },
                line: match &frame.source_location {
                    Some(SourceLocation { line: Some(line), .. }) => Some(to_i64(*line)),
                    _ => None,
                },
                column: match &frame.source_location {
                    Some(SourceLocation { column: Some(column), .. }) => Some(
                        column_number(*column),
                    ),
                    _ => None,
                },
            };
            assert(scope@ == rules::scope_of(frame@, reference));
            out.push(scope);
            assert(out.deep_view() =~= seq![rules::scope_of(frame@, reference)]);
        },
        None => {
            assert(out.deep_view() =~= Seq::empty());
        },
    }
    out
}

pub(crate) fn variables_of(frames: &Vec<Frame>, reference: i64) -> (r: Vec<Variable>)
    ensures
        r.deep_view() == rules::variables_of(frames.deep_view(), reference),
{
    let mut out: Vec<Variable> = Vec::new();
    match frame_at(frames, reference) {
        Some(frame) => {
            let mut i: usize = 0;
            while i < frame.variables.len()
                invariant
                    i <= frame.variables.len(),
                    out.len() == i,
                    forall|j: int|
                        0 <= j < i ==> (#[trigger] out[j])@ == rules::reported_variable(
                            frame.variables[j]@,
                        ),
                decreases frame.variables.len() - i,
            {
                out.push(
                    Variable {
                        name: frame.variables[i].name.clone(),
                        value: frame.variables[i].value.clone(),
                        variables_reference: -1,
                    },
                );
                i += 1;
            }
            assert(out.deep_view() =~= rules::variables_of(frames.deep_view(), reference));
        },
        None => {
            assert(out.deep_view() =~= Seq::empty());
        },
    }
    out
}

pub(crate) fn no_frames() -> (r: Vec<Frame>)
    ensures
        r.deep_view() == Seq::<FrameView>::empty(),
{
    let r: Vec<Frame> = Vec::new();
    assert(r.deep_view() =~= Seq::<FrameView>::empty());
    r
}

} // verus!
