//! What the session asks of the probe and of the debug information, and
//! what it is told in return. The session decides; whoever drives it
//! performs each action and hands back the reply.

use vstd::prelude::*;

verus! {

/// The column of a place in a source file.
#[derive(Clone, Copy, Debug, PartialEq, Eq, Structural)]
pub enum ColumnType {
    LeftEdge,
    Column(u64),
}

/// A place in a source file, as the debug information gives it.
#[derive(Clone, Debug, PartialEq, Eq)]
pub struct SourceLocation {
    pub line: Option<u64>,
    pub column: Option<ColumnType>,
    pub file: Option<String>,
    pub directory: Option<String>,
}

/// `SourceLocation` as the contracts speak of it.
#[verifier::ext_equal]
pub struct SourceLocationView {
    pub line: Option<u64>,
    pub column: Option<ColumnType>,
    pub file: Option<Seq<char>>,
    pub directory: Option<Seq<char>>,
}

impl DeepView for SourceLocation {
    type V = SourceLocationView;

    open spec fn deep_view(&self) -> SourceLocationView {
        SourceLocationView {
            line: self.line,
            column: self.column,
            file: self.file.deep_view(),
            directory: self.directory.deep_view(),
        }
    }
}

impl View for SourceLocation {
    type V = SourceLocationView;

    open spec fn view(&self) -> SourceLocationView {
        self.deep_view()
    }
}

/// A variable of a frame, with its value as text.
#[derive(Clone, Debug, PartialEq, Eq)]
pub struct FrameVariable {
    pub name: String,
    pub value: String,
}

/// `FrameVariable` as the contracts speak of it.
#[verifier::ext_equal]
pub struct FrameVariableView {
    pub name: Seq<char>,
    pub value: Seq<char>,
}

impl DeepView for FrameVariable {
    type V = FrameVariableView;

    open spec fn deep_view(&self) -> FrameVariableView {
        FrameVariableView { name: self.name@, value: self.value@ }
    }
}

impl View for FrameVariable {
    type V = FrameVariableView;

    open spec fn view(&self) -> FrameVariableView {
        self.deep_view()
    }
}

/// A frame of the call stack, as unwinding gives it. A frame has no
/// number of its own: it is known by its place in the stack that holds it.
#[derive(Clone, Debug, PartialEq, Eq)]
pub struct Frame {
    pub function_name: String,
    pub source_location: Option<SourceLocation>,
    pub variables: Vec<FrameVariable>,
}

/// `Frame` as the contracts speak of it.
#[verifier::ext_equal]
pub struct FrameView {
    pub function_name: Seq<char>,
    pub source_location: Option<SourceLocationView>,
    pub variables: Seq<FrameVariableView>,
}

impl DeepView for Frame {
    type V = FrameView;

    open spec fn deep_view(&self) -> FrameView {
        FrameView {
            function_name: self.function_name@,
            source_location: self.source_location.deep_view(),
            variables: self.variables.deep_view(),
        }
    }
}

impl View for Frame {
    type V = FrameView;

    open spec fn view(&self) -> FrameView {
        self.deep_view()
    }
}

/// A place in a source file for which an address is sought.
#[derive(Clone, Debug, PartialEq, Eq)]
pub struct Location {
    pub source: String,
    pub line: i64,
    pub column: Option<i64>,
}

/// `Location` as the contracts speak of it.
#[verifier::ext_equal]
pub struct LocationView {
    pub source: Seq<char>,
    pub line: i64,
    pub column: Option<i64>,
}

impl DeepView for Location {
    type V = LocationView;

    open spec fn deep_view(&self) -> LocationView {
        LocationView { source: self.source@, line: self.line, column: self.column }
    }
}

impl View for Location {
    type V = LocationView;

    open spec fn view(&self) -> LocationView {
        self.deep_view()
    }
}

/// Something for the probe or the debug information to do.
#[derive(Clone, Debug, PartialEq, Eq)]
pub enum ProbeAction {
    /// Load the debug information of `program`, then open a probe and
    /// attach to the chip `chip`. The reply is `Attached`.
    Attach { program: String, chip: String },
    /// Look up the address of each place. The reply is `Resolved`, with
    /// one entry for each place, in the same order.
    Resolve { locations: Vec<Location> },
    /// Set a hardware breakpoint at each address, up to the first that
    /// fails. The reply is `Done` or `Failed`.
    Arm { addresses: Vec<u64> },
    /// Reset the target and halt it. The reply is `Done` or `Failed`.
    ResetAndHalt,
    /// Let the target run. The reply is `Done` or `Failed`.
    Run,
    /// Halt the target. The reply is `Done` or `Failed`.
    Halt,
    /// Let the target make one step. The reply is `Done` or `Failed`.
    Step,
    /// Read the program counter. The reply is `ProgramCounter` or
    /// `Failed`.
    ReadProgramCounter,
    /// Unwind the stack from `pc`. The reply is `Frames` or `Failed`.
    Unwind { pc: u64 },
    /// Read the text of the file at `path`. The reply is `Content` or
    /// `Failed`.
    ReadSource { path: String },
}

/// `ProbeAction` as the contracts speak of it.
#[verifier::ext_equal]
pub enum ProbeActionView {
    Attach { program: Seq<char>, chip: Seq<char> },
    Resolve { locations: Seq<LocationView> },
    Arm { addresses: Seq<u64> },
    ResetAndHalt,
    Run,
    Halt,
    Step,
    ReadProgramCounter,
    Unwind { pc: u64 },
    ReadSource { path: Seq<char> },
}

impl DeepView for ProbeAction {
    type V = ProbeActionView;

    open spec fn deep_view(&self) -> ProbeActionView {
        match self {
            ProbeAction::Attach { program, chip } => ProbeActionView::Attach {
                program: program@,
                chip: chip@,
            },
            ProbeAction::Resolve { locations } => ProbeActionView::Resolve {
                locations: locations.deep_view(),
            },
            ProbeAction::Arm { addresses } => ProbeActionView::Arm { addresses: addresses@ },
            ProbeAction::ResetAndHalt => ProbeActionView::ResetAndHalt,
            ProbeAction::Run => ProbeActionView::Run,
            ProbeAction::Halt => ProbeActionView::Halt,
            ProbeAction::Step => ProbeActionView::Step,
            ProbeAction::ReadProgramCounter => ProbeActionView::ReadProgramCounter,
            ProbeAction::Unwind { pc } => ProbeActionView::Unwind { pc: *pc },
            ProbeAction::ReadSource { path } => ProbeActionView::ReadSource { path: path@ },
        }
    }
}

impl View for ProbeAction {
    type V = ProbeActionView;

    open spec fn view(&self) -> ProbeActionView {
        self.deep_view()
    }
}

/// What became of an action.
#[derive(Clone, Debug, PartialEq, Eq)]
pub enum ProbeReply {
    /// The action was performed and has nothing to tell.
    Done,
    /// The action failed. Holds the words of the failure.
    Failed(String),
    /// The end of an attempt to attach: whether the debug information was
    /// loaded, and the words of the failure where no session was opened.
    Attached { debug_info: bool, error: Option<String> },
    /// The address of each place that was asked for, where it has one.
    Resolved { addresses: Vec<Option<u64>> },
    ProgramCounter(u64),
    /// The stack, the innermost frame first.
    Frames(Vec<Frame>),
    /// The text of a file.
    Content(String),
}

/// `ProbeReply` as the contracts speak of it.
#[verifier::ext_equal]
pub enum ProbeReplyView {
    Done,
    Failed(Seq<char>),
    Attached { debug_info: bool, error: Option<Seq<char>> },
    Resolved { addresses: Seq<Option<u64>> },
    ProgramCounter(u64),
    Frames(Seq<FrameView>),
    Content(Seq<char>),
}

impl DeepView for ProbeReply {
    type V = ProbeReplyView;

    open spec fn deep_view(&self) -> ProbeReplyView {
        match self {
            ProbeReply::Done => ProbeReplyView::Done,
            ProbeReply::Failed(why) => ProbeReplyView::Failed(why@),
            ProbeReply::Attached { debug_info, error } => ProbeReplyView::Attached {
                debug_info: *debug_info,
                error: error.deep_view(),
            },
            ProbeReply::Resolved { addresses } => ProbeReplyView::Resolved {
                addresses: addresses@,
            },
            ProbeReply::ProgramCounter(pc) => ProbeReplyView::ProgramCounter(*pc),
            ProbeReply::Frames(frames) => ProbeReplyView::Frames(frames.deep_view()),
            ProbeReply::Content(text) => ProbeReplyView::Content(text@),
        }
    }
}

impl View for ProbeReply {
    type V = ProbeReplyView;

    open spec fn view(&self) -> ProbeReplyView {
        self.deep_view()
    }
}

} // verus!
