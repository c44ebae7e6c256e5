//! The message model: requests, responses and the values they carry.
//!
//! Each type that holds text has a view in which text is a sequence of
//! characters and a list is a sequence; the contracts of the crate speak of
//! those views.

use vstd::prelude::*;

verus! {

/// What an adapter announces that it supports.
#[derive(Clone, Copy, Debug, PartialEq, Eq, Structural)]
pub struct Capabilities {
    pub supports_configuration_done_request: Option<bool>,
}

/// A breakpoint as the client asks for it: a place in a source file.
#[derive(Clone, Copy, Debug, PartialEq, Eq, Structural)]
pub struct SourceBreakpoint {
    pub line: i64,
    pub column: Option<i64>,
}

/// A breakpoint as the adapter reports it.
#[derive(Clone, Copy, Debug, PartialEq, Eq, Structural)]
pub struct Breakpoint {
    pub id: Option<i64>,
    pub verified: bool,
    pub line: Option<i64>,
    pub column: Option<i64>,
}

/// A thread of the target.
#[derive(Clone, Debug, PartialEq, Eq)]
pub struct Thread {
    pub id: i64,
    pub name: String,
}

/// `Thread` as the contracts speak of it.
#[verifier::ext_equal]
pub struct ThreadView {
    pub id: i64,
    pub name: Seq<char>,
}

impl DeepView for Thread {
    type V = ThreadView;

    open spec fn deep_view(&self) -> ThreadView {
        ThreadView { id: self.id, name: self.name@ }
    }
}

impl View for Thread {
    type V = ThreadView;

    open spec fn view(&self) -> ThreadView {
        self.deep_view()
    }
}

/// A source file.
#[derive(Clone, Debug, PartialEq, Eq)]
pub struct Source {
    pub name: Option<String>,
    pub path: Option<String>,
}

/// `Source` as the contracts speak of it.
#[verifier::ext_equal]
pub struct SourceView {
    pub name: Option<Seq<char>>,
    pub path: Option<Seq<char>>,
}

impl DeepView for Source {
    type V = SourceView;

    open spec fn deep_view(&self) -> SourceView {
        SourceView { name: self.name.deep_view(), path: self.path.deep_view() }
    }
}

impl View for Source {
    type V = SourceView;

    open spec fn view(&self) -> SourceView {
        self.deep_view()
    }
}

/// A frame of the call stack as the adapter reports it.
#[derive(Clone, Debug, PartialEq, Eq)]
pub struct StackFrame {
    pub id: i64,
    pub name: String,
    pub source: Option<Source>,
    pub line: i64,
    pub column: i64,
    pub presentation_hint: Option<String>,
}

/// `StackFrame` as the contracts speak of it.
#[verifier::ext_equal]
pub struct StackFrameView {
    pub id: i64,
    pub name: Seq<char>,
    pub source: Option<SourceView>,
    pub line: i64,
    pub column: i64,
    pub presentation_hint: Option<Seq<char>>,
}

impl DeepView for StackFrame {
    type V = StackFrameView;

    open spec fn deep_view(&self) -> StackFrameView {
        StackFrameView {
            id: self.id,
            name: self.name@,
            source: self.source.deep_view(),
            line: self.line,
            column: self.column,
            presentation_hint: self.presentation_hint.deep_view(),
        }
    }
}

impl View for StackFrame {
    type V = StackFrameView;

    open spec fn view(&self) -> StackFrameView {
        self.deep_view()
    }
}

/// A scope of a stack frame: a named group of variables.
#[derive(Clone, Debug, PartialEq, Eq)]
pub struct Scope {
    pub name: String,
    pub variables_reference: i64,
    pub expensive: bool,
    pub source: Option<Source>,
    pub line: Option<i64>,
    pub column: Option<i64>,
}

/// `Scope` as the contracts speak of it.
#[verifier::ext_equal]
pub struct ScopeView {
    pub name: Seq<char>,
    pub variables_reference: i64,
    pub expensive: bool,
    pub source: Option<SourceView>,
    pub line: Option<i64>,
    pub column: Option<i64>,
}

impl DeepView for Scope {
    type V = ScopeView;

    open spec fn deep_view(&self) -> ScopeView {
        ScopeView {
            name: self.name@,
            variables_reference: self.variables_reference,
            expensive: self.expensive,
            source: self.source.deep_view(),
            line: self.line,
            column: self.column,
        }
    }
}

impl View for Scope {
    type V = ScopeView;

    open spec fn view(&self) -> ScopeView {
        self.deep_view()
    }
}

/// A variable as the adapter reports it.
#[derive(Clone, Debug, PartialEq, Eq)]
pub struct Variable {
    pub name: String,
    pub value: String,
    pub variables_reference: i64,
}

/// `Variable` as the contracts speak of it.
#[verifier::ext_equal]
pub struct VariableView {
    pub name: Seq<char>,
    pub value: Seq<char>,
    pub variables_reference: i64,
}

impl DeepView for Variable {
    type V = VariableView;

    open spec fn deep_view(&self) -> VariableView {
        VariableView {
            name: self.name@,
            value: self.value@,
            variables_reference: self.variables_reference,
        }
    }
}

impl View for Variable {
    type V = VariableView;

    open spec fn view(&self) -> VariableView {
        self.deep_view()
    }
}

/// What a successful response carries, by the command it answers.
#[derive(Clone, Debug, PartialEq, Eq)]
pub enum ResponseBody {
    Capabilities(Capabilities),
    SetBreakpoints { breakpoints: Vec<Breakpoint> },
    Threads { threads: Vec<Thread> },
    StackTrace { stack_frames: Vec<StackFrame>, total_frames: Option<i64> },
    Scopes { scopes: Vec<Scope> },
    Source { content: String },
    Variables { variables: Vec<Variable> },
    Continue { all_threads_continued: Option<bool> },
}

/// `ResponseBody` as the contracts speak of it.
#[verifier::ext_equal]
pub enum ResponseBodyView {
    Capabilities(Capabilities),
    SetBreakpoints { breakpoints: Seq<Breakpoint> },
    Threads { threads: Seq<ThreadView> },
    StackTrace { stack_frames: Seq<StackFrameView>, total_frames: Option<i64> },
    Scopes { scopes: Seq<ScopeView> },
    Source { content: Seq<char> },
    Variables { variables: Seq<VariableView> },
    Continue { all_threads_continued: Option<bool> },
}

impl DeepView for ResponseBody {
    type V = ResponseBodyView;

    open spec fn deep_view(&self) -> ResponseBodyView {
        match self {
            ResponseBody::Capabilities(c) => ResponseBodyView::Capabilities(*c),
            ResponseBody::SetBreakpoints { breakpoints } => ResponseBodyView::SetBreakpoints {
                breakpoints: breakpoints@,
            },
            ResponseBody::Threads { threads } => ResponseBodyView::Threads {
                threads: threads.deep_view(),
            },
            ResponseBody::StackTrace {
                stack_frames,
                total_frames,
            } => ResponseBodyView::StackTrace {
                stack_frames: stack_frames.deep_view(),
                total_frames: *total_frames,
            },
            ResponseBody::Scopes { scopes } => ResponseBodyView::Scopes {
                scopes: scopes.deep_view(),
            },
            ResponseBody::Source { content } => ResponseBodyView::Source { content: content@ },
            ResponseBody::Variables { variables } => ResponseBodyView::Variables {
                variables: variables.deep_view(),
            },
            ResponseBody::Continue { all_threads_continued } => ResponseBodyView::Continue {
                all_threads_continued: *all_threads_continued,
            },
        }
    }
}

impl View for ResponseBody {
    type V = ResponseBodyView;

    open spec fn view(&self) -> ResponseBodyView {
        self.deep_view()
    }
}

/// The answer to one request.
#[derive(Clone, Debug, PartialEq, Eq)]
pub struct Response {
    /// The sequence number of this message.
    pub seq: i64,
    /// The sequence number of the request that this message answers.
    pub request_seq: i64,
    /// The command of that request.
    pub command: String,
    pub success: bool,
    /// Why the request failed.
    pub message: Option<String>,
    pub body: Option<ResponseBody>,
}

/// `Response` as the contracts speak of it.
#[verifier::ext_equal]
pub struct ResponseView {
    pub seq: i64,
    pub request_seq: i64,
    pub command: Seq<char>,
    pub success: bool,
    pub message: Option<Seq<char>>,
    pub body: Option<ResponseBodyView>,
}

impl ResponseView {
    /// A failure says why, and carries nothing else.
    pub open spec fn well_formed(self) -> bool {
        !self.success ==> self.message is Some && self.body is None
    }
}

impl DeepView for Response {
    type V = ResponseView;

    open spec fn deep_view(&self) -> ResponseView {
        ResponseView {
            seq: self.seq,
            request_seq: self.request_seq,
            command: self.command@,
            success: self.success,
            message: self.message.deep_view(),
            body: self.body.deep_view(),
        }
    }
}

impl View for Response {
    type V = ResponseView;

    open spec fn view(&self) -> ResponseView {
        self.deep_view()
    }
}

/// The arguments of an `attach` request.
#[derive(Clone, Debug, PartialEq, Eq)]
pub struct AttachRequestArguments {
    /// The path of the program that runs on the target.
    pub program: String,
    /// The name of the target chip.
    pub chip: String,
    /// The directory against which relative paths are resolved.
    pub cwd: Option<String>,
    /// Whether the target is reset once the configuration is done.
    pub reset: Option<bool>,
    /// Whether the target stays halted after that reset.
    pub halt_after_reset: Option<bool>,
}

/// `AttachRequestArguments` as the contracts speak of it.
#[verifier::ext_equal]
pub struct AttachRequestArgumentsView {
    pub program: Seq<char>,
    pub chip: Seq<char>,
    pub cwd: Option<Seq<char>>,
    pub reset: Option<bool>,
    pub halt_after_reset: Option<bool>,
}

impl DeepView for AttachRequestArguments {
    type V = AttachRequestArgumentsView;

    open spec fn deep_view(&self) -> AttachRequestArgumentsView {
        AttachRequestArgumentsView {
            program: self.program@,
            chip: self.chip@,
            cwd: self.cwd.deep_view(),
            reset: self.reset,
            halt_after_reset: self.halt_after_reset,
        }
    }
}

impl View for AttachRequestArguments {
    type V = AttachRequestArgumentsView;

    open spec fn view(&self) -> AttachRequestArgumentsView {
        self.deep_view()
    }
}

/// The arguments of a `setBreakpoints` request.
#[derive(Clone, Debug, PartialEq, Eq)]
pub struct SetBreakpointsArguments {
    /// The path of the source file whose breakpoints are replaced.
    pub source_path: Option<String>,
    /// The breakpoints that the file has from now on.
    pub breakpoints: Option<Vec<SourceBreakpoint>>,
}

/// `SetBreakpointsArguments` as the contracts speak of it.
#[verifier::ext_equal]
pub struct SetBreakpointsArgumentsView {
    pub source_path: Option<Seq<char>>,
    pub breakpoints: Option<Seq<SourceBreakpoint>>,
}

impl DeepView for SetBreakpointsArguments {
    type V = SetBreakpointsArgumentsView;

    open spec fn deep_view(&self) -> SetBreakpointsArgumentsView {
        SetBreakpointsArgumentsView {
            source_path: self.source_path.deep_view(),
            breakpoints: match self.breakpoints {
                Some(list) => Some(list@),
                None => None,
            },
        }
    }
}

impl View for SetBreakpointsArguments {
    type V = SetBreakpointsArgumentsView;

    open spec fn view(&self) -> SetBreakpointsArgumentsView {
        self.deep_view()
    }
}

/// The arguments of a request, decoded for the command that it names.
#[derive(Clone, Debug, PartialEq, Eq)]
pub enum Arguments {
    /// The request carries no arguments.
    Missing,
    /// The request carries arguments that do not have the shape that its
    /// command asks for. The text says what is wrong with them.
    Malformed(String),
    Initialize { client_name: Option<String> },
    Attach(AttachRequestArguments),
    SetBreakpoints(SetBreakpointsArguments),
    Scopes { frame_id: i64 },
    Variables { variables_reference: i64 },
    Source { path: Option<String> },
    /// Well-formed arguments of a command that reads none of them.
    Other,
}

/// `Arguments` as the contracts speak of it.
#[verifier::ext_equal]
pub enum ArgumentsView {
    Missing,
    Malformed(Seq<char>),
    Initialize { client_name: Option<Seq<char>> },
    Attach(AttachRequestArgumentsView),
    SetBreakpoints(SetBreakpointsArgumentsView),
    Scopes { frame_id: i64 },
    Variables { variables_reference: i64 },
    Source { path: Option<Seq<char>> },
    Other,
}

impl DeepView for Arguments {
    type V = ArgumentsView;

    open spec fn deep_view(&self) -> ArgumentsView {
        match self {
            Arguments::Missing => ArgumentsView::Missing,
            Arguments::Malformed(why) => ArgumentsView::Malformed(why@),
            Arguments::Initialize { client_name } => ArgumentsView::Initialize {
                client_name: client_name.deep_view(),
            },
            Arguments::Attach(a) => ArgumentsView::Attach(a.deep_view()),
            Arguments::SetBreakpoints(a) => ArgumentsView::SetBreakpoints(a.deep_view()),
            Arguments::Scopes { frame_id } => ArgumentsView::Scopes { frame_id: *frame_id },
            Arguments::Variables { variables_reference } => ArgumentsView::Variables {
                variables_reference: *variables_reference,
            },
            Arguments::Source { path } => ArgumentsView::Source { path: path.deep_view() },
            Arguments::Other => ArgumentsView::Other,
        }
    }
}

impl View for Arguments {
    type V = ArgumentsView;

    open spec fn view(&self) -> ArgumentsView {
        self.deep_view()
    }
}

/// A request of the client.
#[derive(Clone, Debug, PartialEq, Eq)]
pub struct Request {
    /// The sequence number that the client gave the request.
    pub seq: i64,
    /// The name of the command.
    pub command: String,
    pub arguments: Arguments,
}

/// `Request` as the contracts speak of it.
#[verifier::ext_equal]
pub struct RequestView {
    pub seq: i64,
    pub command: Seq<char>,
    pub arguments: ArgumentsView,
}

impl DeepView for Request {
    type V = RequestView;

    open spec fn deep_view(&self) -> RequestView {
        RequestView {
            seq: self.seq,
            command: self.command@,
            arguments: self.arguments.deep_view(),
        }
    }
}

impl View for Request {
    type V = RequestView;

    open spec fn view(&self) -> RequestView {
        self.deep_view()
    }
}

impl AttachRequestArguments {
    pub(crate) fn duplicate(&self) -> (r: AttachRequestArguments)
        ensures
            r@ == self@,
    {
        AttachRequestArguments {
            program: self.program.clone(),
            chip: self.chip.clone(),
            cwd: crate::text::copy_text(&self.cwd),
            reset: self.reset,
            halt_after_reset: self.halt_after_reset,
        }
    }
}

} // verus!
