//! The parts of messages of the debug adapter protocol.

use crate::json::Json;
use vstd::prelude::*;

verus! {

/// What a client tells of itself first.
#[derive(Debug)]
pub struct InitializeRequestArguments {
    pub adapter_id: String,
    pub client_id: Option<String>,
    pub client_name: Option<String>,
    pub columns_start_at_1: Option<bool>,
    pub lines_start_at_1: Option<bool>,
    pub locale: Option<String>,
    pub path_format: Option<String>,
    pub supports_invalidated_event: Option<bool>,
    pub supports_memory_event: Option<bool>,
    pub supports_memory_references: Option<bool>,
    pub supports_progress_reporting: Option<bool>,
    pub supports_run_in_terminal_request: Option<bool>,
    pub supports_variable_type: Option<bool>,
    pub supports_variable_paging: Option<bool>,
    pub supports_args_can_be_interpreted_by_shell: Option<bool>,
    pub supports_start_debugging_request: Option<bool>,
}

/// Whether there is a text, and it is `s`.
pub open spec fn is_text(t: Option<String>, s: Seq<char>) -> bool {
    t matches Some(x) && x@ == s
}

impl InitializeRequestArguments {
    /// Whether this is what this client tells of itself to that adapter.
    pub open spec fn introduces(self, adapter_id: Seq<char>) -> bool {
        &&& self.adapter_id@ == adapter_id
        &&& is_text(self.client_id, "nvim_vadre"@)
        &&& is_text(self.client_name, "nvim_vadre"@)
        &&& self.columns_start_at_1 == Some(true)
        &&& self.lines_start_at_1 == Some(true)
        &&& is_text(self.locale, "en_GB"@)
        &&& is_text(self.path_format, "path"@)
        &&& self.supports_invalidated_event is None
        &&& self.supports_memory_event is None
        &&& self.supports_memory_references == Some(true)
        &&& self.supports_progress_reporting is None
        &&& self.supports_run_in_terminal_request == Some(true)
        &&& self.supports_variable_type == Some(true)
        &&& self.supports_variable_paging == Some(false)
        &&& self.supports_args_can_be_interpreted_by_shell == Some(false)
        &&& self.supports_start_debugging_request == Some(false)
    }

    /// What this client tells of itself to the adapter `adapter_id`.
    pub fn new(adapter_id: String) -> (r: Self)
        ensures
            r.adapter_id == adapter_id,
            r.introduces(adapter_id@),
    {
        InitializeRequestArguments {
            adapter_id,
            client_id: Some("nvim_vadre".to_string()),
            client_name: Some("nvim_vadre".to_string()),
            columns_start_at_1: Some(true),
            lines_start_at_1: Some(true),
            locale: Some("en_GB".to_string()),
            path_format: Some("path".to_string()),
            supports_invalidated_event: None,
            supports_memory_event: None,
            supports_memory_references: Some(true),
            supports_progress_reporting: None,
            supports_run_in_terminal_request: Some(true),
            supports_variable_type: Some(true),
            supports_variable_paging: Some(false),
            supports_args_can_be_interpreted_by_shell: Some(false),
            supports_start_debugging_request: Some(false),
        }
    }
}

/// What every launch request has in common.
#[derive(Debug)]
pub struct LaunchRequestArguments {
    pub no_debug: Option<bool>,
    pub restart: Option<Json>,
}

/// The checksum of a source.
#[derive(Debug)]
pub struct Checksum {
    pub algorithm: String,
    pub checksum: String,
}

/// A source, by its path or by a reference that the adapter gave out.
#[derive(Debug)]
pub struct Source {
    pub adapter_data: Option<Json>,
    pub checksums: Option<Vec<Checksum>>,
    pub name: Option<String>,
    pub origin: Option<String>,
    pub path: Option<String>,
    pub presentation_hint: Option<String>,
    pub source_reference: Option<i64>,
    pub sources: Option<Vec<Source>>,
}

impl Source {
    /// Whether this is the source in a file, and nothing more is told of it.
    pub open spec fn names_file(self, name: Seq<char>, path: Seq<char>) -> bool {
        &&& self.adapter_data is None
        &&& self.checksums is None
        &&& is_text(self.name, name)
        &&& self.origin is None
        &&& is_text(self.path, path)
        &&& self.presentation_hint is None
        &&& self.source_reference is None
        &&& self.sources is None
    }

    /// The source in a file.
    pub fn new_file(file_name: String, file_path: String) -> (r: Self)
        ensures
            r.names_file(file_name@, file_path@),
            r.name == Some(file_name),
            r.path == Some(file_path),
    {
        Source {
            adapter_data: None,
            checksums: None,
            name: Some(file_name),
            origin: None,
            path: Some(file_path),
            presentation_hint: None,
            source_reference: None,
            sources: None,
        }
    }
}

/// A breakpoint as it is asked for.
#[derive(Debug)]
pub struct SourceBreakpoint {
    pub column: Option<i64>,
    pub condition: Option<String>,
    pub hit_condition: Option<String>,
    pub line: i64,
    pub log_message: Option<String>,
}

impl SourceBreakpoint {
    /// An unconditional breakpoint on a line.
    pub fn new(line: i64) -> (r: Self)
        ensures
            r == plain_breakpoint(line),
    {
        SourceBreakpoint { column: None, condition: None, hit_condition: None, line, log_message: None }
    }
}

/// An unconditional breakpoint on a line.
pub open spec fn plain_breakpoint(line: i64) -> SourceBreakpoint {
    SourceBreakpoint { column: None, condition: None, hit_condition: None, line, log_message: None }
}

/// All the breakpoints of a source.
#[derive(Debug)]
pub struct SetBreakpointsArguments {
    pub breakpoints: Option<Vec<SourceBreakpoint>>,
    pub lines: Option<Vec<i64>>,
    pub source: Source,
    pub source_modified: Option<bool>,
}

/// A breakpoint on a function.
#[derive(Debug)]
pub struct FunctionBreakpoint {
    pub condition: Option<String>,
    pub hit_condition: Option<String>,
    pub name: String,
}

/// All the breakpoints on functions.
#[derive(Debug)]
pub struct SetFunctionBreakpointsArguments {
    pub breakpoints: Vec<FunctionBreakpoint>,
}

/// The exceptions to stop at.
#[derive(Debug)]
pub struct SetExceptionBreakpointsArguments {
    pub exception_options: Option<Vec<Json>>,
    pub filter_options: Option<Vec<Json>>,
    pub filters: Vec<String>,
}

/// The thread to pause.
#[derive(Debug)]
pub struct PauseArguments {
    pub thread_id: i64,
}

/// The thread to let run.
#[derive(Debug)]
pub struct ContinueArguments {
    pub single_thread: Option<bool>,
    pub thread_id: i64,
}

/// The thread to step over a line.
#[derive(Debug)]
pub struct NextArguments {
    pub granularity: Option<String>,
    pub single_thread: Option<bool>,
    pub thread_id: i64,
}

/// The thread to step into a call.
#[derive(Debug)]
pub struct StepInArguments {
    pub granularity: Option<String>,
    pub single_thread: Option<bool>,
    pub target_id: Option<i64>,
    pub thread_id: i64,
}

/// The thread whose frames are asked for.
#[derive(Debug)]
pub struct StackTraceArguments {
    pub format: Option<Json>,
    pub levels: Option<i64>,
    pub start_frame: Option<i64>,
    pub thread_id: i64,
}

/// The frame whose scopes are asked for.
#[derive(Debug)]
pub struct ScopesArguments {
    pub frame_id: i64,
}

/// The source that is asked for.
#[derive(Debug)]
pub struct SourceArguments {
    pub source: Option<Source>,
    pub source_reference: i64,
}

/// The variables that are asked for.
#[derive(Debug)]
pub struct VariablesArguments {
    pub count: Option<i64>,
    pub filter: Option<String>,
    pub format: Option<Json>,
    pub start: Option<i64>,
    pub variables_reference: i64,
}

/// How to end a session.
#[derive(Debug)]
pub struct DisconnectArguments {
    pub restart: Option<bool>,
    pub suspend_debuggee: Option<bool>,
    pub terminate_debuggee: Option<bool>,
}

/// A command that the adapter wants to be run in a terminal.
#[derive(Debug)]
pub struct RunInTerminalRequestArguments {
    pub args: Vec<String>,
    pub args_can_be_interpreted_by_shell: Option<bool>,
    pub cwd: String,
    pub env: Option<Json>,
    pub kind: Option<String>,
    pub title: Option<String>,
}

/// What an adapter can do.
#[derive(Debug)]
pub struct Capabilities {
    pub values: Json,
}

/// A breakpoint as the adapter reports it.
#[derive(Debug)]
pub struct Breakpoint {
    pub column: Option<i64>,
    pub end_column: Option<i64>,
    pub end_line: Option<i64>,
    pub id: Option<i64>,
    pub instruction_reference: Option<String>,
    pub line: Option<i64>,
    pub message: Option<String>,
    pub offset: Option<i64>,
    pub source: Option<Source>,
    pub verified: bool,
}

/// The breakpoints of a source, in the order in which they were asked for.
#[derive(Debug)]
pub struct SetBreakpointsResponseBody {
    pub breakpoints: Vec<Breakpoint>,
}

/// What was let run.
#[derive(Debug)]
pub struct ContinueResponseBody {
    pub all_threads_continued: Option<bool>,
}

/// A thread.
#[derive(Debug)]
pub struct Thread {
    pub id: i64,
    pub name: String,
}

/// All the threads.
#[derive(Debug)]
pub struct ThreadsResponseBody {
    pub threads: Vec<Thread>,
}

/// A frame on the stack of a thread. `source_text` is how the source is shown
/// when it has neither a name nor a path.
#[derive(Debug)]
pub struct StackFrame {
    pub can_restart: Option<bool>,
    pub column: i64,
    pub end_column: Option<i64>,
    pub end_line: Option<i64>,
    pub id: i64,
    pub instruction_pointer_reference: Option<String>,
    pub line: i64,
    pub module_id: Option<Json>,
    pub name: String,
    pub presentation_hint: Option<String>,
    pub source: Option<Source>,
    pub source_text: String,
}

/// The frames of a thread, the top one first.
#[derive(Debug)]
pub struct StackTraceResponseBody {
    pub stack_frames: Vec<StackFrame>,
    pub total_frames: Option<i64>,
}

/// A scope of variables in a frame.
#[derive(Debug)]
pub struct Scope {
    pub column: Option<i64>,
    pub end_column: Option<i64>,
    pub end_line: Option<i64>,
    pub expensive: bool,
    pub indexed_variables: Option<i64>,
    pub line: Option<i64>,
    pub name: String,
    pub named_variables: Option<i64>,
    pub presentation_hint: Option<String>,
    pub source: Option<Source>,
    pub variables_reference: i64,
}

/// The scopes of a frame.
#[derive(Debug)]
pub struct ScopesResponseBody {
    pub scopes: Vec<Scope>,
}

/// The content of a source.
#[derive(Debug)]
pub struct SourceResponseBody {
    pub content: String,
    pub mime_type: Option<String>,
}

/// A variable and its value.
#[derive(Debug)]
pub struct Variable {
    pub evaluate_name: Option<String>,
    pub indexed_variables: Option<i64>,
    pub memory_reference: Option<String>,
    pub name: String,
    pub named_variables: Option<i64>,
    pub presentation_hint: Option<Json>,
    pub type_: Option<String>,
    pub value: String,
    pub variables_reference: i64,
}

/// The variables of a scope.
#[derive(Debug)]
pub struct VariablesResponseBody {
    pub variables: Vec<Variable>,
}

/// The process that was started in a terminal.
#[derive(Debug)]
pub struct RunInTerminalResponseBody {
    pub process_id: Option<i64>,
    pub shell_process_id: Option<i64>,
}

/// Something was written.
#[derive(Debug)]
pub struct OutputEventBody {
    pub category: Option<String>,
    pub column: Option<i64>,
    pub data: Option<Json>,
    pub group: Option<String>,
    pub line: Option<i64>,
    pub output: String,
    pub source: Option<Source>,
    pub variables_reference: Option<i64>,
}

/// A breakpoint changed.
#[derive(Debug)]
pub struct BreakpointEventBody {
    pub breakpoint: Breakpoint,
    pub reason: String,
}

/// The adapter can do something else.
#[derive(Debug)]
pub struct CapabilitiesEventBody {
    pub capabilities: Capabilities,
}

/// A thread runs again.
#[derive(Debug)]
pub struct ContinuedEventBody {
    pub all_threads_continued: Option<bool>,
    pub thread_id: i64,
}

/// The program ended.
#[derive(Debug)]
pub struct ExitedEventBody {
    pub exit_code: i64,
}

/// A module was loaded or changed.
#[derive(Debug)]
pub struct ModuleEventBody {
    pub module: Json,
    pub reason: String,
}

/// Debugging ended.
#[derive(Debug)]
pub struct TerminatedEventBody {
    pub restart: Option<Json>,
}

/// A thread started or ended.
#[derive(Debug)]
pub struct ThreadEventBody {
    pub reason: String,
    pub thread_id: i64,
}

/// What was shown is out of date.
#[derive(Debug)]
pub struct InvalidatedEventBody {
    pub areas: Option<Vec<String>>,
    pub stack_frame_id: Option<i64>,
    pub thread_id: Option<i64>,
}

/// The program stopped.
#[derive(Debug)]
pub struct StoppedEventBody {
    pub all_threads_stopped: Option<bool>,
    pub description: Option<String>,
    pub hit_breakpoint_ids: Option<Vec<i64>>,
    pub preserve_focus_hint: Option<bool>,
    pub reason: String,
    pub text: Option<String>,
    pub thread_id: Option<i64>,
}

/// A process is being debugged.
#[derive(Debug)]
pub struct ProcessEventBody {
    pub is_local_process: Option<bool>,
    pub name: String,
    pub pointer_size: Option<i64>,
    pub start_method: Option<String>,
    pub system_process_id: Option<i64>,
}

} // verus!
