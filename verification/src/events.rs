//! What the requests and the events of an adapter, and its answers about
//! breakpoints, change in a session.

use crate::breakpoints::{
    has_breakpoint, id_is_unknown, increasing, lines_of, lines_view, lines_wf, missing,
    resolved_at, sorted_lines, switched,
    with_breakpoint, with_pending, without_breakpoint, BreakpointError, BreakpointFault,
    BreakpointView, BreakpointsView, DebuggerBreakpoint,
};
use crate::debuggers::{DebuggerType, LocationsError};
use crate::handler::{same_but_breakpoints, DebuggerHandler};
use crate::listing::{ascending, ascending_is};
use crate::neovim::VadreBufferType;
use crate::number::{decimal, decimal_int, signed_text, unsigned_text};
use crate::output::{display_output, output_step, OutputRun};
use crate::path::{file_name, may_be_name};
use crate::protocol::{
    Either, EventBody, ProtocolMessage, ProtocolMessageType, RequestArguments, Response,
    ResponseBody, ResponseResult,
};
use crate::schema::{
    plain_breakpoint, Breakpoint, RunInTerminalResponseBody, SetBreakpointsArguments, Source,
    SourceArguments, SourceBreakpoint, StackTraceArguments,
};
use crate::text::{join, join_texts, texts};
use crate::whitespace::{trim_end, trimmed_end};
use std::collections::BTreeMap;
use vstd::prelude::*;

verus! {

/// What is told when the program is run in a terminal.
pub const SPAWNING_TERMINAL: &'static str = "Spawning terminal to communicate with program";

/// The command that a terminal runs: each argument in double quotes.
pub open spec fn quoted_command(args: Seq<Seq<char>>) -> Seq<char> {
    join(args.map_values(|a: Seq<char>| "\""@ + a + "\""@), " "@)
}

/// The command that a terminal runs.
pub fn terminal_words(args: &Vec<String>) -> (r: String)
    ensures
        r@ == quoted_command(texts(args@)),
{
    let ghost f = |a: Seq<char>| "\""@ + a + "\""@;
    let mut parts: Vec<String> = Vec::new();
    let mut i: usize = 0;
    assert(texts(parts@) =~= texts(args@).take(0).map_values(f));
    while i < args.len()
        invariant
            i <= args@.len(),
            f == (|a: Seq<char>| "\""@ + a + "\""@),
            texts(parts@) == texts(args@).take(i as int).map_values(f),
        decreases args@.len() - i,
    {
        let ghost before = texts(parts@);
        parts.push("\"".to_string().concat(args[i].as_str()).concat("\""));
        assert(texts(parts@) =~= before.push(f(args@[i as int]@)));
        assert(texts(args@).take(i + 1).map_values(f) =~= texts(args@).take(i as int).map_values(
            f,
        ).push(f(args@[i as int]@)));
        i = i + 1;
    }
    assert(texts(args@).take(i as int) =~= texts(args@));
    join_texts(&parts, " ")
}

/// The answer to a request to run something in a terminal: it was done.
pub open spec fn terminal_answer(request_id: u32) -> ProtocolMessage {
    ProtocolMessage {
        seq: Either::First(request_id),
        type_: ProtocolMessageType::Response(
            Response {
                request_seq: Either::First(request_id),
                success: true,
                result: ResponseResult::Success {
                    body: ResponseBody::runInTerminal(
                        RunInTerminalResponseBody { process_id: None, shell_process_id: None },
                    ),
                },
            },
        ),
    }
}

/// What a request of the adapter asks to do: run this command in a terminal, and
/// send that answer.
pub fn handle_request(request_id: u32, args: &RequestArguments) -> (r: (String, ProtocolMessage))
    requires
        args is runInTerminal,
    ensures
        args matches RequestArguments::runInTerminal(a) && r.0@ == quoted_command(texts(a.args@)),
        r.1 == terminal_answer(request_id),
{
    let command = match args {
        RequestArguments::runInTerminal(a) => terminal_words(&a.args),
        _ => String::new(),
    };
    let answer = ProtocolMessage {
        seq: Either::First(request_id),
        type_: ProtocolMessageType::Response(
            Response {
                request_seq: Either::First(request_id),
                success: true,
                result: ResponseResult::Success {
                    body: ResponseBody::runInTerminal(
                        RunInTerminalResponseBody { process_id: None, shell_process_id: None },
                    ),
                },
            },
        ),
    };
    (command, answer)
}

/// What an event of the adapter is about.
#[derive(Debug)]
pub enum EventAction {
    Nothing,
    /// This is to be logged.
    Log(String),
    /// The program stopped in this thread.
    Stopped(Option<i64>),
    /// A breakpoint changed.
    Breakpoint(Breakpoint),
}

/// What an event of the adapter is about. Only three types of events matter.
pub fn handle_event(event: EventBody) -> (r: EventAction)
    ensures
        match event {
            EventBody::output(output) => r matches EventAction::Log(text) && text@ == "Debugger: "@
                + trimmed_end(output.output@),
            EventBody::stopped(stopped) => r == EventAction::Stopped(stopped.thread_id),
            EventBody::breakpoint(changed) => r == EventAction::Breakpoint(changed.breakpoint),
            _ => r == EventAction::Nothing,
        },
{
    match event {
        EventBody::output(output) => {
            let text = trim_end(output.output.as_str());
            EventAction::Log("Debugger: ".to_string().concat(text.as_str()))
        },
        EventBody::stopped(stopped) => EventAction::Stopped(stopped.thread_id),
        EventBody::breakpoint(changed) => EventAction::Breakpoint(changed.breakpoint),
        _ => EventAction::Nothing,
    }
}

/// What to do when the program stopped.
#[derive(Clone, Copy, Debug, PartialEq, Eq, Structural)]
pub enum StoppedAction {
    /// Tell the one who waits to go on.
    GoOn,
    /// Show where the program stopped.
    Show,
}

impl DebuggerHandler {
    /// Notes that the program runs in a terminal. Somebody is to be told if they
    /// wait for it.
    pub fn terminal_spawned(&mut self) -> (r: bool)
        ensures
            r == old(self).terminal_awaited,
            *final(self) == (DebuggerHandler { terminal_awaited: false, ..*old(self) }),
    {
        let r = self.terminal_awaited;
        self.terminal_awaited = false;
        r
    }

    /// Notes that the program stopped: the thread is the current one, and it is
    /// expanded.
    pub fn handle_event_stopped(&mut self, thread_id: Option<i64>) -> (r: StoppedAction)
        requires
            old(self).wf(),
        ensures
            final(self).wf(),
            r == (if old(self).stop_awaited {
                StoppedAction::GoOn
            } else {
                StoppedAction::Show
            }),
            final(self).current_thread_id == thread_id,
            final(self).stack_expanded_threads@ == (match thread_id {
                Some(id) => old(self).stack_expanded_threads@.insert(id),
                None => old(self).stack_expanded_threads@,
            }),
            !final(self).stop_awaited,
            final(self).debugger_type == old(self).debugger_type,
            final(self).current_frame_id == old(self).current_frame_id,
            final(self).breakpoints == old(self).breakpoints,
            final(self).debug_program_string == old(self).debug_program_string,
            final(self).terminal_awaited == old(self).terminal_awaited,
    {
        self.current_thread_id = thread_id;
        if let Some(id) = thread_id {
            self.stack_expanded_threads.insert(id);
        }
        if self.stop_awaited {
            self.stop_awaited = false;
            StoppedAction::GoOn
        } else {
            StoppedAction::Show
        }
    }
}

/// What went wrong with the breakpoints of an answer or an event.
#[derive(Debug)]
pub enum ReportError {
    /// The adapter told of a failure.
    Unsuccessful,
    /// The breakpoint at this position was not asked for.
    TooMany(usize),
    /// The breakpoint at this position has no id.
    NoId(usize),
    /// The breakpoint at this position has no message.
    NoMessage(usize),
    /// The message of the breakpoint at this position does not tell whether it
    /// is enabled.
    Locations(usize, LocationsError),
    /// No breakpoint has this id.
    UnknownId(i64),
    /// The breakpoint is not known.
    Store(BreakpointError),
}

/// What went wrong, by its texts.
#[verifier::ext_equal]
pub enum ReportFault {
    Unsuccessful,
    TooMany(int),
    NoId(int),
    NoMessage(int),
    Locations(int, LocationsError),
    UnknownId(i64),
    Store(BreakpointFault),
}

impl ReportError {
    /// The error as mathematics.
    pub open spec fn view(&self) -> ReportFault {
        match self {
            ReportError::Unsuccessful => ReportFault::Unsuccessful,
            ReportError::TooMany(i) => ReportFault::TooMany(*i as int),
            ReportError::NoId(i) => ReportFault::NoId(*i as int),
            ReportError::NoMessage(i) => ReportFault::NoMessage(*i as int),
            ReportError::Locations(i, e) => ReportFault::Locations(*i as int, *e),
            ReportError::UnknownId(id) => ReportFault::UnknownId(*id),
            ReportError::Store(e) => ReportFault::Store(e.view()),
        }
    }

    /// The words for the error, where it is about what is shown, which an event or an
    /// answer told.
    pub open spec fn words(self, in_event: bool, shown: Seq<char>) -> Seq<char> {
        match self {
            ReportError::Unsuccessful => "Got unsuccessful response: "@ + shown,
            ReportError::TooMany(i) => "Can't get "@ + decimal(i as nat) + "th line number from: "@
                + shown,
            ReportError::NoId(_) => if in_event {
                "Couldn't find ID from event: "@ + shown
            } else {
                "Id wasn't set in breakpoint setting response as expected: "@ + shown
            },
            ReportError::NoMessage(_) => "Can't find breakpoint message: "@ + shown,
            ReportError::Locations(_, LocationsError::NoLocations) =>
                "Couldn't find Resolved locations message in: "@ + shown,
            ReportError::Locations(_, LocationsError::NotANumber(e)) => e.words(),
            ReportError::UnknownId(id) => "Can't find breakpoint for id "@ + decimal_int(id as int),
            ReportError::Store(e) => e.words(),
        }
    }

    /// The error in words. What is shown is the answer, the lines that were asked for,
    /// the breakpoint, the event or the message that the error is about.
    pub fn message(&self, in_event: bool, shown: &str) -> (r: String)
        ensures
            r@ == self.words(in_event, shown@),
    {
        match self {
            ReportError::Unsuccessful => "Got unsuccessful response: ".to_string().concat(shown),
            ReportError::TooMany(i) => {
                let number = unsigned_text(*i as u64);
                "Can't get ".to_string().concat(number.as_str()).concat(
                    "th line number from: ",
                ).concat(shown)
            },
            ReportError::NoId(_) => if in_event {
                "Couldn't find ID from event: ".to_string().concat(shown)
            } else {
                "Id wasn't set in breakpoint setting response as expected: ".to_string().concat(
                    shown,
                )
            },
            ReportError::NoMessage(_) => "Can't find breakpoint message: ".to_string().concat(
                shown,
            ),
            ReportError::Locations(_, e) => e.message(shown),
            ReportError::UnknownId(id) => {
                let number = signed_text(*id);
                "Can't find breakpoint for id ".to_string().concat(number.as_str())
            },
            ReportError::Store(e) => e.message(),
        }
    }
}

/// The breakpoint on a line after the adapter reported on it: where it was put,
/// if that is told, and that it is enabled, if it is.
pub open spec fn reported(b: BreakpointView, report: Breakpoint, enabled: bool) -> BreakpointView {
    let placed = match report.line {
        Some(actual) => resolved_at(b, decimal_int(report.id->0 as int), actual),
        None => b,
    };
    if enabled {
        switched(placed, true)
    } else {
        placed
    }
}

/// Whether a report tells that a breakpoint is enabled, for an adapter.
pub open spec fn report_enabled(
    t: DebuggerType,
    report: Breakpoint,
    at: int,
) -> Result<bool, ReportFault> {
    match report.message {
        None => Err(ReportFault::NoMessage(at)),
        Some(message) => match t.enabled_by(message@) {
            Ok(enabled) => Ok(enabled),
            Err(e) => Err(ReportFault::Locations(at, e)),
        },
    }
}

/// The breakpoints after the reports from `at` on, on the lines of a file that
/// were asked for: each report is about the line at its position. The first
/// thing that is wrong ends it.
pub open spec fn after_reports(
    t: DebuggerType,
    m: BreakpointsView,
    file: Seq<char>,
    lines: Seq<i64>,
    reports: Seq<Breakpoint>,
    at: int,
) -> (BreakpointsView, Option<ReportFault>)
    decreases reports.len() - at,
{
    if at < 0 || at >= reports.len() {
        (m, None)
    } else if at >= lines.len() {
        (m, Some(ReportFault::TooMany(at)))
    } else if reports[at].id is None {
        (m, Some(ReportFault::NoId(at)))
    } else {
        match report_enabled(t, reports[at], at) {
            Err(e) => (m, Some(e)),
            Ok(enabled) => if reports[at].line is None && !enabled {
                after_reports(t, m, file, lines, reports, at + 1)
            } else {
                match missing(m, file, lines[at]) {
                    Some(fault) => (m, Some(ReportFault::Store(fault))),
                    None => after_reports(
                        t,
                        with_breakpoint(
                            m,
                            file,
                            lines[at],
                            reported(m[file][lines[at]], reports[at], enabled),
                        ),
                        file,
                        lines,
                        reports,
                        at + 1,
                    ),
                }
            },
        }
    }
}

/// The lines of a file whose breakpoints are enabled, in order.
pub open spec fn enabled_lines(lines: Map<i64, BreakpointView>) -> Seq<i64> {
    ascending(lines.dom()).filter(|n: i64| lines[n].enabled)
}

/// Whether these are the lines whose breakpoints are enabled, each once, in increasing
/// order.
pub open spec fn lists_enabled(known: Map<i64, BreakpointView>, lines: Seq<i64>) -> bool {
    &&& forall|i: int, j: int|
        0 <= i < j < lines.len() ==> #[trigger] lines[i] < #[trigger] lines[j]
    &&& forall|n: i64| #[trigger]
        lines.contains(n) <==> known.contains_key(n) && known[n].enabled
}

/// Whether a request sets breakpoints on exactly these lines of a file.
pub open spec fn sets_breakpoints(
    r: RequestArguments,
    name: Seq<char>,
    path: Seq<char>,
    lines: Seq<i64>,
    modified: Option<bool>,
) -> bool {
    &&& r matches RequestArguments::setBreakpoints(a)
    &&& a.breakpoints matches Some(list)
    &&& list@ == lines.map_values(|n: i64| plain_breakpoint(n))
    &&& a.lines is None
    &&& a.source.names_file(name, path)
    &&& a.source_modified == modified
}

/// The request that sets breakpoints on lines of a file.
pub fn breakpoints_request(
    file_name: String,
    file_path: String,
    line_numbers: &Vec<i64>,
    modified: Option<bool>,
) -> (r: RequestArguments)
    ensures
        sets_breakpoints(r, file_name@, file_path@, line_numbers@, modified),
{
    let mut list: Vec<SourceBreakpoint> = Vec::new();
    let ghost f = |n: i64| plain_breakpoint(n);
    let mut i: usize = 0;
    assert(list@ =~= line_numbers@.take(0).map_values(f));
    while i < line_numbers.len()
        invariant
            i <= line_numbers@.len(),
            f == (|n: i64| plain_breakpoint(n)),
            list@ == line_numbers@.take(i as int).map_values(f),
        decreases line_numbers@.len() - i,
    {
        list.push(SourceBreakpoint::new(line_numbers[i]));
        i = i + 1;
        assert(list@ =~= line_numbers@.take(i as int).map_values(f));
    }
    assert(line_numbers@.take(i as int) =~= line_numbers@);
    RequestArguments::setBreakpoints(
        SetBreakpointsArguments {
            breakpoints: Some(list),
            lines: None,
            source: Source::new_file(file_name, file_path),
            source_modified: modified,
        },
    )
}

/// The lines of a file whose breakpoints are enabled.
pub fn lines_to_set(lines: &BTreeMap<i64, DebuggerBreakpoint>) -> (r: Vec<i64>)
    requires
        lines_wf(*lines),
    ensures
        r@ == enabled_lines(lines_view(*lines)),
        lists_enabled(lines_view(*lines), r@),
{
    let numbers = sorted_lines(lines);
    let ghost p = |n: i64| lines_view(*lines)[n].enabled;
    proof {
        assert(numbers@.to_set() =~= lines_view(*lines).dom()) by {
            assert forall|n: i64| numbers@.to_set().contains(n) == lines_view(
                *lines,
            ).dom().contains(n) by {
                assert(lines@.contains_key(n) <==> numbers@.contains(n));
            }
        }
        ascending_is(numbers@, lines_view(*lines).dom());
        reveal(Seq::filter);
    }
    let mut r: Vec<i64> = Vec::new();
    let mut i: usize = 0;
    assert(r@ =~= numbers@.take(0).filter(p));
    while i < numbers.len()
        invariant
            i <= numbers@.len(),
            p == (|n: i64| lines_view(*lines)[n].enabled),
            increasing(numbers@),
            forall|line: i64| #[trigger] lines@.contains_key(line) <==> numbers@.contains(line),
            r@ == numbers@.take(i as int).filter(p),
        decreases numbers@.len() - i,
    {
        let n: i64 = numbers[i];
        proof {
            let next = numbers@.take(i + 1);
            assert(next.drop_last() =~= numbers@.take(i as int));
            assert(next.last() == n);
            reveal(Seq::filter);
            assert(numbers@.contains(n));
            assert(lines@.contains_key(n));
        }
        if let Some(b) = lines.get(&n) {
            if b.enabled {
                r.push(n);
            }
        }
        i = i + 1;
    }
    assert(numbers@.take(i as int) =~= numbers@);
    proof {
        filter_keeps_order(numbers@, p);
        assert forall|n: i64| #[trigger] r@.contains(n) <==> lines_view(*lines).contains_key(n)
            && lines_view(*lines)[n].enabled by {
            assert(lines@.contains_key(n) <==> numbers@.contains(n));
        }
    }
    r
}

/// Why breakpoints cannot be set in a file.
#[derive(Debug)]
pub enum SetBreakpointsError {
    Store(BreakpointError),
    /// The path does not end in the name of a file.
    NoFileName,
}

impl DebuggerHandler {
    /// The request that sets the enabled breakpoints of a file, and their lines.
    pub fn set_named_breakpoints(&self, file_path: String, file_name: Option<String>) -> (r: Result<
        (RequestArguments, Vec<i64>),
        SetBreakpointsError,
    >)
        requires
            self.wf(),
        ensures
            match r {
                Ok((request, lines)) => self.breakpoints@.contains_key(file_path@) && lines@
                    == enabled_lines(self.breakpoints@[file_path@]) && lists_enabled(
                    self.breakpoints@[file_path@],
                    lines@,
                ) && (file_name matches Some(name) && sets_breakpoints(
                    request,
                    name@,
                    file_path@,
                    lines@,
                    None,
                )),
                Err(SetBreakpointsError::Store(e)) => !self.breakpoints@.contains_key(file_path@)
                    && (e matches BreakpointError::NoFile(f) && f@ == file_path@),
                Err(SetBreakpointsError::NoFileName) => self.breakpoints@.contains_key(file_path@)
                    && file_name is None,
            },
    {
        match self.breakpoints.get_all_breakpoint_line_numbers_for_file(file_path.as_str()) {
            Err(e) => Err(SetBreakpointsError::Store(e)),
            Ok(lines) => {
                let numbers = lines_to_set(lines);
                match file_name {
                    Some(name) => {
                        let request = breakpoints_request(name, file_path, &numbers, None);
                        Ok((request, numbers))
                    },
                    None => Err(SetBreakpointsError::NoFileName),
                }
            },
        }
    }

    /// The request that sets the enabled breakpoints of a file, and their lines.
    /// The name of the file is the last part of its path.
    pub fn set_breakpoints(&self, file_path: String) -> (r: Result<
        (RequestArguments, Vec<i64>),
        SetBreakpointsError,
    >)
        requires
            self.wf(),
        ensures
            match r {
                Ok((request, lines)) => self.breakpoints@.contains_key(file_path@) && lines@
                    == enabled_lines(self.breakpoints@[file_path@]) && lists_enabled(
                    self.breakpoints@[file_path@],
                    lines@,
                ) && (exists|name: Seq<char>|
                    #[trigger] sets_breakpoints(request, name, file_path@, lines@, None)
                        && may_be_name(file_path@, Some(name))),
                Err(SetBreakpointsError::Store(e)) => !self.breakpoints@.contains_key(file_path@)
                    && (e matches BreakpointError::NoFile(f) && f@ == file_path@),
                Err(SetBreakpointsError::NoFileName) => self.breakpoints@.contains_key(file_path@)
                    && may_be_name(file_path@, None),
            },
    {
        let name = file_name(file_path.as_str());
        self.set_named_breakpoints(file_path, name)
    }

    /// Takes an adapter's report on a breakpoint into account.
    fn take_report(&mut self, file: &String, line: i64, report: &Breakpoint, id: i64, enabled: bool)
        -> (r: Result<(), ReportError>)
        requires
            old(self).wf(),
            report.id == Some(id),
        ensures
            final(self).wf(),
            same_but_breakpoints(*old(self), *final(self)),
            match r {
                Ok(_) => if report.line is None && !enabled {
                    final(self).breakpoints@ == old(self).breakpoints@
                } else {
                    has_breakpoint(old(self).breakpoints@, file@, line) && final(self).breakpoints@
                        == with_breakpoint(
                        old(self).breakpoints@,
                        file@,
                        line,
                        reported(old(self).breakpoints@[file@][line], *report, enabled),
                    )
                },
                Err(e) => !(report.line is None && !enabled) && (missing(
                    old(self).breakpoints@,
                    file@,
                    line,
                ) matches Some(fault) && e.view() == ReportFault::Store(fault))
                    && final(self).breakpoints@ == old(self).breakpoints@,
            },
    {
        let ghost m = self.breakpoints@;
        if let Some(actual) = report.line {
            match self.breakpoints.set_breakpoint_resolved(
                file.clone(),
                line,
                actual,
                signed_text(id),
            ) {
                Ok(_) => {},
                Err(e) => {
                    return Err(ReportError::Store(e));
                },
            }
        }
        if enabled {
            match self.breakpoints.set_breakpoint_enabled(file.clone(), line) {
                Ok(_) => {},
                Err(e) => {
                    return Err(ReportError::Store(e));
                },
            }
        }
        proof {
            if !(report.line is None && !enabled) {
                let wanted = with_breakpoint(
                    m,
                    file@,
                    line,
                    reported(m[file@][line], *report, enabled),
                );
                assert(self.breakpoints@[file@] =~= wanted[file@]);
                assert(self.breakpoints@ =~= wanted);
            }
        }
        Ok(())
    }

    /// Whether a report tells that a breakpoint is enabled.
    pub fn breakpoint_is_enabled(&self, report: &Breakpoint, at: usize) -> (r: Result<
        bool,
        ReportError,
    >)
        ensures
            match r {
                Ok(enabled) => report_enabled(self.debugger_type, *report, at as int) == Ok::<
                    bool,
                    ReportFault,
                >(enabled),
                Err(e) => report_enabled(self.debugger_type, *report, at as int) == Err::<
                    bool,
                    ReportFault,
                >(e.view()),
            },
    {
        match &report.message {
            None => Err(ReportError::NoMessage(at)),
            Some(message) => match self.debugger_type.check_breakpoint_enabled(message.as_str()) {
                Ok(enabled) => Ok(enabled),
                Err(e) => Err(ReportError::Locations(at, e)),
            },
        }
    }

    /// Takes the answer to a request for breakpoints into account, on the lines
    /// of a file that were asked for. The list of breakpoints is to be shown anew
    /// if the answer was about breakpoints at all.
    pub fn breakpoints_set(
        &mut self,
        file_path: String,
        line_numbers: &Vec<i64>,
        response: &Response,
    ) -> (r: Result<bool, ReportError>)
        requires
            old(self).wf(),
        ensures
            final(self).wf(),
            same_but_breakpoints(*old(self), *final(self)),
            if !response.success {
                r matches Err(e) && e.view() == ReportFault::Unsuccessful
                    && final(self).breakpoints@ == old(self).breakpoints@
            } else {
                match response.result {
                    ResponseResult::Success { body: ResponseBody::setBreakpoints(b) } => {
                        let after = after_reports(
                            old(self).debugger_type,
                            old(self).breakpoints@,
                            file_path@,
                            line_numbers@,
                            b.breakpoints@,
                            0,
                        );
                        &&& final(self).breakpoints@ == after.0
                        &&& match r {
                            Ok(show) => show && after.1 is None,
                            Err(e) => after.1 == Some(e.view()),
                        }
                    },
                    _ => r == Ok::<bool, ReportError>(false) && final(self).breakpoints@ == old(
                        self,
                    ).breakpoints@,
                }
            },
    {
        if !response.success {
            return Err(ReportError::Unsuccessful);
        }
        let ghost before = *self;
        if let ResponseResult::Success { body: ResponseBody::setBreakpoints(b) } = &response.result {
            let ghost whole = after_reports(
                self.debugger_type,
                self.breakpoints@,
                file_path@,
                line_numbers@,
                b.breakpoints@,
                0,
            );
            let mut i: usize = 0;
            while i < b.breakpoints.len()
                invariant
                    self.wf(),
                    before == *old(self),
                    response.success,
                    response.result == (ResponseResult::Success {
                        body: ResponseBody::setBreakpoints(*b),
                    }),
                    same_but_breakpoints(before, *self),
                    i <= b.breakpoints@.len(),
                    whole == after_reports(
                        before.debugger_type,
                        before.breakpoints@,
                        file_path@,
                        line_numbers@,
                        b.breakpoints@,
                        0,
                    ),
                    whole == after_reports(
                        self.debugger_type,
                        self.breakpoints@,
                        file_path@,
                        line_numbers@,
                        b.breakpoints@,
                        i as int,
                    ),
                decreases b.breakpoints@.len() - i,
            {
                let report = &b.breakpoints[i];
                if i >= line_numbers.len() {
                    return Err(ReportError::TooMany(i));
                }
                let line: i64 = line_numbers[i];
                let id: i64 = match report.id {
                    Some(id) => id,
                    None => {
                        return Err(ReportError::NoId(i));
                    },
                };
                let enabled = match self.breakpoint_is_enabled(report, i) {
                    Ok(enabled) => enabled,
                    Err(e) => {
                        return Err(e);
                    },
                };
                match self.take_report(&file_path, line, report, id, enabled) {
                    Ok(_) => {},
                    Err(e) => {
                        return Err(e);
                    },
                }
                i = i + 1;
            }
            return Ok(true);
        }
        Ok(false)
    }

    /// Takes an event about a breakpoint into account. It is about a breakpoint
    /// that the adapter put somewhere under the id of the event; where several
    /// have that id, it is about one of them.
    pub fn handle_event_breakpoint(&mut self, report: &Breakpoint) -> (r: Result<(), ReportError>)
        requires
            old(self).wf(),
        ensures
            final(self).wf(),
            same_but_breakpoints(*old(self), *final(self)),
            match r {
                Ok(_) => report.id is Some && (report_enabled(old(self).debugger_type, *report, 0)
                    matches Ok(enabled) && (exists|file: Seq<char>, line: i64| #[trigger]
                    has_breakpoint(old(self).breakpoints@, file, line) && old(
                        self,
                    ).breakpoints@[file][line].resolved.contains_key(
                        decimal_int(report.id->0 as int),
                    ) && final(self).breakpoints@ == (if report.line is None && !enabled {
                    old(self).breakpoints@
                } else {
                    with_breakpoint(
                        old(self).breakpoints@,
                        file,
                        line,
                        reported(old(self).breakpoints@[file][line], *report, enabled),
                    )
                }))),
                Err(e) => final(self).breakpoints@ == old(self).breakpoints@ && (if report.id is None {
                    e.view() == ReportFault::NoId(0)
                } else {
                    match report_enabled(old(self).debugger_type, *report, 0) {
                        Err(f) => e.view() == f,
                        Ok(_) => e.view() == ReportFault::UnknownId(report.id->0) && id_is_unknown(
                            old(self).breakpoints@,
                            decimal_int(report.id->0 as int),
                        ),
                    }
                }),
            },
    {
        let id: i64 = match report.id {
            Some(id) => id,
            None => {
                return Err(ReportError::NoId(0));
            },
        };
        let enabled = match self.breakpoint_is_enabled(report, 0) {
            Ok(enabled) => enabled,
            Err(e) => {
                return Err(e);
            },
        };
        match self.breakpoints.get_breakpoint_for_id(&id) {
            None => Err(ReportError::UnknownId(id)),
            Some((file, line)) => {
                assert(has_breakpoint(self.breakpoints@, file@, line));
                self.take_report(&file, line, report, id, enabled)
            },
        }
    }
}

/// Reports on the breakpoints of a file leave those of every other file as they
/// are, take no breakpoint away, and switch none off.
pub proof fn reports_keep_breakpoints(
    t: DebuggerType,
    m: BreakpointsView,
    file: Seq<char>,
    lines: Seq<i64>,
    reports: Seq<Breakpoint>,
    at: int,
    other: Seq<char>,
    line: i64,
)
    ensures
        other != file ==> lines_of(after_reports(t, m, file, lines, reports, at).0, other)
            == lines_of(m, other),
        has_breakpoint(m, other, line) ==> has_breakpoint(
            after_reports(t, m, file, lines, reports, at).0,
            other,
            line,
        ),
        has_breakpoint(m, other, line) && m[other][line].enabled ==> after_reports(
            t,
            m,
            file,
            lines,
            reports,
            at,
        ).0[other][line].enabled,
    decreases reports.len() - at,
{
    if 0 <= at < reports.len() && at < lines.len() && reports[at].id is Some {
        if let Ok(enabled) = report_enabled(t, reports[at], at) {
            if reports[at].line is None && !enabled {
                reports_keep_breakpoints(t, m, file, lines, reports, at + 1, other, line);
            } else if has_breakpoint(m, file, lines[at]) {
                let next = with_breakpoint(
                    m,
                    file,
                    lines[at],
                    reported(m[file][lines[at]], reports[at], enabled),
                );
                reports_keep_breakpoints(t, next, file, lines, reports, at + 1, other, line);
            }
        }
    }
}

impl DebuggerHandler {
    /// Places a breakpoint, and gives the request that then sets those of its
    /// file, with their lines.
    pub fn add_breakpoint(&mut self, source_file_path: String, source_line_number: i64) -> (r:
        Result<(RequestArguments, Vec<i64>), SetBreakpointsError>)
        requires
            old(self).wf(),
        ensures
            final(self).wf(),
            same_but_breakpoints(*old(self), *final(self)),
            final(self).breakpoints@ == with_pending(
                old(self).breakpoints@,
                source_file_path@,
                source_line_number,
            ),
            match r {
                Ok((request, lines)) => lines@ == enabled_lines(
                    final(self).breakpoints@[source_file_path@],
                ) && lists_enabled(final(self).breakpoints@[source_file_path@], lines@) && (exists|
                    name: Seq<char>,
                | #[trigger]
                    sets_breakpoints(request, name, source_file_path@, lines@, None) && may_be_name(
                        source_file_path@,
                        Some(name),
                    )),
                Err(e) => e is NoFileName && may_be_name(source_file_path@, None),
            },
    {
        let _ = self.breakpoints.add_pending_breakpoint(
            source_file_path.clone(),
            source_line_number,
        );
        self.set_breakpoints(source_file_path)
    }

    /// Takes a breakpoint away, and gives the request that then sets those of its
    /// file, with their lines.
    pub fn remove_breakpoint(&mut self, source_file_path: String, source_line_number: i64) -> (r:
        Result<(RequestArguments, Vec<i64>), SetBreakpointsError>)
        requires
            old(self).wf(),
            old(self).breakpoints@.contains_key(source_file_path@) ==> old(
                self,
            ).breakpoints@[source_file_path@].contains_key(source_line_number),
        ensures
            final(self).wf(),
            same_but_breakpoints(*old(self), *final(self)),
            final(self).breakpoints@ == (if old(self).breakpoints@.contains_key(
                source_file_path@,
            ) {
                without_breakpoint(
                    old(self).breakpoints@,
                    source_file_path@,
                    source_line_number,
                )
            } else {
                old(self).breakpoints@
            }),
            match r {
                Ok((request, lines)) => old(self).breakpoints@.contains_key(source_file_path@)
                    && lines@ == enabled_lines(final(self).breakpoints@[source_file_path@])
                    && lists_enabled(final(self).breakpoints@[source_file_path@], lines@) && (
                exists|name: Seq<char>| #[trigger]
                    sets_breakpoints(request, name, source_file_path@, lines@, None) && may_be_name(
                        source_file_path@,
                        Some(name),
                    )),
                Err(SetBreakpointsError::Store(e)) => !old(self).breakpoints@.contains_key(
                    source_file_path@,
                ) && (e matches BreakpointError::NoFile(f) && f == source_file_path),
                Err(SetBreakpointsError::NoFileName) => old(self).breakpoints@.contains_key(
                    source_file_path@,
                ) && may_be_name(source_file_path@, None),
            },
    {
        match self.breakpoints.remove_breakpoint(source_file_path.clone(), source_line_number) {
            Ok(_) => self.set_breakpoints(source_file_path),
            Err(e) => Err(SetBreakpointsError::Store(e)),
        }
    }

    /// What to do next to show the threads in an output window, after these
    /// answers, and nothing in a window that does not show them. The top frame
    /// that was met last becomes the current one.
    pub fn display_output_info(&mut self, window: VadreBufferType, replies: &Vec<Response>) -> (r:
        Option<OutputRun>)
        ensures
            ({
                let shown = window == VadreBufferType::CallStack || window
                    == VadreBufferType::Variables;
                let step = output_step(
                    old(self).current_thread_id,
                    old(self).stack_expanded_threads@,
                    window == VadreBufferType::Variables,
                    replies@,
                );
                match r {
                    Some(run) => shown && run.view() == step && *final(self) == (DebuggerHandler {
                        current_frame_id: match step.frame {
                            Some(id) => Some(id),
                            None => old(self).current_frame_id,
                        },
                        ..*old(self)
                    }),
                    None => !shown && *final(self) == *old(self),
                }
            }),
    {
        let variables_window = match window {
            VadreBufferType::CallStack => false,
            VadreBufferType::Variables => true,
            _ => {
                return None;
            },
        };
        let run = display_output(
            self.current_thread_id,
            &self.stack_expanded_threads,
            variables_window,
            replies,
        );
        if let Some(id) = run.frame {
            self.current_frame_id = Some(id);
        }
        Some(run)
    }
}

/// The request for the top frame of a thread.
pub open spec fn ask_top_frame(thread_id: i64) -> RequestArguments {
    RequestArguments::stackTrace(
        StackTraceArguments { format: None, levels: Some(1), start_frame: Some(0), thread_id },
    )
}

/// The request for the top frame of a thread.
pub fn top_frame_request(thread_id: i64) -> (r: RequestArguments)
    ensures
        r == ask_top_frame(thread_id),
{
    RequestArguments::stackTrace(
        StackTraceArguments { format: None, levels: Some(1), start_frame: Some(0), thread_id },
    )
}

/// Where the program stopped.
#[derive(Debug)]
pub enum StopPlace {
    /// On a line of this file.
    File(String, i64),
    /// On a line of code that the adapter has to be asked for, under this number.
    Reference(RequestArguments, i64, i64),
    /// The adapter does not tell.
    Unknown,
}

/// Why it cannot be shown where the program stopped.
#[derive(Clone, Copy, Debug, PartialEq, Eq, Structural)]
pub enum StopError {
    Unsuccessful,
    NoFrame,
    NoSource,
    NothingToShow,
}

impl StopError {
    /// The words for the error, where it is about what is shown.
    pub open spec fn words(self, shown: Seq<char>) -> Seq<char> {
        match self {
            StopError::Unsuccessful => "Got unsuccessful response: "@ + shown,
            StopError::NoFrame => "stack should have a top frame: []"@,
            StopError::NoSource => "stack should have a source: "@ + shown,
            StopError::NothingToShow => "Can't find any source to display"@,
        }
    }

    /// The error in words. What is shown is the answer, or the frame without a source.
    pub fn message(&self, shown: &str) -> (r: String)
        ensures
            r@ == self.words(shown@),
    {
        match self {
            StopError::Unsuccessful => "Got unsuccessful response: ".to_string().concat(shown),
            StopError::NoFrame => "stack should have a top frame: []".to_string(),
            StopError::NoSource => "stack should have a source: ".to_string().concat(shown),
            StopError::NothingToShow => "Can't find any source to display".to_string(),
        }
    }
}

/// Where the program stopped, by the answer about its top frame.
pub fn process_stopped(response: Response) -> (r: Result<StopPlace, StopError>)
    ensures
        if !response.success {
            r == Err::<StopPlace, StopError>(StopError::Unsuccessful)
        } else {
            match response.result {
                ResponseResult::Success { body: ResponseBody::stackTrace(b) } => {
                    let frames = b.stack_frames@;
                    if frames.len() == 0 {
                        r == Err::<StopPlace, StopError>(StopError::NoFrame)
                    } else {
                        match frames[0].source {
                            None => r == Err::<StopPlace, StopError>(StopError::NoSource),
                            Some(source) => match (source.path, source.source_reference) {
                                (Some(path), _) => r == Ok::<StopPlace, StopError>(
                                    StopPlace::File(path, frames[0].line),
                                ),
                                (None, Some(id)) => r == Ok::<StopPlace, StopError>(
                                    StopPlace::Reference(
                                        RequestArguments::source(
                                            SourceArguments {
                                                source: Some(source),
                                                source_reference: id,
                                            },
                                        ),
                                        id,
                                        frames[0].line,
                                    ),
                                ),
                                (None, None) => r == Err::<StopPlace, StopError>(
                                    StopError::NothingToShow,
                                ),
                            },
                        }
                    }
                },
                _ => r == Ok::<StopPlace, StopError>(StopPlace::Unknown),
            }
        },
{
    if !response.success {
        return Err(StopError::Unsuccessful);
    }
    match response.result {
        ResponseResult::Success { body: ResponseBody::stackTrace(b) } => {
            let mut frames = b.stack_frames;
            if frames.len() == 0 {
                return Err(StopError::NoFrame);
            }
            let frame = frames.remove(0);
            let line: i64 = frame.line;
            match frame.source {
                None => Err(StopError::NoSource),
                Some(source) => {
                    if source.path.is_some() {
                        return Ok(StopPlace::File(source.path.unwrap(), line));
                    }
                    match source.source_reference {
                        Some(id) => Ok(
                            StopPlace::Reference(
                                RequestArguments::source(
                                    SourceArguments { source: Some(source), source_reference: id },
                                ),
                                id,
                                line,
                            ),
                        ),
                        None => Err(StopError::NothingToShow),
                    }
                },
            }
        },
        _ => Ok(StopPlace::Unknown),
    }
}

/// The code that the adapter sent, if it did.
pub fn stopped_code(response: Response) -> (r: Result<Option<String>, StopError>)
    ensures
        if !response.success {
            r == Err::<Option<String>, StopError>(StopError::Unsuccessful)
        } else {
            match response.result {
                ResponseResult::Success { body: ResponseBody::source(b) } => r == Ok::<
                    Option<String>,
                    StopError,
                >(Some(b.content)),
                _ => r == Ok::<Option<String>, StopError>(None),
            }
        },
{
    if !response.success {
        return Err(StopError::Unsuccessful);
    }
    match response.result {
        ResponseResult::Success { body: ResponseBody::source(b) } => Ok(Some(b.content)),
        _ => Ok(None),
    }
}

/// The name under which code that the adapter sent is shown.
pub fn disassembled_name(source_reference_id: i64) -> (r: String)
    ensures
        r@ == "Disassembled Code "@ + decimal_int(source_reference_id as int),
{
    let id = signed_text(source_reference_id);
    "Disassembled Code ".to_string().concat(id.as_str())
}

/// What is told when it cannot be shown where the program stopped.
pub fn pointer_failure(why: &str) -> (r: String)
    ensures
        r@ == "An error occurred while displaying code pointer: "@ + why@,
{
    "An error occurred while displaying code pointer: ".to_string().concat(why)
}

/// Whether a report is told fully: it has an id, and a message that tells whether the
/// breakpoint is enabled.
pub open spec fn report_tells(t: DebuggerType, report: Breakpoint, enabled: bool) -> bool {
    &&& report.id is Some
    &&& report.message matches Some(message)
    &&& t.enabled_by(message@) == Ok::<bool, LocationsError>(enabled)
}

/// Whether a breakpoint is what it was, but put where the report tells under the id of
/// the report, and enabled if the report tells so.
pub open spec fn taken_over(
    was: BreakpointView,
    report: Breakpoint,
    enabled: bool,
    is: BreakpointView,
) -> bool {
    &&& is.enabled == (was.enabled || enabled)
    &&& is.resolved == (match report.line {
        Some(actual) => was.resolved.insert(decimal_int(report.id->0 as int), actual),
        None => was.resolved,
    })
}

proof fn after_good_reports(
    t: DebuggerType,
    m: BreakpointsView,
    file: Seq<char>,
    lines: Seq<i64>,
    reports: Seq<Breakpoint>,
    enabled: Seq<bool>,
    at: int,
    n: int,
)
    requires
        0 <= at <= n <= reports.len(),
        n <= lines.len(),
        enabled.len() >= n,
        m.contains_key(file),
        forall|i: int, j: int|
            0 <= i < j < n ==> #[trigger] lines[i] != #[trigger] lines[j],
        forall|i: int| at <= i < n ==> m[file].contains_key(#[trigger] lines[i]),
        forall|i: int|
            at <= i < n ==> report_tells(t, #[trigger] reports[i], enabled[i]),
    ensures
        ({
            let whole = after_reports(t, m, file, lines, reports, at);
            exists|rest: BreakpointsView|
                {
                    &&& #[trigger] after_reports(t, rest, file, lines, reports, n) == whole
                    &&& rest.dom() == m.dom()
                    &&& rest[file].dom() == m[file].dom()
                    &&& forall|f: Seq<char>|
                        f != file && #[trigger] m.contains_key(f) ==> rest[f] == m[f]
                    &&& forall|l: i64| #[trigger]
                        m[file].contains_key(l) && (forall|i: int|
                            at <= i < n ==> #[trigger] lines[i] != l) ==> rest[file][l] == m[file][l]
                    &&& forall|i: int|
                        #![trigger lines[i]]
                        at <= i < n ==> taken_over(
                            m[file][lines[i]],
                            reports[i],
                            enabled[i],
                            rest[file][lines[i]],
                        )
                }
        }),
    decreases n - at,
{
    let whole = after_reports(t, m, file, lines, reports, at);
    if at == n {
        assert(after_reports(t, m, file, lines, reports, n) == whole);
    } else {
        let line = lines[at];
        assert(report_tells(t, reports[at], enabled[at]));
        assert(report_enabled(t, reports[at], at) == Ok::<bool, ReportFault>(enabled[at]));
        assert(m[file].contains_key(line));
        let b = reported(m[file][line], reports[at], enabled[at]);
        let next = if reports[at].line is None && !enabled[at] {
            m
        } else {
            with_breakpoint(m, file, line, b)
        };
        assert(next.dom() =~= m.dom());
        assert(next[file].dom() =~= m[file].dom());
        assert(taken_over(m[file][line], reports[at], enabled[at], next[file][line]));
        assert forall|i: int| at + 1 <= i < n implies next[file].contains_key(
            #[trigger] lines[i],
        ) by {
            assert(m[file].contains_key(lines[i]));
        }
        after_good_reports(t, next, file, lines, reports, enabled, at + 1, n);
        let rest = choose|rest: BreakpointsView|
            {
                &&& #[trigger] after_reports(t, rest, file, lines, reports, n) == after_reports(
                    t,
                    next,
                    file,
                    lines,
                    reports,
                    at + 1,
                )
                &&& rest.dom() == next.dom()
                &&& rest[file].dom() == next[file].dom()
                &&& forall|f: Seq<char>|
                    f != file && #[trigger] next.contains_key(f) ==> rest[f] == next[f]
                &&& forall|l: i64| #[trigger]
                    next[file].contains_key(l) && (forall|i: int|
                        at + 1 <= i < n ==> #[trigger] lines[i] != l) ==> rest[file][l]
                        == next[file][l]
                &&& forall|i: int|
                    #![trigger lines[i]]
                    at + 1 <= i < n ==> taken_over(
                        next[file][lines[i]],
                        reports[i],
                        enabled[i],
                        rest[file][lines[i]],
                    )
            };
        assert(after_reports(t, rest, file, lines, reports, n) == whole);
        assert forall|f: Seq<char>| f != file && #[trigger] m.contains_key(f) implies rest[f]
            == m[f] by {
            assert(next.contains_key(f));
        }
        assert forall|l: i64| #[trigger] m[file].contains_key(l) && (forall|i: int|
            at <= i < n ==> #[trigger] lines[i] != l) implies rest[file][l] == m[file][l] by {
            assert(next[file].contains_key(l));
            assert(lines[at] != l);
        }
        assert forall|i: int|
            #![trigger lines[i]]
            at <= i < n implies taken_over(
            m[file][lines[i]],
            reports[i],
            enabled[i],
            rest[file][lines[i]],
        ) by {
            if i == at {
                assert(next[file].contains_key(line));
                assert forall|j: int| at + 1 <= j < n implies #[trigger] lines[j] != line by {}
            } else {
                assert(lines[at] != lines[i]);
            }
        }
    }
}

/// What the adapter answers about the breakpoint at a position is taken over into the
/// breakpoint on the line that was asked for at that position, and into no other: under
/// the id of the report it was put where the report tells, and it is enabled if the
/// report tells so. This holds up to the first `n` reports that are told fully. If these
/// are all, the breakpoints are shown anew; else it ends there, and why is told.
pub proof fn each_report_is_about_its_line(
    before: DebuggerHandler,
    file: String,
    lines: &Vec<i64>,
    response: &Response,
    reports: Seq<Breakpoint>,
    enabled: Seq<bool>,
    n: int,
    after: DebuggerHandler,
    r: Result<bool, ReportError>,
)
    requires
        exists|h: &mut DebuggerHandler|
            *h == before && *final(h) == after && #[trigger] call_ensures(
                DebuggerHandler::breakpoints_set,
                (h, file, lines, response),
                r,
            ),
        response.success,
        response.result matches ResponseResult::Success { body: ResponseBody::setBreakpoints(b) }
            && b.breakpoints@ == reports,
        0 <= n <= reports.len(),
        n <= lines@.len(),
        enabled.len() == n,
        before.breakpoints@.contains_key(file@),
        forall|i: int, j: int|
            0 <= i < j < n ==> #[trigger] lines@[i] != #[trigger] lines@[j],
        forall|i: int|
            0 <= i < n ==> before.breakpoints@[file@].contains_key(#[trigger] lines@[i]),
        forall|i: int|
            0 <= i < n ==> report_tells(
                before.debugger_type,
                #[trigger] reports[i],
                enabled[i],
            ),
        n < reports.len() ==> n == lines@.len() || reports[n].id is None
            || reports[n].message is None,
    ensures
        forall|i: int|
            #![trigger lines@[i]]
            0 <= i < n ==> taken_over(
                before.breakpoints@[file@][lines@[i]],
                reports[i],
                enabled[i],
                after.breakpoints@[file@][lines@[i]],
            ),
        forall|l: i64| #[trigger]
            before.breakpoints@[file@].contains_key(l) && (forall|i: int|
                0 <= i < n ==> #[trigger] lines@[i] != l) ==> after.breakpoints@[file@][l]
                == before.breakpoints@[file@][l],
        after.breakpoints@.dom() == before.breakpoints@.dom(),
        after.breakpoints@[file@].dom() == before.breakpoints@[file@].dom(),
        forall|f: Seq<char>|
            f != file@ && #[trigger] before.breakpoints@.contains_key(f)
                ==> after.breakpoints@[f] == before.breakpoints@[f],
        if n == reports.len() {
            r == Ok::<bool, ReportError>(true)
        } else if n == lines@.len() {
            r matches Err(ReportError::TooMany(i)) && i == n
        } else if reports[n].id is None {
            r matches Err(ReportError::NoId(i)) && i == n
        } else {
            r matches Err(ReportError::NoMessage(i)) && i == n
        },
{
    after_good_reports(
        before.debugger_type,
        before.breakpoints@,
        file@,
        lines@,
        reports,
        enabled,
        0,
        n,
    );
}

/// An answer that tells of a failure changes no breakpoint, and neither does one that is
/// not about breakpoints.
pub proof fn other_answers_change_no_breakpoint(
    before: DebuggerHandler,
    file: String,
    lines: &Vec<i64>,
    response: &Response,
    after: DebuggerHandler,
    r: Result<bool, ReportError>,
)
    requires
        exists|h: &mut DebuggerHandler|
            *h == before && *final(h) == after && #[trigger] call_ensures(
                DebuggerHandler::breakpoints_set,
                (h, file, lines, response),
                r,
            ),
        !response.success || !(response.result matches ResponseResult::Success {
            body: ResponseBody::setBreakpoints(_),
        }),
    ensures
        after.breakpoints@ == before.breakpoints@,
        !response.success ==> r == Err::<bool, ReportError>(ReportError::Unsuccessful),
        response.success ==> r == Ok::<bool, ReportError>(false),
{
}

/// An event about a breakpoint is about one that was put somewhere under the id of the
/// event, and changes no other: it is put where the event tells, and enabled if the event
/// tells so. Where no breakpoint has the id, nothing changes.
pub proof fn event_is_about_the_breakpoint_with_its_id(
    before: DebuggerHandler,
    report: &Breakpoint,
    enabled: bool,
    after: DebuggerHandler,
    r: Result<(), ReportError>,
)
    requires
        exists|h: &mut DebuggerHandler|
            *h == before && *final(h) == after && #[trigger] call_ensures(
                DebuggerHandler::handle_event_breakpoint,
                (h, report),
                r,
            ),
        report_tells(before.debugger_type, *report, enabled),
    ensures
        r is Ok ==> exists|file: Seq<char>, line: i64|
            {
                &&& before.breakpoints@.contains_key(file)
                &&& #[trigger] before.breakpoints@[file].contains_key(line)
                &&& before.breakpoints@[file][line].resolved.contains_key(
                    decimal_int(report.id->0 as int),
                )
                &&& taken_over(
                    before.breakpoints@[file][line],
                    *report,
                    enabled,
                    after.breakpoints@[file][line],
                )
                &&& crate::breakpoints::others_stay(
                    before.breakpoints@,
                    after.breakpoints@,
                    file,
                    line,
                )
                &&& after.breakpoints@[file].contains_key(line)
            },
        r is Err ==> after.breakpoints@ == before.breakpoints@ && r == Err::<(), ReportError>(
            ReportError::UnknownId(report.id->0),
        ) && forall|file: Seq<char>, line: i64|
            before.breakpoints@.contains_key(file)
                && #[trigger] before.breakpoints@[file].contains_key(line)
                ==> !before.breakpoints@[file][line].resolved.contains_key(
                decimal_int(report.id->0 as int),
            ),
{
    if r is Ok {
        let (file, line) = choose|file: Seq<char>, line: i64| #[trigger]
            has_breakpoint(before.breakpoints@, file, line)
                && before.breakpoints@[file][line].resolved.contains_key(
                decimal_int(report.id->0 as int),
            ) && after.breakpoints@ == (if report.line is None && !enabled {
                before.breakpoints@
            } else {
                with_breakpoint(
                    before.breakpoints@,
                    file,
                    line,
                    reported(before.breakpoints@[file][line], *report, enabled),
                )
            });
        assert(before.breakpoints@[file].contains_key(line));
    } else {
        assert forall|file: Seq<char>, line: i64|
            before.breakpoints@.contains_key(file)
                && #[trigger] before.breakpoints@[file].contains_key(line)
            implies !before.breakpoints@[file][line].resolved.contains_key(
            decimal_int(report.id->0 as int),
        ) by {
            assert(has_breakpoint(before.breakpoints@, file, line));
        }
    }
}

/// Of increasing numbers those that are kept increase too, and are those that are to be
/// kept.
proof fn filter_keeps_order(s: Seq<i64>, keep: spec_fn(i64) -> bool)
    requires
        forall|i: int, j: int| 0 <= i < j < s.len() ==> #[trigger] s[i] < #[trigger] s[j],
    ensures
        ({
            let kept = s.filter(keep);
            &&& forall|i: int, j: int|
                0 <= i < j < kept.len() ==> #[trigger] kept[i] < #[trigger] kept[j]
            &&& forall|n: i64| #[trigger] kept.contains(n) <==> s.contains(n) && keep(n)
        }),
    decreases s.len(),
{
    reveal(Seq::filter);
    let kept = s.filter(keep);
    if s.len() > 0 {
        let fewer = s.drop_last();
        let last = s.last();
        assert forall|i: int, j: int| 0 <= i < j < fewer.len() implies #[trigger] fewer[i]
            < #[trigger] fewer[j] by {
            assert(s[i] < s[j]);
        }
        filter_keeps_order(fewer, keep);
        let before = fewer.filter(keep);
        assert forall|n: i64| #[trigger] fewer.contains(n) implies n < last by {
            let i = choose|i: int| 0 <= i < fewer.len() && fewer[i] == n;
            assert(s[i] < s[s.len() - 1]);
        }
        assert forall|n: i64| #[trigger] s.contains(n) <==> fewer.contains(n) || n == last by {
            if s.contains(n) {
                let i = choose|i: int| 0 <= i < s.len() && s[i] == n;
                if i < fewer.len() {
                    assert(fewer[i] == n);
                }
            }
            if fewer.contains(n) {
                let i = choose|i: int| 0 <= i < fewer.len() && fewer[i] == n;
                assert(s[i] == n);
            }
            assert(s[s.len() - 1] == last);
        }
        if keep(last) {
            assert(kept =~= before.push(last));
            assert forall|n: i64| #[trigger] kept.contains(n) <==> before.contains(n) || n
                == last by {
                if before.contains(n) {
                    let i = choose|i: int| 0 <= i < before.len() && before[i] == n;
                    assert(kept[i] == n);
                }
                assert(kept[kept.len() - 1] == last);
                if kept.contains(n) {
                    let i = choose|i: int| 0 <= i < kept.len() && kept[i] == n;
                    if i < before.len() {
                        assert(before[i] == n);
                    }
                }
            }
            assert forall|i: int, j: int| 0 <= i < j < kept.len() implies #[trigger] kept[i]
                < #[trigger] kept[j] by {
                if j == before.len() {
                    assert(before.contains(before[i]));
                    assert(fewer.contains(before[i]));
                }
            }
        }
    }
}

/// Whether a request sets an unconditional breakpoint on each of these lines of a file,
/// in order, and on no other.
pub open spec fn asks_for_lines(
    request: RequestArguments,
    name: Seq<char>,
    path: Seq<char>,
    lines: Seq<i64>,
) -> bool {
    &&& request matches RequestArguments::setBreakpoints(a)
    &&& a.source.path matches Some(p)
    &&& p@ == path
    &&& a.source.name matches Some(n)
    &&& n@ == name
    &&& a.source.source_reference is None
    &&& a.breakpoints matches Some(list)
    &&& list@.len() == lines.len()
    &&& forall|i: int|
        #![trigger list@[i]]
        0 <= i < lines.len() ==> list@[i].line == lines[i] && list@[i].condition is None
            && list@[i].hit_condition is None && list@[i].log_message is None
            && list@[i].column is None
}

/// The request for breakpoints asks for those lines, in that order.
pub proof fn breakpoints_are_asked_for(
    name: String,
    path: String,
    lines: &Vec<i64>,
    modified: Option<bool>,
    r: RequestArguments,
)
    requires
        call_ensures(breakpoints_request, (name, path, lines, modified), r),
    ensures
        asks_for_lines(r, name@, path@, lines@),
{
}

/// The breakpoints that are set in a file are those that are enabled there, each once, in
/// increasing order, and no other. They are set in that file. Only where no breakpoint of
/// the file is known, or it has no name, none are.
pub proof fn enabled_breakpoints_are_set(
    handler: &DebuggerHandler,
    path: String,
    name: Option<String>,
    r: Result<(RequestArguments, Vec<i64>), SetBreakpointsError>,
)
    requires
        handler.wf(),
        call_ensures(DebuggerHandler::set_named_breakpoints, (handler, path, name), r),
    ensures
        r is Ok <==> handler.breakpoints@.contains_key(path@) && name is Some,
        r matches Ok((request, lines)) ==> {
            &&& asks_for_lines(request, name->0@, path@, lines@)
            &&& forall|i: int, j: int|
                0 <= i < j < lines@.len() ==> #[trigger] lines@[i] < #[trigger] lines@[j]
            &&& forall|n: i64| #[trigger]
                lines@.contains(n) <==> handler.breakpoints@[path@].contains_key(n)
                    && handler.breakpoints@[path@][n].enabled
        },
{
}

/// What the output of the adapter is about is logged, where it stopped is shown, and a
/// breakpoint that changed is taken note of. Other events mean nothing.
pub proof fn events_are_told_apart(event: EventBody, r: EventAction)
    requires
        call_ensures(handle_event, (event,), r),
    ensures
        r is Log <==> event is output,
        r is Stopped <==> event is stopped,
        r is Breakpoint <==> event is breakpoint,
        event matches EventBody::stopped(s) ==> r == EventAction::Stopped(s.thread_id),
        event matches EventBody::breakpoint(b) ==> r == EventAction::Breakpoint(b.breakpoint),
{
}

/// When the program stopped in a thread, that thread is the current one and it is
/// expanded; those that were expanded stay so. Where it stopped is shown, unless somebody
/// waits for it to go on, and then nobody does any more.
pub proof fn stopped_thread_is_current(
    before: DebuggerHandler,
    thread_id: Option<i64>,
    after: DebuggerHandler,
    r: StoppedAction,
    other: i64,
)
    requires
        exists|h: &mut DebuggerHandler|
            *h == before && *final(h) == after && #[trigger] call_ensures(
                DebuggerHandler::handle_event_stopped,
                (h, thread_id),
                r,
            ),
    ensures
        after.current_thread_id == thread_id,
        after.stack_expanded_threads@.contains(other) == (
        before.stack_expanded_threads@.contains(other) || thread_id == Some(other)),
        r == StoppedAction::GoOn <==> before.stop_awaited,
        !after.stop_awaited,
        after.breakpoints == before.breakpoints,
        after.current_frame_id == before.current_frame_id,
{
}

/// Placing a breakpoint puts a fresh one there and leaves every other. The adapter is then
/// asked for those of the file that are enabled.
pub proof fn added_breakpoint_is_fresh(
    before: DebuggerHandler,
    file: String,
    line: i64,
    after: DebuggerHandler,
    r: Result<(RequestArguments, Vec<i64>), SetBreakpointsError>,
)
    requires
        exists|h: &mut DebuggerHandler|
            *h == before && *final(h) == after && #[trigger] call_ensures(
                DebuggerHandler::add_breakpoint,
                (h, file, line),
                r,
            ),
    ensures
        after.breakpoints@.contains_key(file@),
        after.breakpoints@[file@].contains_key(line),
        !after.breakpoints@[file@][line].enabled,
        forall|id: Seq<char>| !#[trigger] after.breakpoints@[file@][line].resolved.contains_key(id),
        crate::breakpoints::others_stay(before.breakpoints@, after.breakpoints@, file@, line),
        r matches Ok((request, lines)) ==> {
            &&& exists|name: Seq<char>| #[trigger]
                asks_for_lines(request, name, file@, lines@)
            &&& forall|i: int, j: int|
                0 <= i < j < lines@.len() ==> #[trigger] lines@[i] < #[trigger] lines@[j]
            &&& forall|n: i64| #[trigger]
                lines@.contains(n) <==> after.breakpoints@[file@].contains_key(n)
                    && after.breakpoints@[file@][n].enabled
        },
{
    if let Ok((request, lines)) = r {
        let name = choose|name: Seq<char>| #[trigger]
            sets_breakpoints(request, name, file@, lines@, None);
        assert(asks_for_lines(request, name, file@, lines@));
    }
}

/// Taking a breakpoint away takes that one away and leaves every other. The adapter is
/// then asked for those of the file that are enabled.
pub proof fn taken_breakpoint_is_gone(
    before: DebuggerHandler,
    file: String,
    line: i64,
    after: DebuggerHandler,
    r: Result<(RequestArguments, Vec<i64>), SetBreakpointsError>,
)
    requires
        exists|h: &mut DebuggerHandler|
            *h == before && *final(h) == after && #[trigger] call_ensures(
                DebuggerHandler::remove_breakpoint,
                (h, file, line),
                r,
            ),
    ensures
        !(after.breakpoints@.contains_key(file@) && after.breakpoints@[file@].contains_key(line)),
        crate::breakpoints::others_stay(before.breakpoints@, after.breakpoints@, file@, line),
        r matches Ok((request, lines)) ==> {
            &&& exists|name: Seq<char>| #[trigger]
                asks_for_lines(request, name, file@, lines@)
            &&& forall|i: int, j: int|
                0 <= i < j < lines@.len() ==> #[trigger] lines@[i] < #[trigger] lines@[j]
            &&& forall|n: i64| #[trigger]
                lines@.contains(n) <==> after.breakpoints@[file@].contains_key(n)
                    && after.breakpoints@[file@][n].enabled
        },
{
    if let Ok((request, lines)) = r {
        let name = choose|name: Seq<char>| #[trigger]
            sets_breakpoints(request, name, file@, lines@, None);
        assert(asks_for_lines(request, name, file@, lines@));
    }
    if !before.breakpoints@.contains_key(file@) {
        assert(after.breakpoints@ == before.breakpoints@);
    }
}

/// The window for the call stack and that for the variables show what the answers give,
/// and the frame that this is about becomes the current one. Other windows show none of
/// it.
pub proof fn shown_frame_is_current(
    before: DebuggerHandler,
    window: VadreBufferType,
    replies: &Vec<Response>,
    after: DebuggerHandler,
    r: Option<OutputRun>,
    expanded: &std::collections::HashSet<i64>,
    shown: OutputRun,
)
    requires
        exists|h: &mut DebuggerHandler|
            *h == before && *final(h) == after && #[trigger] call_ensures(
                DebuggerHandler::display_output_info,
                (h, window, replies),
                r,
            ),
        *expanded == before.stack_expanded_threads,
        call_ensures(
            display_output,
            (
                before.current_thread_id,
                expanded,
                window == VadreBufferType::Variables,
                replies,
            ),
            shown,
        ),
    ensures
        r is Some <==> window == VadreBufferType::CallStack || window == VadreBufferType::Variables,
        r matches Some(run) ==> {
            &&& run.view() == shown.view()
            &&& after == (DebuggerHandler { current_frame_id: after.current_frame_id, ..before })
            &&& after.current_frame_id == (if shown.frame is Some {
                shown.frame
            } else {
                before.current_frame_id
            })
        },
        r is None ==> after == before,
{
}

/// The place where the program stopped is asked for as the first frame of that thread,
/// and of the frames that are answered the first one tells it: its line in the file at
/// its path, or in code that the adapter has under a number.
pub proof fn stop_place_is_the_top_frame(
    thread_id: i64,
    request: RequestArguments,
    response: Response,
    frames: Seq<crate::schema::StackFrame>,
    r: Result<StopPlace, StopError>,
)
    requires
        call_ensures(top_frame_request, (thread_id,), request),
        call_ensures(process_stopped, (response,), r),
        response.success,
        response.result matches ResponseResult::Success { body: ResponseBody::stackTrace(b) }
            && b.stack_frames@ == frames,
    ensures
        request matches RequestArguments::stackTrace(a) && a.thread_id == thread_id
            && a.start_frame == Some(0i64) && a.levels == Some(1i64),
        frames.len() == 0 ==> r == Err::<StopPlace, StopError>(StopError::NoFrame),
        frames.len() > 0 ==> match r {
            Ok(StopPlace::File(path, line)) => frames[0].source matches Some(s) && s.path == Some(
                path,
            ) && line == frames[0].line,
            Ok(StopPlace::Reference(q, number, line)) => frames[0].source matches Some(s)
                && s.path is None && s.source_reference == Some(number) && line == frames[0].line
                && (q matches RequestArguments::source(a) && a.source_reference == number
                && a.source == Some(s)),
            Ok(StopPlace::Unknown) => false,
            Err(StopError::NoSource) => frames[0].source is None,
            Err(StopError::NothingToShow) => frames[0].source matches Some(s) && s.path is None
                && s.source_reference is None,
            Err(_) => false,
        },
{
}

/// The code that is shown is the code that the adapter sent.
pub proof fn stopped_code_is_what_was_sent(
    response: Response,
    content: String,
    r: Result<Option<String>, StopError>,
)
    requires
        call_ensures(stopped_code, (response,), r),
        response.result matches ResponseResult::Success { body: ResponseBody::source(b) }
            && b.content == content,
    ensures
        response.success ==> r == Ok::<Option<String>, StopError>(Some(content)),
        !response.success ==> r is Err,
{
}

/// A request of the adapter is answered with its own number, and that it was done.
pub proof fn terminal_request_is_answered(
    request_id: u32,
    args: &RequestArguments,
    r: (String, ProtocolMessage),
)
    requires
        args is runInTerminal,
        call_ensures(handle_request, (request_id, args), r),
    ensures
        r.1.type_ matches ProtocolMessageType::Response(a) && a.success && (a.request_seq matches
            Either::First(n) && n == request_id) && a.result is Success,
{
}

/// The command that a terminal runs has every argument, in order, each in quotes: one
/// argument more adds that one at the end.
pub proof fn terminal_command_grows(
    args: &Vec<String>,
    more: &Vec<String>,
    last: String,
    r: String,
    longer: String,
)
    requires
        more@ == args@.push(last),
        call_ensures(terminal_words, (args,), r),
        call_ensures(terminal_words, (more,), longer),
    ensures
        args@.len() == 0 ==> r@.len() == 0 && longer@ == "\""@ + last@ + "\""@,
        args@.len() > 0 ==> longer@ == r@ + " "@ + ("\""@ + last@ + "\""@),
{
    let f = |a: Seq<char>| "\""@ + a + "\""@;
    let short = texts(args@).map_values(f);
    let long = texts(more@).map_values(f);
    assert(texts(more@) =~= texts(args@).push(last@));
    assert(long =~= short.push(f(last@)));
    assert(long.drop_last() =~= short);
}

/// A report tells that its breakpoint is enabled where its message does, and one without a
/// message tells nothing.
pub proof fn message_tells_what_is_enabled(
    handler: &DebuggerHandler,
    kind: &DebuggerType,
    report: &Breakpoint,
    at: usize,
    message: String,
    read: &str,
    r: Result<bool, ReportError>,
    told: Result<bool, LocationsError>,
)
    requires
        *kind == handler.debugger_type,
        read@ == message@,
        call_ensures(DebuggerHandler::breakpoint_is_enabled, (handler, report, at), r),
        call_ensures(DebuggerType::check_breakpoint_enabled, (kind, read), told),
    ensures
        report.message is None ==> (r matches Err(ReportError::NoMessage(i)) && i == at),
        report.message matches Some(m) ==> (m@ == message@ ==> match told {
            Ok(enabled) => r matches Ok(e) && e == enabled,
            Err(_) => r matches Err(ReportError::Locations(i, _)) && i == at,
        }),
{
}

/// Two pieces of disassembled code have different names.
pub proof fn disassembled_code_has_its_own_name(a: i64, b: i64, r: String, s: String)
    requires
        a != b,
        call_ensures(disassembled_name, (a,), r),
        call_ensures(disassembled_name, (b,), s),
    ensures
        r@ != s@,
{
    let start = "Disassembled Code "@;
    if r@ == s@ {
        assert(r@.skip(start.len() as int) =~= decimal_int(a as int));
        assert(s@.skip(start.len() as int) =~= decimal_int(b as int));
        crate::number::decimal_int_read_back(a as int);
        crate::number::decimal_int_read_back(b as int);
    }
}

/// What the adapter tells of the breakpoints, and placing and taking away one, changes
/// nothing of the session but its breakpoints.
pub proof fn breakpoints_leave_the_session(
    before: DebuggerHandler,
    file: String,
    line: i64,
    lines: &Vec<i64>,
    response: &Response,
    report: &Breakpoint,
    set: DebuggerHandler,
    told: DebuggerHandler,
    added: DebuggerHandler,
    removed: DebuggerHandler,
    a: Result<bool, ReportError>,
    b: Result<(), ReportError>,
    c: Result<(RequestArguments, Vec<i64>), SetBreakpointsError>,
    d: Result<(RequestArguments, Vec<i64>), SetBreakpointsError>,
)
    requires
        exists|h: &mut DebuggerHandler|
            *h == before && *final(h) == set && #[trigger] call_ensures(
                DebuggerHandler::breakpoints_set,
                (h, file, lines, response),
                a,
            ),
        exists|h: &mut DebuggerHandler|
            *h == before && *final(h) == told && #[trigger] call_ensures(
                DebuggerHandler::handle_event_breakpoint,
                (h, report),
                b,
            ),
        exists|h: &mut DebuggerHandler|
            *h == before && *final(h) == added && #[trigger] call_ensures(
                DebuggerHandler::add_breakpoint,
                (h, file, line),
                c,
            ),
        exists|h: &mut DebuggerHandler|
            *h == before && *final(h) == removed && #[trigger] call_ensures(
                DebuggerHandler::remove_breakpoint,
                (h, file, line),
                d,
            ),
    ensures
        set == (DebuggerHandler { breakpoints: set.breakpoints, ..before }),
        told == (DebuggerHandler { breakpoints: told.breakpoints, ..before }),
        added == (DebuggerHandler { breakpoints: added.breakpoints, ..before }),
        removed == (DebuggerHandler { breakpoints: removed.breakpoints, ..before }),
{
}

/// What the adapter puts out is logged behind its mark, without the white space at its end.
pub proof fn output_is_logged(
    event: crate::schema::OutputEventBody,
    text: &str,
    cut: String,
    r: EventAction,
)
    requires
        text@ == event.output@,
        call_ensures(trim_end, (text,), cut),
        call_ensures(handle_event, (EventBody::output(event),), r),
    ensures
        r matches EventAction::Log(line) && line@ == "Debugger: "@ + cut@,
{
}

/// An event about a breakpoint that has no number, or that does not tell whether the
/// breakpoint is enabled, changes nothing and is told.
pub proof fn incomplete_event_is_told(
    before: DebuggerHandler,
    report: &Breakpoint,
    after: DebuggerHandler,
    r: Result<(), ReportError>,
)
    requires
        exists|h: &mut DebuggerHandler|
            *h == before && *final(h) == after && #[trigger] call_ensures(
                DebuggerHandler::handle_event_breakpoint,
                (h, report),
                r,
            ),
        report.id is None || report.message is None,
    ensures
        after.breakpoints@ == before.breakpoints@,
        report.id is None ==> (r matches Err(ReportError::NoId(i)) && i == 0),
        report.id is Some ==> (r matches Err(ReportError::NoMessage(i)) && i == 0),
{
}

} // verus!
