//! What a session with a debug adapter does: which requests it sends, and what
//! the answers and the events of the adapter change.

use crate::breakpoints::{
    missing, switched, with_breakpoint, BreakpointError, Breakpoints, BreakpointsView,
};
use crate::debuggers::DebuggerType;
use crate::listing::{breakpoint_under_cursor, listed_breakpoint, name_can_be_cut, ListingError};
use crate::neovim::VadreBufferType;
use crate::number::{parse_i64, read_signed};
use crate::protocol::{RequestArguments, Response, ResponseBody, ResponseResult};
use crate::schema::{
    ContinueArguments, InitializeRequestArguments, NextArguments, PauseArguments, StepInArguments,
};
use crate::text::{same, split, split_text, texts};
use std::collections::HashSet;
use vstd::prelude::*;

verus! {

/// The ways to go on.
#[derive(Clone, Copy, Debug, PartialEq, Eq, Structural)]
pub enum DebuggerStepType {
    Over,
    In,
    Continue,
}

/// A session with a debug adapter.
#[derive(Debug)]
pub struct DebuggerHandler {
    pub debugger_type: DebuggerType,
    pub current_thread_id: Option<i64>,
    pub current_frame_id: Option<i64>,
    pub breakpoints: Breakpoints,
    pub stack_expanded_threads: HashSet<i64>,
    pub debug_program_string: String,
    /// Somebody waits for the program to run in a terminal.
    pub terminal_awaited: bool,
    /// Somebody waits for the program to stop, to go on from there.
    pub stop_awaited: bool,
}

/// Whether nothing of a session changed but possibly the breakpoints.
pub open spec fn same_but_breakpoints(a: DebuggerHandler, b: DebuggerHandler) -> bool {
    &&& a.debugger_type == b.debugger_type
    &&& a.current_thread_id == b.current_thread_id
    &&& a.current_frame_id == b.current_frame_id
    &&& a.stack_expanded_threads == b.stack_expanded_threads
    &&& a.debug_program_string == b.debug_program_string
    &&& a.terminal_awaited == b.terminal_awaited
    &&& a.stop_awaited == b.stop_awaited
}

/// The request that goes on in that way.
pub open spec fn step_with(step_type: DebuggerStepType, thread_id: i64) -> RequestArguments {
    match step_type {
        DebuggerStepType::Over => RequestArguments::next(
            NextArguments { granularity: None, single_thread: Some(false), thread_id },
        ),
        DebuggerStepType::In => RequestArguments::stepIn(
            StepInArguments {
                granularity: None,
                single_thread: Some(false),
                target_id: None,
                thread_id,
            },
        ),
        DebuggerStepType::Continue => RequestArguments::continue_(
            ContinueArguments { single_thread: Some(false), thread_id },
        ),
    }
}

/// The request that goes on in that way.
pub fn step_request(step_type: DebuggerStepType, thread_id: i64) -> (r: RequestArguments)
    ensures
        r == step_with(step_type, thread_id),
{
    match step_type {
        DebuggerStepType::Over => RequestArguments::next(
            NextArguments { granularity: None, single_thread: Some(false), thread_id },
        ),
        DebuggerStepType::In => RequestArguments::stepIn(
            StepInArguments {
                granularity: None,
                single_thread: Some(false),
                target_id: None,
                thread_id,
            },
        ),
        DebuggerStepType::Continue => RequestArguments::continue_(
            ContinueArguments { single_thread: Some(false), thread_id },
        ),
    }
}

/// Going on several times: how often the program still has to stop before the
/// last request is sent.
#[derive(Clone, Copy, Debug, PartialEq, Eq, Structural)]
pub struct StepRun {
    pub step_type: DebuggerStepType,
    pub thread_id: i64,
    pub stops_left: u64,
}

/// What to do next to go on.
#[derive(Debug)]
pub enum StepAction {
    /// Send this and wait for the answer, and then for the program to stop.
    Ask(RequestArguments),
    /// Send this. That was the last.
    Send(RequestArguments),
}

/// For how many seconds the program is given time to stop between two steps.
pub const STEP_TIMEOUT_SECONDS: u64 = 2;

/// What is told when there is no thread to go on with.
pub const NO_THREAD_TO_STEP: &'static str = "Can't do stepping as no current thread";

impl StepRun {
    /// What is to be done next.
    pub open spec fn action(self) -> StepAction {
        if self.stops_left > 0 {
            StepAction::Ask(step_with(self.step_type, self.thread_id))
        } else {
            StepAction::Send(step_with(self.step_type, self.thread_id))
        }
    }

    /// What is to be done next.
    fn next(&self) -> (r: StepAction)
        ensures
            r == self.action(),
    {
        let request = step_request(self.step_type, self.thread_id);
        if self.stops_left > 0 {
            StepAction::Ask(request)
        } else {
            StepAction::Send(request)
        }
    }
}

/// The requests that going on sends from here to the end, if each is answered
/// and the program stops each time.
pub open spec fn step_requests(run: StepRun) -> Seq<StepAction>
    decreases run.stops_left,
{
    if run.stops_left == 0 {
        seq![run.action()]
    } else {
        seq![run.action()] + step_requests(StepRun { stops_left: (run.stops_left - 1) as u64, ..run })
    }
}

/// Going on `count` times sends `count` requests, and one where `count` is
/// nought; for all but the last the program is waited for.
pub proof fn step_count(run: StepRun)
    ensures
        step_requests(run).len() == run.stops_left + 1,
        forall|i: int|
            0 <= i < run.stops_left ==> #[trigger] step_requests(run)[i] == StepAction::Ask(
                step_with(run.step_type, run.thread_id),
            ),
        step_requests(run).last() == StepAction::Send(step_with(run.step_type, run.thread_id)),
    decreases run.stops_left,
{
    if run.stops_left > 0 {
        let rest = StepRun { stops_left: (run.stops_left - 1) as u64, ..run };
        step_count(rest);
        assert forall|i: int| 0 <= i < run.stops_left implies #[trigger] step_requests(run)[i]
            == StepAction::Ask(step_with(run.step_type, run.thread_id)) by {
            if i > 0 {
                assert(step_requests(run)[i] == step_requests(rest)[i - 1]);
            }
        }
        assert(step_requests(run).last() == step_requests(rest).last());
    }
}

/// Why going on failed.
#[derive(Debug)]
pub enum StepError {
    /// The adapter told of a failure.
    Unsuccessful,
    /// The adapter sent this message.
    Adapter(String),
}

impl DebuggerHandler {
    /// The breakpoints are kept in order.
    pub open spec fn wf(self) -> bool {
        self.breakpoints.wf()
    }

    /// A session before anything happened.
    pub fn new(
        debugger_type: DebuggerType,
        debug_program_string: String,
        breakpoints: Breakpoints,
    ) -> (r: Self)
        requires
            breakpoints.wf(),
        ensures
            r.wf(),
            r.debugger_type == debugger_type,
            r.current_thread_id is None,
            r.current_frame_id is None,
            r.breakpoints == breakpoints,
            r.stack_expanded_threads@ == Set::<i64>::empty(),
            r.debug_program_string == debug_program_string,
            !r.terminal_awaited,
            !r.stop_awaited,
    {
        DebuggerHandler {
            debugger_type,
            current_thread_id: None,
            current_frame_id: None,
            breakpoints,
            stack_expanded_threads: HashSet::new(),
            debug_program_string,
            terminal_awaited: false,
            stop_awaited: false,
        }
    }

    /// Notes that somebody waits for the program to run in a terminal.
    pub fn init(&mut self)
        ensures
            *final(self) == (DebuggerHandler { terminal_awaited: true, ..*old(self) }),
    {
        self.terminal_awaited = true;
    }

    /// The first request, which tells the adapter of this client.
    pub fn initialize_request(&self) -> (r: RequestArguments)
        ensures
            r matches RequestArguments::initialize(a) && a.introduces(self.debugger_type.name()),
    {
        let name = self.debugger_type.get_debugger_type_name();
        RequestArguments::initialize(InitializeRequestArguments::new(name))
    }

    /// Starts to go on, `count` times. There is nothing to do without a thread.
    pub fn do_step(&mut self, step_type: DebuggerStepType, count: u64) -> (r: Option<
        (StepRun, StepAction),
    >)
        ensures
            match r {
                Some((run, action)) => old(self).current_thread_id == Some(run.thread_id)
                    && run.step_type == step_type && run.stops_left == (if count > 0 {
                    count - 1
                } else {
                    0
                }) && action == run.action() && *final(self) == (DebuggerHandler {
                    stop_awaited: if run.stops_left > 0 {
                        true
                    } else {
                        old(self).stop_awaited
                    },
                    ..*old(self)
                }),
                None => old(self).current_thread_id is None && *final(self) == *old(self),
            },
    {
        let thread_id: i64 = match self.current_thread_id {
            Some(id) => id,
            None => {
                return None;
            },
        };
        let stops_left: u64 = if count > 0 {
            count - 1
        } else {
            0
        };
        let run = StepRun { step_type, thread_id, stops_left };
        if stops_left > 0 {
            self.stop_awaited = true;
        }
        Some((run, run.next()))
    }

    /// Goes on after the program stopped in between.
    pub fn step_stopped(&mut self, run: StepRun) -> (r: (StepRun, StepAction))
        requires
            run.stops_left > 0,
        ensures
            r.0 == (StepRun { stops_left: (run.stops_left - 1) as u64, ..run }),
            r.1 == r.0.action(),
            *final(self) == (DebuggerHandler {
                stop_awaited: if r.0.stops_left > 0 {
                    true
                } else {
                    old(self).stop_awaited
                },
                ..*old(self)
            }),
    {
        let next = StepRun {
            step_type: run.step_type,
            thread_id: run.thread_id,
            stops_left: run.stops_left - 1,
        };
        if next.stops_left > 0 {
            self.stop_awaited = true;
        }
        (next, next.next())
    }
}

/// Whether the answer to a step lets the next one follow.
pub fn step_answered(response: Response) -> (r: Result<(), StepError>)
    ensures
        match r {
            Ok(_) => response.success && response.result is Success,
            Err(StepError::Unsuccessful) => !response.success,
            Err(StepError::Adapter(m)) => response.success && (response.result matches
                ResponseResult::Error { message, .. } && m@ == "An error occurred stepping "@
                + message@),
        },
{
    if !response.success {
        return Err(StepError::Unsuccessful);
    }
    match response.result {
        ResponseResult::Success { body: _ } => Ok(()),
        ResponseResult::Error { command: _, message, show_user: _ } => Err(
            StepError::Adapter(
                "An error occurred stepping ".to_string().concat(message.as_str()),
            ),
        ),
    }
}

/// What to do first to pause the program.
#[derive(Debug)]
pub enum PauseAction {
    /// Send this without waiting, and note the thread.
    Send(RequestArguments),
    /// Send this and wait for the answer.
    Ask(RequestArguments),
    /// Ask for the threads, to pause the first one.
    AskThreads(RequestArguments),
}

/// Why the program was not paused.
#[derive(Clone, Copy, Debug, PartialEq, Eq, Structural)]
pub enum PauseError {
    Unsuccessful,
    NoThread,
}

/// What is told when there is no thread to pause.
pub const NO_THREAD_TO_PAUSE: &'static str =
    "No thread specified, no currently active thread and couldn't find a thread, aborting interrupt";

/// The request to pause a thread.
pub open spec fn pause_with(thread_id: i64) -> RequestArguments {
    RequestArguments::pause(PauseArguments { thread_id })
}

/// The first of the threads that an answer lists.
pub open spec fn first_thread(r: Response) -> Option<i64> {
    match crate::output::threads_in(r) {
        Some(threads) => if threads.len() > 0 {
            Some(threads[0].id)
        } else {
            None
        },
        None => None,
    }
}

impl DebuggerHandler {
    /// What to do first to pause a thread: the one that is given, or else the
    /// current one, or else the first one there is.
    pub fn pause(&self, thread: Option<i64>) -> (r: PauseAction)
        ensures
            r == (match (thread, self.current_thread_id) {
                (Some(id), _) => PauseAction::Send(pause_with(id)),
                (None, Some(id)) => PauseAction::Ask(pause_with(id)),
                (None, None) => PauseAction::AskThreads(RequestArguments::threads(None)),
            }),
    {
        match thread {
            Some(thread_id) => PauseAction::Send(
                RequestArguments::pause(PauseArguments { thread_id }),
            ),
            None => match self.current_thread_id {
                Some(thread_id) => PauseAction::Ask(
                    RequestArguments::pause(PauseArguments { thread_id }),
                ),
                None => PauseAction::AskThreads(RequestArguments::threads(None)),
            },
        }
    }

    /// Notes the thread that was asked to pause.
    pub fn paused(&mut self, thread_id: i64)
        ensures
            *final(self) == (DebuggerHandler {
                current_thread_id: Some(thread_id),
                ..*old(self)
            }),
    {
        self.current_thread_id = Some(thread_id);
    }
}

/// The request that pauses the first of the threads that an answer lists.
pub fn pause_first_thread(response: &Response) -> (r: Result<RequestArguments, PauseError>)
    ensures
        match r {
            Ok(request) => response.success && (first_thread(*response) matches Some(id) && request
                == pause_with(id)),
            Err(PauseError::Unsuccessful) => !response.success,
            Err(PauseError::NoThread) => response.success && first_thread(*response) is None,
        },
{
    if !response.success {
        return Err(PauseError::Unsuccessful);
    }
    if let ResponseResult::Success { body: ResponseBody::threads(b) } = &response.result {
        if b.threads.len() > 0 {
            return Ok(
                RequestArguments::pause(PauseArguments { thread_id: b.threads[0].id }),
            );
        }
    }
    Err(PauseError::NoThread)
}

/// What a key in an output window is for.
#[derive(Clone, Copy, Debug, PartialEq, Eq, Structural)]
pub enum KeyAction {
    Nothing,
    /// Pause the thread, and expand it or collapse it.
    ToggleThread(i64),
    /// Make the thread the current one.
    SelectThread(i64),
    /// Switch the breakpoint under the cursor.
    ToggleBreakpoint,
}

/// The thread that a line of the call stack is about.
pub open spec fn thread_on_line(line: Seq<char>) -> Option<int> {
    match read_signed(split(line, " - "@)[0]) {
        Ok(n) => Some(n),
        Err(_) => None,
    }
}

/// What a key is for, in a window with the cursor on a line.
pub open spec fn key_action(window: VadreBufferType, key: Seq<char>, line: Seq<char>) -> KeyAction {
    match window {
        VadreBufferType::CallStack => match thread_on_line(line) {
            Some(n) => if key == "space"@ {
                KeyAction::ToggleThread(n as i64)
            } else if key == "enter"@ {
                KeyAction::SelectThread(n as i64)
            } else {
                KeyAction::Nothing
            },
            None => KeyAction::Nothing,
        },
        VadreBufferType::Breakpoints => KeyAction::ToggleBreakpoint,
        _ => KeyAction::Nothing,
    }
}

/// What a key is for, in an output window with the cursor on a line.
pub fn handle_output_window_key(window: VadreBufferType, key: &str, current_line: &str) -> (r:
    KeyAction)
    ensures
        r == key_action(window, key@, current_line@),
{
    proof {
        reveal_strlit(" - ");
    }
    match window {
        VadreBufferType::CallStack => {
            let parts = split_text(current_line, " - ");
            assert(texts(parts@)[0] == parts@[0]@);
            match parse_i64(parts[0].as_str()) {
                Ok(thread_id) => if same(key, "space") {
                    KeyAction::ToggleThread(thread_id)
                } else if same(key, "enter") {
                    KeyAction::SelectThread(thread_id)
                } else {
                    KeyAction::Nothing
                },
                Err(_) => KeyAction::Nothing,
            }
        },
        VadreBufferType::Breakpoints => KeyAction::ToggleBreakpoint,
        _ => KeyAction::Nothing,
    }
}

/// A set with an element switched: taken out if it is in, put in if it is not.
pub open spec fn toggled(s: Set<i64>, n: i64) -> Set<i64> {
    if s.contains(n) {
        s.remove(n)
    } else {
        s.insert(n)
    }
}

/// Switching twice changes nothing.
pub proof fn toggling_twice(s: Set<i64>, n: i64)
    ensures
        toggled(toggled(s, n), n) == s,
{
    assert(toggled(toggled(s, n), n) =~= s);
}

impl DebuggerHandler {
    /// Expands a thread, or collapses it if it is expanded. It is the current one
    /// now, since it was paused.
    pub fn toggle_thread(&mut self, thread_id: i64)
        ensures
            final(self).stack_expanded_threads@ == toggled(
                old(self).stack_expanded_threads@,
                thread_id,
            ),
            final(self).current_thread_id == Some(thread_id),
            final(self).debugger_type == old(self).debugger_type,
            final(self).current_frame_id == old(self).current_frame_id,
            final(self).breakpoints == old(self).breakpoints,
            final(self).debug_program_string == old(self).debug_program_string,
            final(self).terminal_awaited == old(self).terminal_awaited,
            final(self).stop_awaited == old(self).stop_awaited,
    {
        self.current_thread_id = Some(thread_id);
        if !self.stack_expanded_threads.contains(&thread_id) {
            self.stack_expanded_threads.insert(thread_id);
        } else {
            self.stack_expanded_threads.remove(&thread_id);
        }
    }

    /// Makes a thread the current one.
    pub fn select_thread(&mut self, thread_id: i64)
        ensures
            *final(self) == (DebuggerHandler {
                current_thread_id: Some(thread_id),
                ..*old(self)
            }),
    {
        self.current_thread_id = Some(thread_id);
    }
}

/// Why a breakpoint was not switched.
#[derive(Debug)]
pub enum ToggleError {
    Listing(ListingError),
    Store(BreakpointError),
}

/// Whether the breakpoint that the last of the lines of the window stands for was
/// switched: off if it is shown as enabled, on if it is not. The result is its
/// file, or why nothing changed.
pub open spec fn toggles_listed(
    before: BreakpointsView,
    after: BreakpointsView,
    lines: Seq<Seq<char>>,
    r: Result<String, ToggleError>,
) -> bool {
    match listed_breakpoint(lines) {
        Err(fault) => r matches Err(ToggleError::Listing(e)) && e.view() == fault && after
            == before,
        Ok((file, n, enabled)) => match missing(before, file, n as i64) {
            Some(fault) => r matches Err(ToggleError::Store(e)) && e.view() == fault && after
                == before,
            None => r matches Ok(f) && f@ == file && after == with_breakpoint(
                before,
                file,
                n as i64,
                switched(before[file][n as i64], !enabled),
            ),
        },
    }
}

/// Switches the breakpoint that the last of the lines stands for.
pub(crate) fn toggle_listed(breakpoints: &mut Breakpoints, lines: &Vec<String>) -> (r: Result<
    String,
    ToggleError,
>)
    requires
        old(breakpoints).wf(),
        name_can_be_cut(texts(lines@)),
    ensures
        final(breakpoints).wf(),
        toggles_listed(old(breakpoints)@, final(breakpoints)@, texts(lines@), r),
{
    match breakpoint_under_cursor(lines) {
        Err(e) => Err(ToggleError::Listing(e)),
        Ok((file, line, enabled)) => {
            let outcome = if enabled {
                breakpoints.set_breakpoint_disabled(file.clone(), line)
            } else {
                breakpoints.set_breakpoint_enabled(file.clone(), line)
            };
            match outcome {
                Ok(_) => Ok(file),
                Err(e) => Err(ToggleError::Store(e)),
            }
        },
    }
}

impl DebuggerHandler {
    /// Switches the breakpoint that the last of the lines of the window stands
    /// for: off if it is shown as enabled, on if it is not. Its file is the
    /// result, whose breakpoints are then to be set.
    pub fn toggle_breakpoint(&mut self, lines: &Vec<String>) -> (r: Result<String, ToggleError>)
        requires
            old(self).wf(),
            name_can_be_cut(texts(lines@)),
        ensures
            final(self).wf(),
            same_but_breakpoints(*old(self), *final(self)),
            toggles_listed(old(self).breakpoints@, final(self).breakpoints@, texts(lines@), r),
    {
        toggle_listed(&mut self.breakpoints, lines)
    }
}

/// Whether a request goes on in that way: with that thread, to no target, and not with
/// that thread alone.
pub open spec fn goes_on_with(q: RequestArguments, way: DebuggerStepType, thread_id: i64) -> bool {
    match way {
        DebuggerStepType::Over => q matches RequestArguments::next(a) && a.thread_id == thread_id
            && a.single_thread == Some(false) && a.granularity is None,
        DebuggerStepType::In => q matches RequestArguments::stepIn(a) && a.thread_id == thread_id
            && a.single_thread == Some(false) && a.granularity is None && a.target_id is None,
        DebuggerStepType::Continue => q matches RequestArguments::continue_(a) && a.thread_id
            == thread_id && a.single_thread == Some(false),
    }
}

/// Whether `action` is to go on in that way when the program still has to stop so often.
pub open spec fn is_step(
    action: StepAction,
    way: DebuggerStepType,
    thread_id: i64,
    stops_left: int,
) -> bool {
    match action {
        StepAction::Ask(q) => stops_left > 0 && goes_on_with(q, way, thread_id),
        StepAction::Send(q) => stops_left <= 0 && goes_on_with(q, way, thread_id),
    }
}

/// Whatever the way to go on, the request is for the thread that is given.
pub proof fn step_is_for_the_thread(way: DebuggerStepType, thread_id: i64, r: RequestArguments)
    requires
        call_ensures(step_request, (way, thread_id), r),
    ensures
        goes_on_with(r, way, thread_id),
{
}

/// Going on begins with the current thread, in the way that is asked for. Only where it
/// is to go on once, or no times, the first request is the last. Where there is no
/// current thread, nothing happens.
pub proof fn stepping_begins_with_the_current_thread(
    before: DebuggerHandler,
    way: DebuggerStepType,
    count: u64,
    after: DebuggerHandler,
    r: Option<(StepRun, StepAction)>,
)
    requires
        exists|h: &mut DebuggerHandler|
            *h == before && *final(h) == after && #[trigger] call_ensures(
                DebuggerHandler::do_step,
                (h, way, count),
                r,
            ),
    ensures
        after == (DebuggerHandler { stop_awaited: after.stop_awaited, ..before }),
        match r {
            None => before.current_thread_id is None && after.stop_awaited == before.stop_awaited,
            Some((run, action)) => {
                &&& before.current_thread_id matches Some(id)
                &&& is_step(action, way, id, count - 1)
                &&& run.thread_id == id
                &&& run.step_type == way
                &&& run.stops_left == (if count > 1 {
                    count - 1
                } else {
                    0
                })
                &&& after.stop_awaited == (count > 1 || before.stop_awaited)
            },
        },
{
}

/// Going on goes on with the thread that it began with, in the same way, once less each
/// time the program stopped.
pub proof fn stepping_stays_with_the_thread(
    before: DebuggerHandler,
    run: StepRun,
    after: DebuggerHandler,
    r: (StepRun, StepAction),
)
    requires
        run.stops_left > 0,
        exists|h: &mut DebuggerHandler|
            *h == before && *final(h) == after && #[trigger] call_ensures(
                DebuggerHandler::step_stopped,
                (h, run),
                r,
            ),
    ensures
        is_step(r.1, run.step_type, run.thread_id, run.stops_left - 1),
        r.0.thread_id == run.thread_id,
        r.0.step_type == run.step_type,
        r.0.stops_left == run.stops_left - 1,
        after.stop_awaited == (run.stops_left > 1 || before.stop_awaited),
        after == (DebuggerHandler { stop_awaited: after.stop_awaited, ..before }),
{
}

/// From beginning to end, going on `count` times is `count` requests, or one, each for
/// the same thread and in the same way, and only the last is not waited for.
pub proof fn every_step_is_for_the_thread(run: StepRun, i: int)
    requires
        0 <= i <= run.stops_left,
    ensures
        step_requests(run).len() == run.stops_left + 1,
        is_step(step_requests(run)[i], run.step_type, run.thread_id, run.stops_left - i),
{
    step_count(run);
}

/// The thread that is given is paused, or else the current one. Only where there is
/// neither, the threads are asked for.
pub proof fn pause_is_for_the_thread(
    handler: &DebuggerHandler,
    thread: Option<i64>,
    r: PauseAction,
)
    requires
        call_ensures(DebuggerHandler::pause, (handler, thread), r),
    ensures
        thread matches Some(id) ==> (r matches PauseAction::Send(RequestArguments::pause(a))
            && a.thread_id == id),
        thread is None ==> match handler.current_thread_id {
            Some(id) => r matches PauseAction::Ask(RequestArguments::pause(a)) && a.thread_id == id,
            None => r == PauseAction::AskThreads(RequestArguments::threads(None)),
        },
{
}

/// Of the threads that an answer lists the first one is paused.
pub proof fn first_thread_is_paused(
    response: &Response,
    threads: Seq<crate::schema::Thread>,
    r: Result<RequestArguments, PauseError>,
)
    requires
        call_ensures(pause_first_thread, (response,), r),
        response.result matches ResponseResult::Success { body: ResponseBody::threads(b) }
            && b.threads@ == threads,
    ensures
        response.success && threads.len() > 0 ==> (r matches Ok(RequestArguments::pause(a))
            && a.thread_id == threads[0].id),
        response.success && threads.len() == 0 ==> r == Err::<RequestArguments, PauseError>(
            PauseError::NoThread,
        ),
        !response.success ==> r == Err::<RequestArguments, PauseError>(PauseError::Unsuccessful),
{
}

/// The part of a text before the first place of a separator is the first part that
/// splitting gives.
proof fn first_part(head: Seq<char>, tail: Seq<char>, separator: Seq<char>)
    requires
        separator.len() > 0,
        forall|j: int|
            0 <= j < head.len() ==> !#[trigger] crate::text::stands_at(
                head + separator + tail,
                separator,
                j,
            ),
    ensures
        split(head + separator + tail, separator)[0] == head,
{
    let s = head + separator + tail;
    crate::text::find_is_leftmost(s, separator, 0);
    assert(s.subrange(head.len() as int, (head.len() + separator.len()) as int) =~= separator);
    assert(crate::text::stands_at(s, separator, head.len() as int));
    assert(crate::text::find(s, separator, 0) == Some(head.len() as int));
    assert(s.subrange(0, head.len() as int) =~= head);
}

/// A key on the line of a thread in the call stack is for that thread, whichever thread
/// it is and whether or not it is the current one: space expands or collapses it,
/// enter selects it.
pub proof fn key_is_for_the_thread_on_the_line(
    current: Option<i64>,
    t: &crate::schema::Thread,
    line: String,
    key: &str,
    text: &str,
    r: KeyAction,
)
    requires
        call_ensures(crate::output::show_thread, (current, t), line),
        text@ == line@,
        call_ensures(handle_output_window_key, (VadreBufferType::CallStack, key, text), r),
    ensures
        key@ == "space"@ ==> r == KeyAction::ToggleThread(t.id),
        key@ == "enter"@ ==> r == KeyAction::SelectThread(t.id),
        key@ != "space"@ && key@ != "enter"@ ==> r == KeyAction::Nothing,
{
    let number = crate::number::decimal_int(t.id as int);
    let rest = "`"@ + t.name@ + "`"@;
    let tail = if current == Some(t.id) {
        rest + " (*)"@
    } else {
        rest
    };
    reveal_strlit(" - ");
    reveal_strlit(" - `");
    reveal_strlit("`");
    reveal_strlit("space");
    reveal_strlit("enter");
    assert(" - `"@ =~= " - "@ + "`"@);
    let s = number + " - "@ + tail;
    assert(line@ =~= s);
    crate::number::decimal_int_read_back(t.id as int);
    crate::number::decimal_is_digits(if t.id < 0 {
        -t.id
    } else {
        t.id as int
    } as nat);
    assert forall|j: int| 0 <= j < number.len() implies !#[trigger] crate::text::stands_at(
        s,
        " - "@,
        j,
    ) by {
        assert(s[j] == number[j]);
        if crate::text::stands_at(s, " - "@, j) {
            assert(s.subrange(j, j + 3)[0] == ' ');
        }
        assert(number[j] != ' ');
    }
    first_part(number, tail, " - "@);
    assert("space"@[0] != "enter"@[0]);
}

/// A key in the list of breakpoints is for the breakpoint under the cursor, and other
/// windows have no keys.
pub proof fn keys_of_other_windows(window: VadreBufferType, key: &str, text: &str, r: KeyAction)
    requires
        call_ensures(handle_output_window_key, (window, key, text), r),
        window != VadreBufferType::CallStack,
    ensures
        r == KeyAction::ToggleBreakpoint <==> window == VadreBufferType::Breakpoints,
        r == KeyAction::Nothing <==> window != VadreBufferType::Breakpoints,
{
}

/// Switching a thread in the call stack makes it the current one, expands it if it was
/// collapsed, collapses it if it was expanded, and leaves every other thread.
pub proof fn toggled_thread_is_current(
    before: DebuggerHandler,
    thread_id: i64,
    after: DebuggerHandler,
    other: i64,
)
    requires
        exists|h: &mut DebuggerHandler|
            *h == before && *final(h) == after && #[trigger] call_ensures(
                DebuggerHandler::toggle_thread,
                (h, thread_id),
                (),
            ),
    ensures
        after.current_thread_id == Some(thread_id),
        after.stack_expanded_threads@.contains(thread_id)
            == !before.stack_expanded_threads@.contains(thread_id),
        other != thread_id ==> after.stack_expanded_threads@.contains(other)
            == before.stack_expanded_threads@.contains(other),
        after.breakpoints == before.breakpoints,
        after.current_frame_id == before.current_frame_id,
{
}

/// Selecting a thread, and pausing one, makes it the current one and changes nothing
/// else.
pub proof fn selected_thread_is_current(
    before: DebuggerHandler,
    thread_id: i64,
    after: DebuggerHandler,
)
    requires
        exists|h: &mut DebuggerHandler|
            *h == before && *final(h) == after && (#[trigger] call_ensures(
                DebuggerHandler::select_thread,
                (h, thread_id),
                (),
            ) || call_ensures(DebuggerHandler::paused, (h, thread_id), ())),
    ensures
        after.current_thread_id == Some(thread_id),
        after.stack_expanded_threads == before.stack_expanded_threads,
        after.breakpoints == before.breakpoints,
        after.current_frame_id == before.current_frame_id,
        after.stop_awaited == before.stop_awaited,
{
}

/// Switching the breakpoint under the cursor turns off the one that the line shows as
/// enabled, and on the one that it does not. Where it was put stays, and so does every
/// other breakpoint.
pub proof fn breakpoint_under_the_cursor_is_switched(
    before: DebuggerHandler,
    lines: &Vec<String>,
    shown: (String, i64, bool),
    after: DebuggerHandler,
    r: Result<String, ToggleError>,
    file: Seq<char>,
    line: i64,
)
    requires
        call_ensures(breakpoint_under_cursor, (lines,), Ok(shown)),
        exists|h: &mut DebuggerHandler|
            *h == before && *final(h) == after && #[trigger] call_ensures(
                DebuggerHandler::toggle_breakpoint,
                (h, lines),
                r,
            ),
    ensures
        after.breakpoints@.contains_key(file) == before.breakpoints@.contains_key(file),
        before.breakpoints@.contains_key(file) ==> after.breakpoints@[file].contains_key(line)
            == before.breakpoints@[file].contains_key(line),
        before.breakpoints@.contains_key(file) && before.breakpoints@[file].contains_key(line) ==> {
            let was = before.breakpoints@[file][line];
            let is = after.breakpoints@[file][line];
            &&& is.resolved == was.resolved
            &&& is.enabled == (if file == shown.0@ && line == shown.1 {
                !shown.2
            } else {
                was.enabled
            })
        },
        r is Ok <==> before.breakpoints@.contains_key(shown.0@)
            && before.breakpoints@[shown.0@].contains_key(shown.1),
        r matches Ok(f) ==> f@ == shown.0@,
{
}

/// The adapter is told its own name, and that lines and columns are counted from one,
/// that paths are paths, and that a terminal can be asked for.
pub proof fn adapter_is_told_how_to_count(
    handler: &DebuggerHandler,
    kind: &DebuggerType,
    name: String,
    r: RequestArguments,
)
    requires
        *kind == handler.debugger_type,
        call_ensures(DebuggerType::get_debugger_type_name, (kind,), name),
        call_ensures(DebuggerHandler::initialize_request, (handler,), r),
    ensures
        r matches RequestArguments::initialize(a) && {
            &&& a.adapter_id@ == name@
            &&& a.lines_start_at_1 == Some(true)
            &&& a.columns_start_at_1 == Some(true)
            &&& a.path_format matches Some(format) && format@ == "path"@
            &&& a.supports_run_in_terminal_request == Some(true)
            &&& a.supports_variable_type == Some(true)
            &&& a.supports_variable_paging == Some(false)
        },
{
}

/// A step succeeded where the adapter says so and holds no error, and what it tells of an
/// error is handed on.
pub proof fn step_fails_as_it_is_told(response: Response, r: Result<(), StepError>)
    requires
        call_ensures(step_answered, (response,), r),
    ensures
        r is Ok <==> response.success && response.result is Success,
        !response.success ==> r matches Err(StepError::Unsuccessful),
        response.success ==> (response.result matches ResponseResult::Error { message, .. } ==> (
        r matches Err(StepError::Adapter(m)) && message@.is_suffix_of(m@))),
{
    if let ResponseResult::Error { message, .. } = response.result {
        let m = "An error occurred stepping "@ + message@;
        assert(m.skip("An error occurred stepping "@.len() as int) =~= message@);
        assert(message@.is_suffix_of(m));
    }
}

/// After the session began its first terminal is awaited, and is no longer after it was
/// there, with all else as it was.
pub proof fn first_terminal_is_awaited_once(
    before: DebuggerHandler,
    begun: DebuggerHandler,
    after: DebuggerHandler,
    last: DebuggerHandler,
    first: bool,
    second: bool,
)
    requires
        exists|h: &mut DebuggerHandler|
            *h == before && *final(h) == begun && #[trigger] call_ensures(
                DebuggerHandler::init,
                (h,),
                (),
            ),
        exists|h: &mut DebuggerHandler|
            *h == begun && *final(h) == after && #[trigger] call_ensures(
                DebuggerHandler::terminal_spawned,
                (h,),
                first,
            ),
        exists|h: &mut DebuggerHandler|
            *h == after && *final(h) == last && #[trigger] call_ensures(
                DebuggerHandler::terminal_spawned,
                (h,),
                second,
            ),
    ensures
        first,
        !second,
        last == (DebuggerHandler { terminal_awaited: false, ..before }),
{
}

/// Where no breakpoint is switched, none changes, and in any case nothing else of the
/// session does.
pub proof fn failed_switch_changes_nothing(
    before: DebuggerHandler,
    lines: &Vec<String>,
    after: DebuggerHandler,
    r: Result<String, ToggleError>,
)
    requires
        exists|h: &mut DebuggerHandler|
            *h == before && *final(h) == after && #[trigger] call_ensures(
                DebuggerHandler::toggle_breakpoint,
                (h, lines),
                r,
            ),
    ensures
        r is Err ==> after.breakpoints@ == before.breakpoints@,
        after == (DebuggerHandler { breakpoints: after.breakpoints, ..before }),
{
}

} // verus!
