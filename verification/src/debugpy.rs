//! A session with debugpy that keeps its own table of awaited answers.

use crate::debuggers::{json_texts, launches, Program};
use crate::events::StoppedAction;
use crate::json::JsonView;
use crate::number::{decimal, unsigned_text};
use crate::output::{
    ask_frames, frame_lines, frames_in, process_variables, show_frames, threads_in, variables_step,
    without_source, NextView, OutputNext, OutputRun, OutputView, VariablesRun, VariablesStep,
};
use crate::processor::{SequenceIds, StreamItem};
use crate::protocol::{
    Either, EventBody, ProtocolMessage, ProtocolMessageType, RequestArguments, Response,
    ResponseBody, ResponseResult,
};
use crate::schema::{
    Breakpoint, InitializeRequestArguments, SetExceptionBreakpointsArguments,
    SetFunctionBreakpointsArguments, StackTraceArguments, Thread,
};
use crate::str_map::StrMap;
use crate::text::{debug_list, debug_listed, debug_quoted, debug_text, join, join_texts, texts};
use crate::whitespace::{trim_end, trimmed_end};
use std::collections::HashSet;
use vstd::prelude::*;

verus! {

/// The requests that were sent, and which of them still wait for an answer.
#[derive(Debug)]
pub struct FramedSession {
    pub ids: SequenceIds,
    pub pending: HashSet<u32>,
}

/// What to do with what came from the adapter.
#[derive(Debug)]
pub enum SessionAction {
    /// Answer the request with this number.
    Request(u32, RequestArguments),
    /// Hand this to who waits for the answer to the request with this number.
    Deliver(u32, ResponseResult),
    Ignore,
    Event(EventBody),
    /// Give the session up, with these last words.
    Abort(String),
    Stop,
}

/// Whether an item carries a number where one is needed.
pub open spec fn numbered(item: StreamItem) -> bool {
    item matches StreamItem::Message(message) ==> match message.type_ {
        ProtocolMessageType::Request(_) => message.seq is First,
        ProtocolMessageType::Response(response) => response.request_seq is First,
        ProtocolMessageType::Event(_) => true,
    }
}

/// The awaited answers after an item: one that went well is not awaited anymore.
pub open spec fn pending_after(pending: Set<u32>, item: StreamItem) -> Set<u32> {
    match item {
        StreamItem::Message(message) => match message.type_ {
            ProtocolMessageType::Response(response) => if response.success {
                pending.remove(response.request_seq->First_0)
            } else {
                pending
            },
            _ => pending,
        },
        _ => pending,
    }
}

/// Whether that is what to do with an item. Answers are handed on only when they
/// went well and are awaited.
pub open spec fn acts_on(pending: Set<u32>, item: StreamItem, action: SessionAction) -> bool {
    match item {
        StreamItem::Message(message) => match message.type_ {
            ProtocolMessageType::Request(args) => action == SessionAction::Request(
                message.seq->First_0,
                args,
            ),
            ProtocolMessageType::Response(response) => {
                let id = response.request_seq->First_0;
                if response.success && pending.contains(id) {
                    action == SessionAction::Deliver(id, response.result)
                } else {
                    action == SessionAction::Ignore
                }
            },
            ProtocolMessageType::Event(event) => action == SessionAction::Event(event),
        },
        StreamItem::NotUnderstood(why) => action matches SessionAction::Abort(text) && text@
            == "An error occurred, panic: "@ + why@,
        StreamItem::Broken(why) => action matches SessionAction::Abort(text) && text@
            == "Frame decoder error: "@ + why@,
        StreamItem::Closed => action == SessionAction::Stop,
    }
}

impl FramedSession {
    /// Nothing was sent yet.
    pub fn new() -> (r: FramedSession)
        ensures
            r.ids.next == 1,
            r.pending@ == Set::<u32>::empty(),
    {
        FramedSession { ids: SequenceIds::new(), pending: HashSet::new() }
    }

    /// The message to send, with the next number. Its answer may be awaited.
    pub fn outgoing(&mut self, type_: ProtocolMessageType, awaited: bool) -> (r: ProtocolMessage)
        ensures
            r == (ProtocolMessage { seq: Either::First(old(self).ids.next), type_ }),
            final(self).ids.next == old(self).ids.next.wrapping_add(1),
            final(self).pending@ == (if awaited {
                old(self).pending@.insert(old(self).ids.next)
            } else {
                old(self).pending@
            }),
    {
        let seq: u32 = self.ids.next;
        if awaited {
            self.pending.insert(seq);
        }
        self.ids.message(type_)
    }

    /// What to do with what came from the adapter.
    pub fn incoming(&mut self, item: StreamItem) -> (r: SessionAction)
        requires
            numbered(item),
        ensures
            acts_on(old(self).pending@, item, r),
            final(self).pending@ == pending_after(old(self).pending@, item),
            final(self).ids == old(self).ids,
    {
        match item {
            StreamItem::Message(message) => match message.type_ {
                ProtocolMessageType::Request(args) => SessionAction::Request(
                    *message.seq.first(),
                    args,
                ),
                ProtocolMessageType::Response(response) => {
                    let id: u32 = *response.request_seq.first();
                    if response.success && self.pending.remove(&id) {
                        SessionAction::Deliver(id, response.result)
                    } else {
                        SessionAction::Ignore
                    }
                },
                ProtocolMessageType::Event(event) => SessionAction::Event(event),
            },
            StreamItem::NotUnderstood(why) => SessionAction::Abort(
                "An error occurred, panic: ".to_string().concat(why.as_str()),
            ),
            StreamItem::Broken(why) => SessionAction::Abort(
                "Frame decoder error: ".to_string().concat(why.as_str()),
            ),
            StreamItem::Closed => SessionAction::Stop,
        }
    }
}

/// An answer that went well.
pub open spec fn good_answer(item: StreamItem, id: u32) -> bool {
    item matches StreamItem::Message(message) && message.type_ matches ProtocolMessageType::Response(
        response,
    ) && response.success && response.request_seq == Either::<u32, String>::First(id)
}

/// The answer to a request is handed to who awaits it, and nobody else's answer
/// is touched.
pub proof fn awaited_answer_is_delivered(
    pending: Set<u32>,
    id: u32,
    item: StreamItem,
    action: SessionAction,
)
    requires
        good_answer(item, id),
        acts_on(pending.insert(id), item, action),
    ensures
        action matches SessionAction::Deliver(to, _) && to == id,
        !pending.contains(id) ==> pending_after(pending.insert(id), item) == pending,
        forall|other: u32| other != id ==> (#[trigger] pending_after(
            pending.insert(id),
            item,
        ).contains(other) == pending.contains(other)),
{
    if !pending.contains(id) {
        assert(pending.insert(id).remove(id) =~= pending);
    }
}

/// A request is answered once: the same answer again is ignored.
pub proof fn answer_is_delivered_once(
    pending: Set<u32>,
    id: u32,
    first: StreamItem,
    again: StreamItem,
    action: SessionAction,
)
    requires
        good_answer(first, id),
        good_answer(again, id),
        acts_on(pending_after(pending, first), again, action),
    ensures
        action == SessionAction::Ignore,
{
}

/// For how many seconds a message is dealt with.
pub const HANDLER_TIMEOUT_SECONDS: u64 = 10;

/// The three types of messages.
#[derive(Clone, Copy, Debug, PartialEq, Eq, Structural)]
pub enum MessageKind {
    Request,
    Response,
    Event,
}

/// What the log says when a message was not dealt with in time.
pub fn handler_failure(kind: MessageKind, why: &str) -> (r: String)
    ensures
        r@ == (match kind {
            MessageKind::Request => "Debugger Request Error: "@,
            MessageKind::Response => "Debugger Response Error: "@,
            MessageKind::Event => "Debugger Event Error: "@,
        }) + why@,
{
    let start = match kind {
        MessageKind::Request => "Debugger Request Error: ",
        MessageKind::Response => "Debugger Response Error: ",
        MessageKind::Event => "Debugger Event Error: ",
    };
    start.to_string().concat(why)
}

/// Going through the threads, from the answer `at` on. Each is asked for its
/// frames. The current one is listed with its frames, after the variables of the
/// top frame were asked for; another one with the name of its top frame.
pub open spec fn info_step(
    threads: Seq<Thread>,
    current: Option<i64>,
    replies: Seq<Response>,
    at: int,
    lines: Seq<Seq<char>>,
    variables: Option<Seq<Seq<char>>>,
    frame: Option<i64>,
) -> OutputView
    decreases threads.len(),
{
    if threads.len() == 0 {
        OutputView { variables, frame, next: NextView::Show(lines) }
    } else {
        let t = threads[0];
        let rest = threads.skip(1);
        let listed = if current == Some(t.id) {
            lines.push(t.name@ + " (*)"@)
        } else {
            lines
        };
        if at >= replies.len() {
            OutputView { variables, frame, next: NextView::Ask(ask_frames(t.id)) }
        } else if !replies[at].success {
            OutputView { variables: None, frame, next: NextView::Unsuccessful }
        } else {
            match replies[at].result {
                ResponseResult::Error { .. } => info_step(
                    rest,
                    current,
                    replies,
                    at + 1,
                    listed,
                    None,
                    frame,
                ),
                ResponseResult::Success { body: ResponseBody::stackTrace(b) } => {
                    let frames = b.stack_frames@;
                    if frames.len() == 0 {
                        OutputView { variables: None, frame, next: NextView::NoFrames }
                    } else if current != Some(t.id) {
                        info_step(
                            rest,
                            current,
                            replies,
                            at + 1,
                            lines.push(t.name@ + " - "@ + frames[0].name@),
                            None,
                            frame,
                        )
                    } else {
                        let top = Some(frames[0].id);
                        match variables_step(frames[0].id, replies, at + 1) {
                            VariablesStep::Ask(r) => OutputView {
                                variables: None,
                                frame: top,
                                next: NextView::Ask(r),
                            },
                            VariablesStep::Unsuccessful => OutputView {
                                variables: None,
                                frame: top,
                                next: NextView::Unsuccessful,
                            },
                            VariablesStep::Complete(content, next) => {
                                let shown = if next == replies.len() {
                                    content
                                } else {
                                    None
                                };
                                match without_source(frames, 0) {
                                    Some(i) => OutputView {
                                        variables: shown,
                                        frame: top,
                                        next: NextView::NoSource(i),
                                    },
                                    None => info_step(
                                        rest,
                                        current,
                                        replies,
                                        next,
                                        listed + frame_lines(frames, " (dissassembled)"@),
                                        shown,
                                        top,
                                    ),
                                }
                            },
                        }
                    }
                },
                ResponseResult::Success { .. } => info_step(
                    rest,
                    current,
                    replies,
                    at + 1,
                    if current == Some(t.id) {
                        listed
                    } else {
                        lines.push(t.name@)
                    },
                    None,
                    frame,
                ),
            }
        }
    }
}

/// What to do after these answers to show the threads: the first is about the
/// threads, those after it about their frames and variables.
pub open spec fn output_info(current: Option<i64>, replies: Seq<Response>) -> OutputView {
    if replies.len() == 0 {
        OutputView {
            variables: None,
            frame: None,
            next: NextView::Ask(RequestArguments::threads(None)),
        }
    } else if !replies[0].success {
        OutputView { variables: None, frame: None, next: NextView::Unsuccessful }
    } else {
        match threads_in(replies[0]) {
            None => OutputView {
                variables: None,
                frame: None,
                next: NextView::Show(Seq::empty()),
            },
            Some(threads) => info_step(threads, current, replies, 1, Seq::empty(), None, None),
        }
    }
}

/// A text that may be missing, of several lines.
spec fn lines_if_any(lines: Option<Vec<String>>) -> Option<Seq<Seq<char>>> {
    match lines {
        Some(v) => Some(texts(v@)),
        None => None,
    }
}

fn halt(frame: Option<i64>, next: OutputNext) -> (r: OutputRun)
    ensures
        r.variables is None,
        r.frame == frame,
        r.next == next,
{
    OutputRun { variables: None, frame, next }
}

/// What to do next to show the threads, after these answers.
pub fn process_output_info(current: Option<i64>, replies: &Vec<Response>) -> (r: OutputRun)
    ensures
        r.view() == output_info(current, replies@),
{
    if replies.len() == 0 {
        return halt(None, OutputNext::Ask(RequestArguments::threads(None)));
    }
    if !replies[0].success {
        return halt(None, OutputNext::Unsuccessful);
    }
    let mut lines: Vec<String> = Vec::new();
    let mut variables: Option<Vec<String>> = None;
    let mut frame: Option<i64> = None;
    assert(texts(lines@) =~= Seq::<Seq<char>>::empty());
    if let ResponseResult::Success { body: ResponseBody::threads(b) } = &replies[0].result {
        let ghost whole = output_info(current, replies@);
        let mut at: usize = 1;
        let mut i: usize = 0;
        assert(b.threads@.skip(0) =~= b.threads@);
        while i < b.threads.len()
            invariant
                i <= b.threads@.len(),
                1 <= at <= replies@.len(),
                whole == output_info(current, replies@),
                whole == info_step(
                    b.threads@.skip(i as int),
                    current,
                    replies@,
                    at as int,
                    texts(lines@),
                    lines_if_any(variables),
                    frame,
                ),
            decreases b.threads@.len() - i,
        {
            let t = &b.threads[i];
            let is_current = current.is_some() && current.unwrap() == t.id;
            let ghost before = texts(lines@);
            proof {
                assert(b.threads@.skip(i as int)[0] == *t);
                assert(b.threads@.skip(i as int).skip(1) =~= b.threads@.skip(i + 1));
            }
            i = i + 1;
            if at >= replies.len() {
                return OutputRun {
                    variables,
                    frame,
                    next: OutputNext::Ask(
                        RequestArguments::stackTrace(
                            StackTraceArguments {
                                format: None,
                                levels: None,
                                start_frame: None,
                                thread_id: t.id,
                            },
                        ),
                    ),
                };
            }
            if !replies[at].success {
                return halt(frame, OutputNext::Unsuccessful);
            }
            variables = None;
            if is_current {
                lines.push(t.name.clone().concat(" (*)"));
                assert(texts(lines@) =~= before.push(t.name@ + " (*)"@));
            }
            match &replies[at].result {
                ResponseResult::Error { .. } => {
                    at = at + 1;
                },
                ResponseResult::Success { body: ResponseBody::stackTrace(s) } => {
                    if s.stack_frames.len() == 0 {
                        return halt(frame, OutputNext::NoFrames);
                    }
                    if !is_current {
                        lines.push(
                            t.name.clone().concat(" - ").concat(s.stack_frames[0].name.as_str()),
                        );
                        assert(texts(lines@) =~= before.push(
                            t.name@ + " - "@ + s.stack_frames@[0].name@,
                        ));
                        at = at + 1;
                    } else {
                        let top: i64 = s.stack_frames[0].id;
                        frame = Some(top);
                        match process_variables(top, replies, at + 1) {
                            VariablesRun::Ask(request) => {
                                return halt(frame, OutputNext::Ask(request));
                            },
                            VariablesRun::Unsuccessful => {
                                return halt(frame, OutputNext::Unsuccessful);
                            },
                            VariablesRun::Complete(content, next) => {
                                at = next;
                                if next == replies.len() {
                                    variables = content;
                                }
                            },
                        }
                        if let Some(missing) = show_frames(
                            &s.stack_frames,
                            " (dissassembled)",
                            &mut lines,
                        ) {
                            return OutputRun {
                                variables,
                                frame,
                                next: OutputNext::NoSource(missing),
                            };
                        }
                    }
                },
                _ => {
                    if !is_current {
                        lines.push(t.name.clone());
                        assert(texts(lines@) =~= before.push(t.name@));
                    }
                    at = at + 1;
                },
            }
        }
    }
    OutputRun { variables, frame, next: OutputNext::Show(lines) }
}

/// The lines that name each thread with its top frame.
pub open spec fn named_threads(threads: Seq<Thread>, replies: Seq<Response>) -> Seq<Seq<char>> {
    Seq::new(
        threads.len(),
        |i: int| threads[i].name@ + " - "@ + frames_in(replies[i])->0[0].name@,
    )
}

/// Whether all the answers list frames.
pub open spec fn all_list_frames(replies: Seq<Response>) -> bool {
    forall|i: int|
        0 <= i < replies.len() ==> #[trigger] replies[i].success && frames_in(replies[i]) is Some
            && frames_in(replies[i])->0.len() > 0
}

proof fn info_step_names(
    threads: Seq<Thread>,
    replies: Seq<Response>,
    at: int,
    lines: Seq<Seq<char>>,
    frame: Option<i64>,
    variables: Option<Seq<Seq<char>>>,
)
    requires
        1 <= at <= replies.len(),
        replies.len() - at <= threads.len(),
        all_list_frames(replies.skip(1)),
    ensures
        ({
            let step = info_step(threads, None, replies, at, lines, variables, frame);
            let answered = replies.len() - at;
            if answered < threads.len() {
                step.next == NextView::Ask(ask_frames(threads[answered].id))
            } else {
                step.next == NextView::Show(lines + named_threads(threads, replies.skip(at)))
            }
        }),
    decreases threads.len(),
{
    if threads.len() == 0 {
        assert(lines + named_threads(threads, replies.skip(at)) =~= lines);
    } else if at < replies.len() {
        let rest = threads.skip(1);
        assert(replies.skip(1)[at - 1] == replies[at]);
        let line = threads[0].name@ + " - "@ + frames_in(replies[at])->0[0].name@;
        info_step_names(rest, replies, at + 1, lines.push(line), frame, None);
        assert(replies.skip(at)[0] == replies[at]);
        assert forall|i: int| 0 <= i < rest.len() implies rest[i] == threads[i + 1] && (i
            < replies.len() - at - 1 ==> #[trigger] replies.skip(at + 1)[i] == replies.skip(at)[i
            + 1]) by {}
        if replies.len() - at == threads.len() {
            let named = named_threads(threads, replies.skip(at));
            let fewer = named_threads(rest, replies.skip(at + 1));
            assert(named.len() == fewer.len() + 1);
            assert forall|i: int| 0 <= i < fewer.len() implies fewer[i] == named[i + 1] by {
                assert(replies.skip(at + 1)[i] == replies.skip(at)[i + 1]);
                assert(rest[i] == threads[i + 1]);
            }
            assert(lines.push(line) + fewer =~= lines + named);
        }
    }
}

/// While the program runs each thread is asked for its frames once, in order, and
/// in the end every thread stands there with the name of its top frame.
pub proof fn running_threads_are_named(threads: Seq<Thread>, replies: Seq<Response>)
    requires
        1 <= replies.len() <= threads.len() + 1,
        replies[0].success,
        threads_in(replies[0]) == Some(threads),
        all_list_frames(replies.skip(1)),
    ensures
        ({
            let answered = replies.len() - 1;
            if answered < threads.len() {
                output_info(None, replies).next == NextView::Ask(ask_frames(threads[answered].id))
            } else {
                output_info(None, replies).next == NextView::Show(
                    named_threads(threads, replies.skip(1)),
                )
            }
        }),
{
    info_step_names(threads, replies, 1, Seq::empty(), None, None);
    assert(Seq::<Seq<char>>::empty() + named_threads(threads, replies.skip(1)) =~= named_threads(
        threads,
        replies.skip(1),
    ));
}

/// What the session knows of the program.
#[derive(Clone, Copy, Debug, PartialEq, Eq, Structural)]
pub struct DebuggerData {
    pub current_thread_id: Option<i64>,
    pub current_frame_id: Option<i64>,
    /// Somebody waits for the program to stop, to go on from there.
    pub stop_awaited: bool,
}

impl DebuggerData {
    /// Nothing is known yet.
    pub fn new() -> (r: DebuggerData)
        ensures
            r == (DebuggerData {
                current_thread_id: None,
                current_frame_id: None,
                stop_awaited: false,
            }),
    {
        DebuggerData { current_thread_id: None, current_frame_id: None, stop_awaited: false }
    }

    /// Notes that the program stopped in a thread.
    pub fn handle_event_stopped(&mut self, thread_id: Option<i64>) -> (r: StoppedAction)
        ensures
            r == (if old(self).stop_awaited {
                StoppedAction::GoOn
            } else {
                StoppedAction::Show
            }),
            *final(self) == (DebuggerData {
                current_thread_id: thread_id,
                stop_awaited: false,
                ..*old(self)
            }),
    {
        self.current_thread_id = thread_id;
        if self.stop_awaited {
            self.stop_awaited = false;
            StoppedAction::GoOn
        } else {
            StoppedAction::Show
        }
    }
}

/// What an event is about.
#[derive(Debug)]
pub enum DebugPyEvent {
    Nothing,
    /// This is to be logged.
    Log(String),
    /// The program stopped in this thread.
    Stopped(Option<i64>),
    /// The program goes on: the threads are to be shown again.
    Continued,
    /// A breakpoint changed.
    Breakpoint(Breakpoint),
}

/// What an event is about. Only four types of events matter.
pub fn handle_event(event: EventBody) -> (r: DebugPyEvent)
    ensures
        match event {
            EventBody::output(output) => r matches DebugPyEvent::Log(text) && text@ == "Debugger: "@
                + trimmed_end(output.output@),
            EventBody::stopped(stopped) => r == DebugPyEvent::Stopped(stopped.thread_id),
            EventBody::continued(_) => r == DebugPyEvent::Continued,
            EventBody::breakpoint(changed) => r == DebugPyEvent::Breakpoint(changed.breakpoint),
            _ => r == DebugPyEvent::Nothing,
        },
{
    match event {
        EventBody::output(output) => {
            let text = trim_end(output.output.as_str());
            DebugPyEvent::Log("Debugger: ".to_string().concat(text.as_str()))
        },
        EventBody::stopped(stopped) => DebugPyEvent::Stopped(stopped.thread_id),
        EventBody::continued(_) => DebugPyEvent::Continued,
        EventBody::breakpoint(changed) => DebugPyEvent::Breakpoint(changed.breakpoint),
        _ => DebugPyEvent::Nothing,
    }
}

/// Where the adapter put a breakpoint.
#[derive(Clone, Copy, Debug, PartialEq, Eq, Structural)]
pub struct Placement {
    pub id: i64,
    /// The line that it was asked for.
    pub line_number: i64,
    pub actual_line_number: Option<i64>,
}

/// What is wrong with an answer about breakpoints.
#[derive(Clone, Copy, Debug, PartialEq, Eq, Structural)]
pub enum PlacementError {
    /// The breakpoint at this position has no id.
    NoId(usize),
    /// There are more breakpoints than lines.
    TooMany,
}

/// The first breakpoint from `from` on that has no id.
pub open spec fn without_id(reports: Seq<Breakpoint>, from: int) -> Option<int>
    decreases reports.len() - from,
{
    if from < 0 || from >= reports.len() {
        None
    } else if reports[from].id is None {
        Some(from)
    } else {
        without_id(reports, from + 1)
    }
}

/// Where the adapter put the breakpoints that were asked for on these lines: each
/// report is about the line at its position.
pub fn placements(line_numbers: &Vec<i64>, reports: &Vec<Breakpoint>) -> (r: Result<
    Vec<Placement>,
    PlacementError,
>)
    ensures
        match r {
            Ok(placed) => without_id(reports@, 0) is None && reports@.len() <= line_numbers@.len()
                && placed@ == Seq::new(
                reports@.len(),
                |i: int|
                    Placement {
                        id: reports@[i].id->0,
                        line_number: line_numbers@[i],
                        actual_line_number: reports@[i].line,
                    },
            ),
            Err(PlacementError::NoId(i)) => without_id(reports@, 0) == Some(i as int),
            Err(PlacementError::TooMany) => without_id(reports@, 0) is None && reports@.len()
                > line_numbers@.len(),
        },
{
    let mut i: usize = 0;
    while i < reports.len()
        invariant
            i <= reports@.len(),
            without_id(reports@, 0) == without_id(reports@, i as int),
            forall|j: int| 0 <= j < i ==> #[trigger] reports@[j].id is Some,
        decreases reports@.len() - i,
    {
        if reports[i].id.is_none() {
            return Err(PlacementError::NoId(i));
        }
        i = i + 1;
    }
    if reports.len() > line_numbers.len() {
        return Err(PlacementError::TooMany);
    }
    let mut placed: Vec<Placement> = Vec::new();
    let mut k: usize = 0;
    while k < reports.len()
        invariant
            k <= reports@.len() <= line_numbers@.len(),
            forall|j: int| 0 <= j < reports@.len() ==> #[trigger] reports@[j].id is Some,
            placed@.len() == k,
            forall|j: int|
                0 <= j < k ==> #[trigger] placed@[j] == (Placement {
                    id: reports@[j].id->0,
                    line_number: line_numbers@[j],
                    actual_line_number: reports@[j].line,
                }),
        decreases reports@.len() - k,
    {
        placed.push(
            Placement {
                id: reports[k].id.unwrap(),
                line_number: line_numbers[k],
                actual_line_number: reports[k].line,
            },
        );
        k = k + 1;
    }
    Ok(placed)
}

/// How often a breakpoint that an event is about is looked for, at most.
pub const LOOKUP_ATTEMPTS: u32 = 100;

/// For how many milliseconds is waited when it was not found.
pub const LOOKUP_PAUSE_MILLIS: u64 = 100;

/// Whether a breakpoint is looked for once more, after so many times in vain.
pub fn look_again(failed: u32) -> (r: bool)
    ensures
        r == (failed < LOOKUP_ATTEMPTS - 1),
{
    failed < LOOKUP_ATTEMPTS - 1
}

/// The version of debugpy that this session downloads.
pub const VERSION: &'static str = "1.6.0";

/// Where the adapter logs.
#[derive(Debug)]
pub enum AdapterLog {
    Nowhere,
    /// In this directory.
    Directory(String),
    Stderr,
}

/// The arguments that start the adapter in a directory, on a port.
pub fn adapter_arguments(directory: String, port: u16, log: &AdapterLog) -> (r: Vec<String>)
    ensures
        texts(r@) == seq![directory@, "--port"@, decimal(port as nat)] + (match log {
            AdapterLog::Nowhere => Seq::<Seq<char>>::empty(),
            AdapterLog::Directory(d) => seq!["--log-dir="@ + d@],
            AdapterLog::Stderr => seq!["--log-stderr"@],
        }),
{
    let number = unsigned_text(port as u64);
    let mut r: Vec<String> = vec![directory, "--port".to_string(), number];
    let ghost start = seq![directory@, "--port"@, decimal(port as nat)];
    assert(texts(r@) =~= start);
    match log {
        AdapterLog::Nowhere => {
            assert(texts(r@) =~= start + Seq::<Seq<char>>::empty());
        },
        AdapterLog::Directory(d) => {
            r.push("--log-dir=".to_string().concat(d.as_str()));
            assert(texts(r@) =~= start + seq!["--log-dir="@ + d@]);
        },
        AdapterLog::Stderr => {
            r.push("--log-stderr".to_string());
            assert(texts(r@) =~= start + seq!["--log-stderr"@]);
        },
    }
    r
}

/// The command in a terminal, as the user sees it.
pub fn debug_program_str(command: &str, command_args: &Vec<String>) -> (r: String)
    ensures
        r@ == command@ + join(texts(command_args@), " "@),
{
    let args = join_texts(command_args, " ");
    command.to_string().concat(args.as_str())
}

/// What the log says before the adapter is started.
pub fn launch_notice(command: &str, command_args: &Vec<String>) -> (r: String)
    ensures
        r@ == "Launching process "@ + debug_quoted(command@) + " with debugpy and args: "@
            + debug_listed(texts(command_args@)),
{
    let quoted = debug_text(command);
    let args = debug_list(command_args);
    "Launching process ".to_string().concat(quoted.as_str()).concat(
        " with debugpy and args: ",
    ).concat(args.as_str())
}

/// A step of starting a program.
#[derive(Debug)]
pub enum InitAction {
    /// Send this and wait for the answer.
    Ask(RequestArguments),
    /// Send this.
    Send(RequestArguments),
    /// Set the breakpoints of this file.
    SetBreakpoints(String),
    /// Wait until the program runs in its terminal.
    AwaitTerminal,
}

/// Whether these are the steps of starting a program: debugpy learns of this
/// client, of the program and that no functions or exceptions stop it, then of the
/// breakpoints, and when the program runs in its terminal, that this was all.
pub open spec fn starts(
    actions: Seq<InitAction>,
    args: Seq<Seq<char>>,
    cwd: Seq<char>,
    path: Seq<char>,
    files: Seq<String>,
) -> bool {
    &&& actions.len() == files.len() + 6
    &&& actions[0] matches InitAction::Ask(RequestArguments::initialize(a)) && a.introduces(
        "debugpy"@,
    )
    &&& actions[1] matches InitAction::Send(r) && launches(
        r,
        JsonView::Object(
            map![
                "args"@ => json_texts(args),
                "cwd"@ => JsonView::Str(cwd),
                "env"@ => JsonView::Object(Map::empty()),
                "name"@ => JsonView::Str("debugpy"@),
                "console"@ => JsonView::Str("integratedTerminal"@),
                "type"@ => JsonView::Str("debugpy"@),
                "request"@ => JsonView::Str("launch"@),
                "program"@ => JsonView::Str(path),
                "stopOnEntry"@ => JsonView::Bool(true),
            ],
        ),
    )
    &&& actions[2] matches InitAction::Send(RequestArguments::setFunctionBreakpoints(a))
        && a.breakpoints@.len() == 0
    &&& actions[3] matches InitAction::Send(RequestArguments::setExceptionBreakpoints(a))
        && a.filters@.len() == 0 && a.exception_options is None && a.filter_options is None
    &&& forall|i: int|
        0 <= i < files.len() ==> #[trigger] actions[i + 4] == InitAction::SetBreakpoints(files[i])
    &&& actions[actions.len() - 2] == InitAction::AwaitTerminal
    &&& actions[actions.len() - 1] == InitAction::Ask(RequestArguments::configurationDone(None))
}

/// The steps of starting a program without an environment of its own, where
/// breakpoints stand in these files.
pub fn init_process(
    command_args: Vec<String>,
    cwd: String,
    path: String,
    files: &Vec<String>,
) -> (r: Vec<InitAction>)
    ensures
        starts(r@, texts(command_args@), cwd@, path@, files@),
{
    let program = Program { args: command_args, cwd, env: StrMap::new(), path };
    assert(program.env@.map_values(|s: String| JsonView::Str(s@)) =~= Map::<
        Seq<char>,
        JsonView,
    >::empty());
    let launch = program.debugpy_request();
    let mut r: Vec<InitAction> = Vec::new();
    r.push(
        InitAction::Ask(
            RequestArguments::initialize(InitializeRequestArguments::new("debugpy".to_string())),
        ),
    );
    r.push(InitAction::Send(launch));
    r.push(
        InitAction::Send(
            RequestArguments::setFunctionBreakpoints(
                SetFunctionBreakpointsArguments { breakpoints: Vec::new() },
            ),
        ),
    );
    r.push(
        InitAction::Send(
            RequestArguments::setExceptionBreakpoints(
                SetExceptionBreakpointsArguments {
                    exception_options: None,
                    filter_options: None,
                    filters: Vec::new(),
                },
            ),
        ),
    );
    let ghost start = r@;
    let mut i: usize = 0;
    while i < files.len()
        invariant
            i <= files@.len(),
            start.len() == 4,
            r@.len() == i + 4,
            r@.take(4) =~= start,
            forall|j: int|
                0 <= j < i ==> #[trigger] r@[j + 4] == InitAction::SetBreakpoints(files@[j]),
        decreases files@.len() - i,
    {
        let ghost before = r@;
        r.push(InitAction::SetBreakpoints(files[i].clone()));
        assert(r@.take(4) =~= before.take(4));
        i = i + 1;
    }
    let ghost listed = r@;
    r.push(InitAction::AwaitTerminal);
    r.push(InitAction::Ask(RequestArguments::configurationDone(None)));
    assert forall|j: int| 0 <= j < 4 implies r@[j] == start[j] by {
        assert(start[j] == listed.take(4)[j]);
    }
    assert(r@[0] == start[0] && r@[1] == start[1] && r@[2] == start[2] && r@[3] == start[3]);
    r
}

/// A message gets the next number, and no number is given twice in a row. Where its
/// answer is awaited, that number is awaited; what was awaited before still is.
pub proof fn message_gets_the_next_number(
    before: FramedSession,
    type_: ProtocolMessageType,
    awaited: bool,
    after: FramedSession,
    r: ProtocolMessage,
    other: u32,
)
    requires
        exists|s: &mut FramedSession|
            *s == before && *final(s) == after && #[trigger] call_ensures(
                FramedSession::outgoing,
                (s, type_, awaited),
                r,
            ),
    ensures
        r.type_ == type_,
        r.seq matches Either::First(n) && n == before.ids.next,
        before.ids.next < u32::MAX ==> after.ids.next == before.ids.next + 1,
        before.ids.next == u32::MAX ==> after.ids.next == 0,
        after.pending@.contains(other) == (before.pending@.contains(other) || (awaited && other
            == before.ids.next)),
{
}

/// An answer that went well is handed to who waits for the request with its number, and
/// to nobody else, with what it holds. It is awaited no more; all others still are. An
/// answer that did not go well, or that nobody awaits, is ignored.
pub proof fn answer_goes_to_who_waits_for_it(
    before: FramedSession,
    message: ProtocolMessage,
    response: Response,
    id: u32,
    after: FramedSession,
    r: SessionAction,
    other: u32,
)
    requires
        message.type_ == ProtocolMessageType::Response(response),
        response.request_seq == Either::<u32, String>::First(id),
        exists|s: &mut FramedSession|
            *s == before && *final(s) == after && #[trigger] call_ensures(
                FramedSession::incoming,
                (s, StreamItem::Message(message)),
                r,
            ),
    ensures
        response.success && before.pending@.contains(id) ==> r == SessionAction::Deliver(
            id,
            response.result,
        ),
        !(response.success && before.pending@.contains(id)) ==> r == SessionAction::Ignore,
        after.pending@.contains(other) == (before.pending@.contains(other) && !(response.success
            && other == id)),
        after.ids == before.ids,
{
}

/// A request of the adapter is to be answered under its number, an event is handed on as
/// it is, and neither changes what is awaited.
pub proof fn requests_and_events_are_handed_on(
    before: FramedSession,
    message: ProtocolMessage,
    after: FramedSession,
    r: SessionAction,
)
    requires
        exists|s: &mut FramedSession|
            *s == before && *final(s) == after && #[trigger] call_ensures(
                FramedSession::incoming,
                (s, StreamItem::Message(message)),
                r,
            ),
    ensures
        message.type_ matches ProtocolMessageType::Request(args) ==> (message.seq matches
            Either::First(n) ==> r == SessionAction::Request(n, args)) && after.pending@
            == before.pending@,
        message.type_ matches ProtocolMessageType::Event(event) ==> r == SessionAction::Event(event)
            && after.pending@ == before.pending@,
{
}

proof fn without_id_is_first(reports: Seq<Breakpoint>, from: int)
    requires
        0 <= from,
    ensures
        match without_id(reports, from) {
            Some(i) => from <= i < reports.len() && reports[i].id is None && forall|j: int|
                from <= j < i ==> (#[trigger] reports[j]).id is Some,
            None => forall|j: int| from <= j < reports.len() ==> (#[trigger] reports[j]).id is Some,
        },
    decreases reports.len() - from,
{
    if from < reports.len() && reports[from].id is Some {
        without_id_is_first(reports, from + 1);
    }
}

/// Each report is about the line that was asked for at its position: the breakpoint on
/// that line has the id of the report and was put where the report tells.
pub proof fn each_report_places_its_line(
    lines: &Vec<i64>,
    reports: &Vec<Breakpoint>,
    r: Result<Vec<Placement>, PlacementError>,
)
    requires
        call_ensures(placements, (lines, reports), r),
    ensures
        match r {
            Ok(placed) => {
                &&& reports@.len() <= lines@.len()
                &&& placed@.len() == reports@.len()
                &&& forall|i: int|
                    #![trigger placed@[i]]
                    0 <= i < reports@.len() ==> placed@[i].line_number == lines@[i]
                        && placed@[i].actual_line_number == reports@[i].line && reports@[i].id
                        == Some(placed@[i].id)
            },
            Err(PlacementError::NoId(i)) => i < reports@.len() && reports@[i as int].id is None
                && forall|j: int| 0 <= j < i ==> (#[trigger] reports@[j]).id is Some,
            Err(PlacementError::TooMany) => reports@.len() > lines@.len(),
        },
{
    without_id_is_first(reports@, 0);
}

/// Starting a program tells debugpy of this client first, launches the program with all
/// its arguments, sets the breakpoints of every file, in order, and only when the program
/// runs in its terminal tells that this was all.
pub proof fn program_is_started_in_order(
    args: Vec<String>,
    cwd: String,
    path: String,
    files: &Vec<String>,
    program: Program,
    r: Vec<InitAction>,
    i: int,
)
    requires
        program.args == args && program.cwd == cwd && program.path == path,
        call_ensures(init_process, (args, cwd, path, files), r),
    ensures
        r@.len() == files@.len() + 6,
        r@[0] matches InitAction::Ask(RequestArguments::initialize(_)),
        r@[1] matches InitAction::Send(q) && crate::debuggers::launches_program(q, program),
        0 <= i < files@.len() ==> r@[i + 4] == InitAction::SetBreakpoints(files@[i]),
        r@[r@.len() - 2] == InitAction::AwaitTerminal,
        r@[r@.len() - 1] == InitAction::Ask(RequestArguments::configurationDone(None)),
{
    crate::debuggers::launch_keys_differ();
    crate::debuggers::launched_arguments(program);
}

/// Where going through the threads stands when the frames of one are to be asked for, and
/// what follows on the answer to it.
ghost struct InfoStanding {
    k: int,
    at: int,
    lines: Seq<Seq<char>>,
    variables: Option<Seq<Seq<char>>>,
    frame: Option<i64>,
}

proof fn info_step_stands(
    threads: Seq<Thread>,
    current: Option<i64>,
    replies: Seq<Response>,
    more: Seq<Response>,
    at: int,
    lines: Seq<Seq<char>>,
    variables: Option<Seq<Seq<char>>>,
    other_variables: Option<Seq<Seq<char>>>,
    frame: Option<i64>,
) -> (s: InfoStanding)
    requires
        0 <= at <= replies.len(),
        replies.is_prefix_of(more),
        info_step(threads, current, replies, at, lines, variables, frame).next is Ask,
    ensures
        0 <= s.k < threads.len(),
        at <= s.at <= replies.len(),
        info_step(threads, current, more, at, lines, other_variables, frame) == info_step(
            threads.skip(s.k),
            current,
            more,
            s.at,
            s.lines,
            s.variables,
            s.frame,
        ),
        ({
            let q = info_step(threads, current, replies, at, lines, variables, frame);
            if s.at == replies.len() {
                q.next == NextView::Ask(ask_frames(threads[s.k].id))
            } else {
                &&& current == Some(threads[s.k].id)
                &&& replies[s.at].success
                &&& replies[s.at].result matches ResponseResult::Success {
                    body: ResponseBody::stackTrace(b),
                }
                &&& b.stack_frames@.len() > 0
                &&& q.frame == Some(b.stack_frames@[0].id)
                &&& variables_step(b.stack_frames@[0].id, replies, s.at + 1) matches
                    VariablesStep::Ask(x)
                &&& q.next == NextView::Ask(x)
            }
        }),
    decreases threads.len(),
{
    let t = threads[0];
    let rest = threads.skip(1);
    let here = InfoStanding { k: 0, at, lines, variables: other_variables, frame };
    assert(threads.skip(0) =~= threads);
    if at >= replies.len() {
        here
    } else {
        assert(more[at] == replies[at]);
        let is_current = current == Some(t.id);
        let listed = if is_current {
            lines.push(t.name@ + " (*)"@)
        } else {
            lines
        };
        let s = match replies[at].result {
            ResponseResult::Error { .. } => {
                info_step_stands(
                    rest,
                    current,
                    replies,
                    more,
                    at + 1,
                    listed,
                    None,
                    None,
                    frame,
                )
            },
            ResponseResult::Success { body: ResponseBody::stackTrace(b) } => {
                let frames = b.stack_frames@;
                if !is_current {
                    info_step_stands(
                        rest,
                        current,
                        replies,
                        more,
                        at + 1,
                        lines.push(t.name@ + " - "@ + frames[0].name@),
                        None,
                        None,
                        frame,
                    )
                } else {
                    crate::output::variables_step_settled(frames[0].id, replies, more, at + 1);
                    match variables_step(frames[0].id, replies, at + 1) {
                        VariablesStep::Complete(content, next) => {
                            let shown = if next == replies.len() {
                                content
                            } else {
                                None
                            };
                            let other_shown = if next == more.len() {
                                content
                            } else {
                                None
                            };
                            info_step_stands(
                                rest,
                                current,
                                replies,
                                more,
                                next,
                                listed + frame_lines(frames, " (dissassembled)"@),
                                shown,
                                other_shown,
                                Some(frames[0].id),
                            )
                        },
                        _ => InfoStanding { k: -1, ..here },
                    }
                }
            },
            ResponseResult::Success { .. } => {
                info_step_stands(
                    rest,
                    current,
                    replies,
                    more,
                    at + 1,
                    if is_current {
                        listed
                    } else {
                        lines.push(t.name@)
                    },
                    None,
                    None,
                    frame,
                )
            },
        };
        if s.k >= 0 {
            assert(rest.skip(s.k) =~= threads.skip(s.k + 1));
            assert(rest[s.k] == threads[s.k + 1]);
        }
        InfoStanding { k: s.k + 1, ..s }
    }
}

/// Whether `next` asks the thread at position `k` for all its frames, and where there is
/// no such thread shows what is known.
pub open spec fn asks_thread(threads: Seq<Thread>, k: int, next: OutputNext) -> bool {
    if k < threads.len() {
        next == OutputNext::Ask(
            RequestArguments::stackTrace(
                StackTraceArguments {
                    format: None,
                    levels: None,
                    start_frame: None,
                    thread_id: threads[k].id,
                },
            ),
        )
    } else {
        next is Show
    }
}

/// First the threads are asked for, and then the first of them for its frames.
pub proof fn debugpy_threads_are_asked_for_first(
    current: Option<i64>,
    replies: &Vec<Response>,
    threads: Seq<Thread>,
    r: OutputRun,
)
    requires
        call_ensures(process_output_info, (current, replies), r),
        replies@.len() <= 1,
        replies@.len() == 1 ==> replies@[0].success && (replies@[0].result matches
            ResponseResult::Success { body: ResponseBody::threads(b) } && b.threads@ == threads),
    ensures
        replies@.len() == 0 ==> r.next == OutputNext::Ask(RequestArguments::threads(None)),
        replies@.len() == 1 ==> asks_thread(threads, 0, r.next),
{
}

/// When a thread lists its frames, then for the current one the scopes of its first frame
/// are asked for, which is the current frame, and for any other the next thread is asked.
pub proof fn debugpy_top_frame_is_asked_for_its_scopes(
    current: Option<i64>,
    replies: &Vec<Response>,
    more: &Vec<Response>,
    threads: Seq<Thread>,
    thread_id: i64,
    frames: Seq<crate::schema::StackFrame>,
    before: OutputRun,
    r: OutputRun,
)
    requires
        call_ensures(process_output_info, (current, replies), before),
        call_ensures(process_output_info, (current, more), r),
        replies@.len() > 0,
        replies@[0].result matches ResponseResult::Success { body: ResponseBody::threads(b) }
            && b.threads@ == threads,
        before.next matches OutputNext::Ask(RequestArguments::stackTrace(a)) && a.thread_id
            == thread_id,
        more@.len() == replies@.len() + 1,
        replies@.is_prefix_of(more@),
        more@.last().success,
        more@.last().result matches ResponseResult::Success { body: ResponseBody::stackTrace(b) }
            && b.stack_frames@ == frames,
        frames.len() > 0,
    ensures
        current == Some(thread_id) ==> r.next == OutputNext::Ask(
            RequestArguments::scopes(crate::schema::ScopesArguments { frame_id: frames[0].id }),
        ) && r.frame == Some(frames[0].id),
        current != Some(thread_id) ==> exists|k: int|
            0 <= k < threads.len() && (#[trigger] threads[k]).id == thread_id && asks_thread(
                threads,
                k + 1,
                r.next,
            ),
{
    let s = info_step_stands(
        threads,
        current,
        replies@,
        more@,
        1,
        Seq::empty(),
        None,
        None,
        None,
    );
    assert(more@[0] == replies@[0]);
    if s.at < replies@.len() {
        if let ResponseResult::Success { body: ResponseBody::stackTrace(b) } =
            replies@[s.at].result {
            crate::output::asks_of_variables(b.stack_frames@[0].id, replies@, s.at + 1);
        }
    }
    assert(more@[s.at] == more@.last());
    let left = threads.skip(s.k);
    assert(left[0] == threads[s.k]);
    let rest = left.skip(1);
    if rest.len() > 0 {
        assert(rest[0] == threads[s.k + 1]);
    }
    if current != Some(thread_id) {
        let listed = s.lines.push(threads[s.k].name@ + " - "@ + frames[0].name@);
        let then = info_step(rest, current, more@, s.at + 1, listed, None, s.frame);
        assert(info_step(left, current, more@, s.at, s.lines, s.variables, s.frame) == then);
        assert(then == r.view());
        assert(asks_thread(threads, s.k + 1, r.next));
    }
}

/// While the program runs, each thread is asked for its frames in order, and in the end
/// every thread stands there, in order, with the name of its first frame.
pub proof fn every_running_thread_is_named(
    replies: &Vec<Response>,
    threads: Seq<Thread>,
    r: OutputRun,
)
    requires
        call_ensures(process_output_info, (None::<i64>, replies), r),
        1 <= replies@.len() <= threads.len() + 1,
        replies@[0].success,
        replies@[0].result matches ResponseResult::Success { body: ResponseBody::threads(b) }
            && b.threads@ == threads,
        forall|i: int|
            1 <= i < replies@.len() ==> (#[trigger] replies@[i]).success && (replies@[i].result
                matches ResponseResult::Success { body: ResponseBody::stackTrace(b) }
                && b.stack_frames@.len() > 0),
    ensures
        replies@.len() <= threads.len() ==> asks_thread(threads, replies@.len() - 1, r.next),
        replies@.len() == threads.len() + 1 ==> {
            &&& r.next matches OutputNext::Show(lines)
            &&& lines@.len() == threads.len()
            &&& forall|i: int|
                #![trigger lines@[i]]
                0 <= i < threads.len() ==> (replies@[i + 1].result matches ResponseResult::Success {
                    body: ResponseBody::stackTrace(b),
                } && lines@[i]@ == threads[i].name@ + " - "@ + b.stack_frames@[0].name@)
        },
{
    assert forall|i: int| 0 <= i < replies@.skip(1).len() implies #[trigger] replies@.skip(
        1,
    )[i].success && frames_in(replies@.skip(1)[i]) is Some && frames_in(
        replies@.skip(1)[i],
    )->0.len() > 0 by {
        assert(replies@.skip(1)[i] == replies@[i + 1]);
    }
    running_threads_are_named(threads, replies@);
    if replies@.len() == threads.len() + 1 {
        if let OutputNext::Show(lines) = r.next {
            let named = named_threads(threads, replies@.skip(1));
            assert(texts(lines@) == named);
            assert(lines@.len() == texts(lines@).len());
            assert forall|i: int|
                #![trigger lines@[i]]
                0 <= i < threads.len() implies (replies@[i + 1].result matches
                ResponseResult::Success { body: ResponseBody::stackTrace(b) } && lines@[i]@
                == threads[i].name@ + " - "@ + b.stack_frames@[0].name@) by {
                assert(texts(lines@)[i] == lines@[i]@);
                assert(replies@.skip(1)[i] == replies@[i + 1]);
                assert(replies@[i + 1].success);
            }
        }
    }
}

/// When the program stopped, that thread is the current one. Where it stopped is shown,
/// unless somebody waits for it to go on, and then nobody does any more.
pub proof fn debugpy_stopped_thread_is_current(
    before: DebuggerData,
    thread_id: Option<i64>,
    after: DebuggerData,
    r: StoppedAction,
)
    requires
        exists|d: &mut DebuggerData|
            *d == before && *final(d) == after && #[trigger] call_ensures(
                DebuggerData::handle_event_stopped,
                (d, thread_id),
                r,
            ),
    ensures
        after.current_thread_id == thread_id,
        after.current_frame_id == before.current_frame_id,
        !after.stop_awaited,
        r == StoppedAction::GoOn <==> before.stop_awaited,
{
}

/// The four types of events that matter are told apart, and keep what they tell.
pub proof fn debugpy_events_are_told_apart(event: EventBody, r: DebugPyEvent)
    requires
        call_ensures(handle_event, (event,), r),
    ensures
        r is Log <==> event is output,
        r is Continued <==> event is continued,
        r is Stopped <==> event is stopped,
        r is Breakpoint <==> event is breakpoint,
        event matches EventBody::stopped(s) ==> r == DebugPyEvent::Stopped(s.thread_id),
        event matches EventBody::breakpoint(b) ==> r == DebugPyEvent::Breakpoint(b.breakpoint),
{
}

/// The adapter is started in the directory, on the port, and logs only where it is told to.
pub proof fn debugpy_listens_on_the_port(
    directory: String,
    port: u16,
    log: &AdapterLog,
    r: Vec<String>,
)
    requires
        call_ensures(adapter_arguments, (directory, port, log), r),
    ensures
        r@.len() == (if log is Nowhere {
            3int
        } else {
            4int
        }),
        r@[0]@ == directory@,
        r@[1]@ == "--port"@,
        r@[2]@ == decimal(port as nat),
        *log matches AdapterLog::Directory(d) ==> r@[3]@ == "--log-dir="@ + d@,
{
    let all = texts(r@);
    assert(all.len() == r@.len());
    assert forall|i: int| 0 <= i < r@.len() implies (#[trigger] r@[i])@ == all[i] by {}
}

/// What the adapter puts out is logged behind its mark, without the white space at its end.
pub proof fn debugpy_output_is_logged(
    event: crate::schema::OutputEventBody,
    text: &str,
    cut: String,
    r: DebugPyEvent,
)
    requires
        text@ == event.output@,
        call_ensures(trim_end, (text,), cut),
        call_ensures(handle_event, (EventBody::output(event),), r),
    ensures
        r matches DebugPyEvent::Log(line) && line@ == "Debugger: "@ + cut@,
{
}

/// A session begins without a thread, without a frame and with nobody waiting.
pub proof fn debugpy_begins_with_nothing_known(r: DebuggerData)
    requires
        call_ensures(DebuggerData::new, (), r),
    ensures
        r.current_thread_id is None,
        r.current_frame_id is None,
        !r.stop_awaited,
{
}

/// Going through the threads only adds lines.
proof fn info_step_adds(
    threads: Seq<Thread>,
    current: Option<i64>,
    replies: Seq<Response>,
    at: int,
    lines: Seq<Seq<char>>,
    variables: Option<Seq<Seq<char>>>,
    frame: Option<i64>,
)
    requires
        0 <= at,
    ensures
        info_step(threads, current, replies, at, lines, variables, frame).next matches NextView::Show(
            all,
        ) ==> lines.is_prefix_of(all),
    decreases threads.len(),
{
    if threads.len() > 0 && at < replies.len() && replies[at].success {
        let t = threads[0];
        let rest = threads.skip(1);
        let listed = if current == Some(t.id) {
            lines.push(t.name@ + " (*)"@)
        } else {
            lines
        };
        match replies[at].result {
            ResponseResult::Error { .. } => {
                info_step_adds(rest, current, replies, at + 1, listed, None, frame);
            },
            ResponseResult::Success { body: ResponseBody::stackTrace(b) } => {
                let frames = b.stack_frames@;
                if frames.len() > 0 {
                    if current != Some(t.id) {
                        let named = lines.push(t.name@ + " - "@ + frames[0].name@);
                        info_step_adds(rest, current, replies, at + 1, named, None, frame);
                    } else if let VariablesStep::Complete(content, next) = variables_step(
                        frames[0].id,
                        replies,
                        at + 1,
                    ) {
                        crate::output::variables_step_settled(
                            frames[0].id,
                            replies,
                            replies,
                            at + 1,
                        );
                        let shown = if next == replies.len() {
                            content
                        } else {
                            None
                        };
                        let more = listed + frame_lines(frames, " (dissassembled)"@);
                        info_step_adds(
                            rest,
                            current,
                            replies,
                            next,
                            more,
                            shown,
                            Some(frames[0].id),
                        );
                    }
                }
            },
            ResponseResult::Success { .. } => {
                let named = if current == Some(t.id) {
                    listed
                } else {
                    lines.push(t.name@)
                };
                info_step_adds(rest, current, replies, at + 1, named, None, frame);
            },
        }
    }
}

/// The lines of the current thread stand below its name.
proof fn info_step_shows(
    threads: Seq<Thread>,
    current: i64,
    replies: Seq<Response>,
    at: int,
    lines: Seq<Seq<char>>,
    variables: Option<Seq<Seq<char>>>,
    frame: Option<i64>,
    k: int,
    frames: Seq<crate::schema::StackFrame>,
) -> (i: int)
    requires
        0 <= at,
        0 <= k < threads.len(),
        threads[k].id == current,
        forall|j: int| 0 <= j < k ==> (#[trigger] threads[j]).id != current,
        at + k < replies.len(),
        replies[at + k].result matches ResponseResult::Success { body: ResponseBody::stackTrace(b) }
            && b.stack_frames@ == frames,
    ensures
        info_step(threads, Some(current), replies, at, lines, variables, frame).next matches
            NextView::Show(all) ==> 0 <= i < all.len() && all[i] == threads[k].name@ + " (*)"@
            && crate::output::frames_stand_at(all, i + 1, frames, " (dissassembled)"@),
    decreases k,
{
    if !(info_step(threads, Some(current), replies, at, lines, variables, frame).next is Show) {
        0
    } else if k == 0 {
        let next = variables_step(frames[0].id, replies, at + 1)->Complete_1;
        let content = variables_step(frames[0].id, replies, at + 1)->Complete_0;
        crate::output::variables_step_settled(frames[0].id, replies, replies, at + 1);
        crate::output::all_have_sources(frames, 0);
        crate::output::frame_lines_stand(frames, " (dissassembled)"@);
        let own = frame_lines(frames, " (dissassembled)"@);
        let more = lines.push(threads[0].name@ + " (*)"@) + own;
        let shown = if next == replies.len() {
            content
        } else {
            None
        };
        info_step_adds(
            threads.skip(1),
            Some(current),
            replies,
            next,
            more,
            shown,
            Some(frames[0].id),
        );
        let all = info_step(threads, Some(current), replies, at, lines, variables, frame).next->Show_0;
        let from = lines.len() as int;
        assert(more.is_prefix_of(all));
        assert(all[from] == more[from]);
        assert forall|j: int|
            #![trigger frames[j]]
            0 <= j < frames.len() implies all[from + 1 + 2 * j] == "+ "@ + frames[j].name@
            && crate::output::tells_place(
            all[from + 1 + 2 * j + 1],
            frames[j],
            " (dissassembled)"@,
        ) by {
            assert(all[from + 1 + 2 * j] == more[from + 1 + 2 * j]);
            assert(all[from + 1 + 2 * j + 1] == more[from + 1 + 2 * j + 1]);
            assert(more[from + 1 + 2 * j] == own[2 * j]);
            assert(more[from + 1 + 2 * j + 1] == own[2 * j + 1]);
        }
        from
    } else {
        let t = threads[0];
        let rest = threads.skip(1);
        assert(rest[k - 1] == threads[k]);
        assert forall|j: int| 0 <= j < k - 1 implies (#[trigger] rest[j]).id != current by {
            assert(rest[j] == threads[j + 1]);
        }
        let named = match replies[at].result {
            ResponseResult::Error { .. } => lines,
            ResponseResult::Success { body: ResponseBody::stackTrace(b) } => lines.push(
                t.name@ + " - "@ + b.stack_frames@[0].name@,
            ),
            ResponseResult::Success { .. } => lines.push(t.name@),
        };
        info_step_shows(rest, current, replies, at + 1, named, None, frame, k - 1, frames)
    }
}

/// When the program has stopped, the thread that it stopped in stands there with a mark,
/// and below it each of its frames, in order, with its place.
pub proof fn debugpy_frames_of_the_stopped_thread_are_shown(
    current: i64,
    replies: &Vec<Response>,
    threads: Seq<Thread>,
    k: int,
    frames: Seq<crate::schema::StackFrame>,
    r: OutputRun,
)
    requires
        call_ensures(process_output_info, (Some(current), replies), r),
        replies@.len() > 0,
        replies@[0].result matches ResponseResult::Success { body: ResponseBody::threads(b) }
            && b.threads@ == threads,
        0 <= k < threads.len(),
        threads[k].id == current,
        forall|j: int| 0 <= j < k ==> (#[trigger] threads[j]).id != current,
        1 + k < replies@.len(),
        replies@[1 + k].result matches ResponseResult::Success { body: ResponseBody::stackTrace(b) }
            && b.stack_frames@ == frames,
    ensures
        r.next matches OutputNext::Show(lines) ==> exists|i: int|
            0 <= i < lines@.len() && (#[trigger] lines@[i])@ == threads[k].name@ + " (*)"@
                && crate::output::frames_stand_at(
                texts(lines@),
                i + 1,
                frames,
                " (dissassembled)"@,
            ),
{
    let i = info_step_shows(
        threads,
        current,
        replies@,
        1,
        Seq::empty(),
        None,
        None,
        k,
        frames,
    );
    if let OutputNext::Show(lines) = r.next {
        assert(r.view().next == NextView::Show(texts(lines@)));
        assert(texts(lines@).len() == lines@.len());
        assert(texts(lines@)[i] == lines@[i]@);
    }
}

/// Whatever was asked, a failed answer to it ends the display, and is told.
pub proof fn debugpy_failed_answer_ends_the_display(
    current: Option<i64>,
    replies: &Vec<Response>,
    more: &Vec<Response>,
    before: OutputRun,
    r: OutputRun,
)
    requires
        call_ensures(process_output_info, (current, replies), before),
        call_ensures(process_output_info, (current, more), r),
        before.next is Ask,
        replies@.is_prefix_of(more@),
        more@.len() == replies@.len() + 1,
        !more@.last().success,
    ensures
        r.next is Unsuccessful,
        r.variables is None,
{
    if replies@.len() > 0 {
        assert(more@[0] == replies@[0]);
        let threads = threads_in(replies@[0])->0;
        let s = info_step_stands(
            threads,
            current,
            replies@,
            more@,
            1,
            Seq::empty(),
            None,
            None,
            None,
        );
        assert(threads.skip(s.k)[0] == threads[s.k]);
        if s.at < replies@.len() {
            assert(more@[s.at] == replies@[s.at]);
            if let ResponseResult::Success { body: ResponseBody::stackTrace(b) } =
                replies@[s.at].result {
                crate::output::failed_answer_ends_variables(
                    b.stack_frames@[0].id,
                    replies@,
                    more@,
                    s.at + 1,
                );
            }
        } else {
            assert(more@[s.at] == more@.last());
        }
    }
}

} // verus!
