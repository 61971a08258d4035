//! What the output windows show of a stopped program: its threads with their
//! frames, and the variables of a frame. The adapter is asked step by step; at
//! each step what to do next is a function of the answers so far.

use crate::number::{decimal_int, signed_text};
use crate::protocol::{RequestArguments, Response, ResponseBody, ResponseResult};
use crate::schema::{
    Scope, ScopesArguments, StackFrame, StackTraceArguments, Thread, Variable, VariablesArguments,
};
use crate::text::{debug_quoted, debug_text, texts};
use std::collections::HashSet;
use vstd::prelude::*;

verus! {

/// The request for all the frames of a thread.
pub open spec fn ask_frames(thread_id: i64) -> RequestArguments {
    RequestArguments::stackTrace(
        StackTraceArguments { format: None, levels: None, start_frame: None, thread_id },
    )
}

/// The request for the scopes of a frame.
pub open spec fn ask_scopes(frame_id: i64) -> RequestArguments {
    RequestArguments::scopes(ScopesArguments { frame_id })
}

/// The request for the variables of a scope.
pub open spec fn ask_variables(variables_reference: i64) -> RequestArguments {
    RequestArguments::variables(
        VariablesArguments {
            count: None,
            filter: None,
            format: None,
            start: None,
            variables_reference,
        },
    )
}

/// The threads that an answer lists, if it does.
pub open spec fn threads_in(r: Response) -> Option<Seq<Thread>> {
    match r.result {
        ResponseResult::Success { body: ResponseBody::threads(b) } => Some(b.threads@),
        _ => None,
    }
}

/// The frames that an answer lists, if it does.
pub open spec fn frames_in(r: Response) -> Option<Seq<StackFrame>> {
    match r.result {
        ResponseResult::Success { body: ResponseBody::stackTrace(b) } => Some(b.stack_frames@),
        _ => None,
    }
}

/// The scopes that an answer lists, if it does.
pub open spec fn scopes_in(r: Response) -> Option<Seq<Scope>> {
    match r.result {
        ResponseResult::Success { body: ResponseBody::scopes(b) } => Some(b.scopes@),
        _ => None,
    }
}

/// The variables that an answer lists, none if it lists none.
pub open spec fn variables_in(r: Response) -> Seq<Variable> {
    match r.result {
        ResponseResult::Success { body: ResponseBody::variables(b) } => b.variables@,
        _ => Seq::empty(),
    }
}

/// The line for a variable: its type, if it is known, its name and its value.
pub open spec fn variable_line(v: Variable) -> Seq<char> {
    match v.type_ {
        Some(t) => "+ ("@ + t@ + ") "@ + v.name@ + " = "@ + debug_quoted(v.value@),
        None => "+ "@ + v.name@ + " = "@ + debug_quoted(v.value@),
    }
}

/// Where asking for the variables of a frame stands.
#[verifier::ext_equal]
pub enum VariablesStep {
    /// This is to be asked next.
    Ask(RequestArguments),
    /// An answer told of a failure.
    Unsuccessful,
    /// All is known after this many answers. There is nothing to show where the
    /// adapter listed no scopes.
    Complete(Option<Seq<Seq<char>>>, int),
}

/// Asking for the variables of each scope in turn, from the answer `at` on.
pub open spec fn scopes_step(
    scopes: Seq<Scope>,
    replies: Seq<Response>,
    at: int,
    lines: Seq<Seq<char>>,
) -> VariablesStep
    decreases scopes.len(),
{
    if scopes.len() == 0 {
        VariablesStep::Complete(Some(lines), at)
    } else if at >= replies.len() {
        VariablesStep::Ask(ask_variables(scopes[0].variables_reference))
    } else if !replies[at].success {
        VariablesStep::Unsuccessful
    } else {
        scopes_step(
            scopes.skip(1),
            replies,
            at + 1,
            lines.push(scopes[0].name@ + ":"@) + variables_in(replies[at]).map_values(
                |v: Variable| variable_line(v),
            ),
        )
    }
}

/// Asking for the scopes of a frame and then for their variables, from the
/// answer `at` on.
pub open spec fn variables_step(frame_id: i64, replies: Seq<Response>, at: int) -> VariablesStep {
    if at >= replies.len() {
        VariablesStep::Ask(ask_scopes(frame_id))
    } else if !replies[at].success {
        VariablesStep::Unsuccessful
    } else {
        match scopes_in(replies[at]) {
            None => VariablesStep::Complete(None, at + 1),
            Some(scopes) => scopes_step(scopes, replies, at + 1, Seq::empty()),
        }
    }
}

/// What comes of asking for the variables of a frame.
#[derive(Debug)]
pub enum VariablesRun {
    Ask(RequestArguments),
    Unsuccessful,
    Complete(Option<Vec<String>>, usize),
}

impl VariablesRun {
    /// The step as mathematics.
    pub open spec fn view(&self) -> VariablesStep {
        match self {
            VariablesRun::Ask(r) => VariablesStep::Ask(*r),
            VariablesRun::Unsuccessful => VariablesStep::Unsuccessful,
            VariablesRun::Complete(Some(lines), at) => VariablesStep::Complete(
                Some(texts(lines@)),
                *at as int,
            ),
            VariablesRun::Complete(None, at) => VariablesStep::Complete(None, *at as int),
        }
    }
}

/// The line for a variable.
fn show_variable(v: &Variable) -> (r: String)
    ensures
        r@ == variable_line(*v),
{
    let value = debug_text(v.value.as_str());
    match &v.type_ {
        Some(t) => "+ (".to_string().concat(t.as_str()).concat(") ").concat(
            v.name.as_str(),
        ).concat(" = ").concat(value.as_str()),
        None => "+ ".to_string().concat(v.name.as_str()).concat(" = ").concat(value.as_str()),
    }
}

/// Appends the lines for the variables that an answer lists.
fn show_variables(reply: &Response, lines: &mut Vec<String>)
    ensures
        texts(final(lines)@) == texts(old(lines)@) + variables_in(*reply).map_values(
            |v: Variable| variable_line(v),
        ),
{
    let ghost before = texts(lines@);
    let ghost f = |v: Variable| variable_line(v);
    match &reply.result {
        ResponseResult::Success { body: ResponseBody::variables(b) } => {
            let mut i: usize = 0;
            while i < b.variables.len()
                invariant
                    i <= b.variables@.len(),
                    f == (|v: Variable| variable_line(v)),
                    texts(lines@) == before + b.variables@.take(i as int).map_values(f),
                decreases b.variables@.len() - i,
            {
                let ghost shown = texts(lines@);
                lines.push(show_variable(&b.variables[i]));
                assert(texts(lines@) =~= shown.push(variable_line(b.variables@[i as int])));
                assert(b.variables@.take(i + 1).map_values(f) =~= b.variables@.take(
                    i as int,
                ).map_values(f).push(variable_line(b.variables@[i as int])));
                i = i + 1;
            }
            assert(b.variables@.take(i as int) =~= b.variables@);
        },
        _ => {
            assert(texts(lines@) =~= before + variables_in(*reply).map_values(f));
        },
    }
}

/// What to do next to have the variables of a frame, where the answers from
/// `at` on are about them.
pub fn process_variables(frame_id: i64, replies: &Vec<Response>, at: usize) -> (r: VariablesRun)
    requires
        at <= replies@.len(),
    ensures
        r.view() == variables_step(frame_id, replies@, at as int),
        r matches VariablesRun::Complete(_, next) ==> at < next <= replies@.len(),
{
    if at >= replies.len() {
        return VariablesRun::Ask(RequestArguments::scopes(ScopesArguments { frame_id }));
    }
    if !replies[at].success {
        return VariablesRun::Unsuccessful;
    }
    match &replies[at].result {
        ResponseResult::Success { body: ResponseBody::scopes(b) } => {
            let mut lines: Vec<String> = Vec::new();
            let mut next: usize = at + 1;
            let mut i: usize = 0;
            assert(b.scopes@.skip(0) =~= b.scopes@);
            assert(texts(lines@) =~= Seq::<Seq<char>>::empty());
            while i < b.scopes.len()
                invariant
                    i <= b.scopes@.len(),
                    at < next <= replies@.len(),
                    variables_step(frame_id, replies@, at as int) == scopes_step(
                        b.scopes@.skip(i as int),
                        replies@,
                        next as int,
                        texts(lines@),
                    ),
                decreases b.scopes@.len() - i,
            {
                let scope = &b.scopes[i];
                assert(b.scopes@.skip(i as int)[0] == *scope);
                assert(b.scopes@.skip(i as int).skip(1) =~= b.scopes@.skip(i + 1));
                if next >= replies.len() {
                    return VariablesRun::Ask(
                        RequestArguments::variables(
                            VariablesArguments {
                                count: None,
                                filter: None,
                                format: None,
                                start: None,
                                variables_reference: scope.variables_reference,
                            },
                        ),
                    );
                }
                if !replies[next].success {
                    return VariablesRun::Unsuccessful;
                }
                let ghost before = texts(lines@);
                lines.push(scope.name.clone().concat(":"));
                assert(texts(lines@) =~= before.push(scope.name@ + ":"@));
                show_variables(&replies[next], &mut lines);
                next = next + 1;
                i = i + 1;
            }
            VariablesRun::Complete(Some(lines), next)
        },
        _ => VariablesRun::Complete(None, at + 1),
    }
}

/// The line for a thread, with a star where it is the current one.
pub open spec fn thread_line(current: Option<i64>, t: Thread) -> Seq<char> {
    let line = decimal_int(t.id as int) + " - `"@ + t.name@ + "`"@;
    if current == Some(t.id) {
        line + " (*)"@
    } else {
        line
    }
}

/// The line for the place of a frame. A source without a path was disassembled.
pub open spec fn place_line(f: StackFrame, disassembled: Seq<char>) -> Seq<char> {
    let line = ":"@ + decimal_int(f.line as int);
    match f.source {
        Some(source) => match (source.name, source.path) {
            (Some(name), Some(_)) => "  - "@ + name@ + line,
            (Some(name), None) => "  - "@ + name@ + line + disassembled,
            (None, Some(path)) => "  - "@ + path@ + line,
            (None, None) => " - source not understood "@ + f.source_text@,
        },
        None => Seq::empty(),
    }
}

/// The two lines for each of the frames.
pub open spec fn frame_lines(frames: Seq<StackFrame>, disassembled: Seq<char>) -> Seq<Seq<char>>
    decreases frames.len(),
{
    if frames.len() == 0 {
        Seq::empty()
    } else {
        frame_lines(frames.drop_last(), disassembled).push("+ "@ + frames.last().name@).push(
            place_line(frames.last(), disassembled),
        )
    }
}

/// The first frame from `from` on that has no source.
pub open spec fn without_source(frames: Seq<StackFrame>, from: int) -> Option<int>
    decreases frames.len() - from,
{
    if from < 0 || from >= frames.len() {
        None
    } else if frames[from].source is None {
        Some(from)
    } else {
        without_source(frames, from + 1)
    }
}

/// What is to be done next to show the threads.
#[verifier::ext_equal]
pub enum NextView {
    /// This is to be asked.
    Ask(RequestArguments),
    /// An answer told of a failure.
    Unsuccessful,
    /// The last answer has a frame, at this position, that has no source.
    NoSource(int),
    /// The last answer has no frames.
    NoFrames,
    /// This is to be shown as the call stack.
    Show(Seq<Seq<char>>),
}

/// Where showing the threads stands: the variables to show first, if the last
/// answer completed them, the top frame that was met last, and what comes next.
#[verifier::ext_equal]
pub struct OutputView {
    pub variables: Option<Seq<Seq<char>>>,
    pub frame: Option<i64>,
    pub next: NextView,
}

/// The line for a thread that has no frames.
pub open spec fn no_frames() -> Seq<char> {
    "  (no frames)"@
}

/// Going through the threads, from the answer `at` on. A thread that is expanded
/// is asked for its frames; in the window for variables the top frame is then
/// asked for its variables, in the window for the call stack its frames are
/// listed.
pub open spec fn threads_step(
    threads: Seq<Thread>,
    current: Option<i64>,
    expanded: Set<i64>,
    variables_window: bool,
    replies: Seq<Response>,
    at: int,
    lines: Seq<Seq<char>>,
    variables: Option<Seq<Seq<char>>>,
    frame: Option<i64>,
) -> OutputView
    decreases threads.len(),
{
    if threads.len() == 0 {
        OutputView { variables, frame, next: NextView::Show(lines) }
    } else {
        let t = threads[0];
        let rest = threads.skip(1);
        let listed = lines.push(thread_line(current, t));
        if !expanded.contains(t.id) {
            threads_step(
                rest,
                current,
                expanded,
                variables_window,
                replies,
                at,
                listed,
                variables,
                frame,
            )
        } else if at >= replies.len() {
            OutputView { variables, frame, next: NextView::Ask(ask_frames(t.id)) }
        } else if !replies[at].success {
            OutputView { variables: None, frame, next: NextView::Unsuccessful }
        } else {
            match frames_in(replies[at]) {
                None => threads_step(
                    rest,
                    current,
                    expanded,
                    variables_window,
                    replies,
                    at + 1,
                    listed,
                    None,
                    frame,
                ),
                Some(frames) => if frames.len() == 0 {
                    threads_step(
                        rest,
                        current,
                        expanded,
                        variables_window,
                        replies,
                        at + 1,
                        listed.push(no_frames()),
                        None,
                        frame,
                    )
                } else if variables_window {
                    match variables_step(frames[0].id, replies, at + 1) {
                        VariablesStep::Ask(r) => OutputView {
                            variables: None,
                            frame: Some(frames[0].id),
                            next: NextView::Ask(r),
                        },
                        VariablesStep::Unsuccessful => OutputView {
                            variables: None,
                            frame: Some(frames[0].id),
                            next: NextView::Unsuccessful,
                        },
                        VariablesStep::Complete(content, next) => threads_step(
                            rest,
                            current,
                            expanded,
                            variables_window,
                            replies,
                            next,
                            listed,
                            if next == replies.len() {
                                content
                            } else {
                                None
                            },
                            Some(frames[0].id),
                        ),
                    }
                } else {
                    match without_source(frames, 0) {
                        Some(i) => OutputView {
                            variables: None,
                            frame: Some(frames[0].id),
                            next: NextView::NoSource(i),
                        },
                        None => threads_step(
                            rest,
                            current,
                            expanded,
                            variables_window,
                            replies,
                            at + 1,
                            listed + frame_lines(frames, " (disassembled)"@),
                            None,
                            Some(frames[0].id),
                        ),
                    }
                },
            }
        }
    }
}

/// What to do after these answers: the first is about the threads, those after
/// it about the frames and variables of the expanded ones.
pub open spec fn output_step(
    current: Option<i64>,
    expanded: Set<i64>,
    variables_window: bool,
    replies: Seq<Response>,
) -> OutputView {
    if replies.len() == 0 {
        OutputView {
            variables: None,
            frame: None,
            next: NextView::Ask(RequestArguments::threads(None)),
        }
    } else if !replies[0].success {
        OutputView { variables: None, frame: None, next: NextView::Unsuccessful }
    } else {
        match threads_in(replies[0]) {
            None => OutputView {
                variables: None,
                frame: None,
                next: NextView::Show(Seq::empty()),
            },
            Some(threads) => threads_step(
                threads,
                current,
                expanded,
                variables_window,
                replies,
                1,
                Seq::empty(),
                None,
                None,
            ),
        }
    }
}

/// What is to be done next to show the threads.
#[derive(Debug)]
pub enum OutputNext {
    Ask(RequestArguments),
    Unsuccessful,
    NoSource(usize),
    NoFrames,
    Show(Vec<String>),
}

/// Where showing the threads stands.
#[derive(Debug)]
pub struct OutputRun {
    pub variables: Option<Vec<String>>,
    pub frame: Option<i64>,
    pub next: OutputNext,
}

impl OutputRun {
    /// The step as mathematics.
    pub open spec fn view(&self) -> OutputView {
        OutputView {
            variables: match self.variables {
                Some(lines) => Some(texts(lines@)),
                None => None,
            },
            frame: self.frame,
            next: match self.next {
                OutputNext::Ask(r) => NextView::Ask(r),
                OutputNext::Unsuccessful => NextView::Unsuccessful,
                OutputNext::NoSource(i) => NextView::NoSource(i as int),
                OutputNext::NoFrames => NextView::NoFrames,
                OutputNext::Show(lines) => NextView::Show(texts(lines@)),
            },
        }
    }

    fn stop(frame: Option<i64>, next: OutputNext) -> (r: OutputRun)
        ensures
            r.variables is None,
            r.frame == frame,
            r.next == next,
    {
        OutputRun { variables: None, frame, next }
    }
}

/// The line for a thread.
pub fn show_thread(current: Option<i64>, t: &Thread) -> (r: String)
    ensures
        r@ == thread_line(current, *t),
{
    let line = signed_text(t.id).concat(" - `").concat(t.name.as_str()).concat("`");
    if current.is_some() && current.unwrap() == t.id {
        line.concat(" (*)")
    } else {
        line
    }
}

/// The line for the place of a frame.
fn show_place(f: &StackFrame, disassembled: &str) -> (r: String)
    ensures
        r@ == place_line(*f, disassembled@),
{
    let number = signed_text(f.line);
    let line = ":".to_string().concat(number.as_str());
    match &f.source {
        Some(source) => match &source.name {
            Some(name) => {
                let start = "  - ".to_string().concat(name.as_str()).concat(line.as_str());
                if source.path.is_some() {
                    start
                } else {
                    start.concat(disassembled)
                }
            },
            None => match &source.path {
                Some(path) => "  - ".to_string().concat(path.as_str()).concat(line.as_str()),
                None => " - source not understood ".to_string().concat(f.source_text.as_str()),
            },
        },
        None => String::new(),
    }
}

/// Appends the lines for the frames, unless one has no source: then its position
/// is the result.
pub fn show_frames(frames: &Vec<StackFrame>, disassembled: &str, lines: &mut Vec<String>) -> (r:
    Option<usize>)
    ensures
        match r {
            Some(i) => without_source(frames@, 0) == Some(i as int),
            None => without_source(frames@, 0) is None && texts(final(lines)@) == texts(
                old(lines)@,
            ) + frame_lines(frames@, disassembled@),
        },
{
    let ghost before = texts(lines@);
    let mut i: usize = 0;
    assert(texts(lines@) =~= before + frame_lines(frames@.take(0), disassembled@));
    while i < frames.len()
        invariant
            i <= frames@.len(),
            without_source(frames@, 0) == without_source(frames@, i as int),
            texts(lines@) == before + frame_lines(frames@.take(i as int), disassembled@),
        decreases frames@.len() - i,
    {
        if frames[i].source.is_none() {
            return Some(i);
        }
        let ghost shown = texts(lines@);
        let name = "+ ".to_string().concat(frames[i].name.as_str());
        let place = show_place(&frames[i], disassembled);
        lines.push(name);
        lines.push(place);
        proof {
            let more = frames@.take(i + 1);
            assert(more.drop_last() =~= frames@.take(i as int));
            assert(more.last() == frames@[i as int]);
            assert(texts(lines@) =~= shown.push(name@).push(place@));
            assert(texts(lines@) =~= before + frame_lines(more, disassembled@));
        }
        i = i + 1;
    }
    assert(frames@.take(i as int) =~= frames@);
    None
}

/// What to do next to show the threads, after these answers.
pub fn display_output(
    current: Option<i64>,
    expanded: &HashSet<i64>,
    variables_window: bool,
    replies: &Vec<Response>,
) -> (r: OutputRun)
    ensures
        r.view() == output_step(current, expanded@, variables_window, replies@),
{
    if replies.len() == 0 {
        return OutputRun::stop(None, OutputNext::Ask(RequestArguments::threads(None)));
    }
    if !replies[0].success {
        return OutputRun::stop(None, OutputNext::Unsuccessful);
    }
    let mut lines: Vec<String> = Vec::new();
    let mut variables: Option<Vec<String>> = None;
    let mut frame: Option<i64> = None;
    assert(texts(lines@) =~= Seq::<Seq<char>>::empty());
    if let ResponseResult::Success { body: ResponseBody::threads(b) } = &replies[0].result {
        let ghost whole = output_step(current, expanded@, variables_window, replies@);
        let mut at: usize = 1;
        let mut i: usize = 0;
        assert(b.threads@.skip(0) =~= b.threads@);
        while i < b.threads.len()
            invariant
                i <= b.threads@.len(),
                1 <= at <= replies@.len(),
                whole == output_step(current, expanded@, variables_window, replies@),
                whole == threads_step(
                    b.threads@.skip(i as int),
                    current,
                    expanded@,
                    variables_window,
                    replies@,
                    at as int,
                    texts(lines@),
                    match variables {
                        Some(v) => Some(texts(v@)),
                        None => None,
                    },
                    frame,
                ),
            decreases b.threads@.len() - i,
        {
            let t = &b.threads[i];
            let ghost before = texts(lines@);
            proof {
                assert(b.threads@.skip(i as int)[0] == *t);
                assert(b.threads@.skip(i as int).skip(1) =~= b.threads@.skip(i + 1));
            }
            i = i + 1;
            lines.push(show_thread(current, t));
            assert(texts(lines@) =~= before.push(thread_line(current, *t)));
            if expanded.contains(&t.id) {
                if at >= replies.len() {
                    return OutputRun {
                        variables,
                        frame,
                        next: OutputNext::Ask(
                            RequestArguments::stackTrace(
                                StackTraceArguments {
                                    format: None,
                                    levels: None,
                                    start_frame: None,
                                    thread_id: t.id,
                                },
                            ),
                        ),
                    };
                }
                if !replies[at].success {
                    return OutputRun::stop(frame, OutputNext::Unsuccessful);
                }
                variables = None;
                if let ResponseResult::Success { body: ResponseBody::stackTrace(s) } = &replies[at].result {
                    if s.stack_frames.len() == 0 {
                        let ghost listed = texts(lines@);
                        lines.push("  (no frames)".to_string());
                        assert(texts(lines@) =~= listed.push(no_frames()));
                        at = at + 1;
                    } else {
                        let top: i64 = s.stack_frames[0].id;
                        frame = Some(top);
                        if variables_window {
                            match process_variables(top, replies, at + 1) {
                                VariablesRun::Ask(request) => {
                                    return OutputRun::stop(frame, OutputNext::Ask(request));
                                },
                                VariablesRun::Unsuccessful => {
                                    return OutputRun::stop(frame, OutputNext::Unsuccessful);
                                },
                                VariablesRun::Complete(content, next) => {
                                    at = next;
                                    if next == replies.len() {
                                        variables = content;
                                    }
                                },
                            }
                        } else {
                            if let Some(missing) = show_frames(
                                &s.stack_frames,
                                " (disassembled)",
                                &mut lines,
                            ) {
                                return OutputRun::stop(frame, OutputNext::NoSource(missing));
                            }
                            at = at + 1;
                        }
                    }
                } else {
                    at = at + 1;
                }
            }
        }
    }
    OutputRun { variables, frame, next: OutputNext::Show(lines) }
}

/// The call stack: for each thread its line, and below it, where the thread is
/// expanded, its frames as the next of the answers lists them.
pub open spec fn call_stack(
    threads: Seq<Thread>,
    current: Option<i64>,
    expanded: Set<i64>,
    replies: Seq<Response>,
) -> Seq<Seq<char>>
    decreases threads.len(),
{
    if threads.len() == 0 {
        Seq::empty()
    } else {
        let t = threads[0];
        let rest = threads.skip(1);
        let head = seq![thread_line(current, t)];
        if !expanded.contains(t.id) {
            head + call_stack(rest, current, expanded, replies)
        } else {
            let below = match frames_in(replies[0]) {
                None => Seq::empty(),
                Some(frames) => if frames.len() == 0 {
                    seq![no_frames()]
                } else {
                    frame_lines(frames, " (disassembled)"@)
                },
            };
            head + below + call_stack(rest, current, expanded, replies.skip(1))
        }
    }
}

/// The threads that are expanded, in order.
pub open spec fn expanded_threads(threads: Seq<Thread>, expanded: Set<i64>) -> Seq<Thread>
    decreases threads.len(),
{
    if threads.len() == 0 {
        Seq::empty()
    } else if expanded.contains(threads[0].id) {
        seq![threads[0]] + expanded_threads(threads.skip(1), expanded)
    } else {
        expanded_threads(threads.skip(1), expanded)
    }
}

proof fn threads_step_shows_call_stack(
    threads: Seq<Thread>,
    current: Option<i64>,
    expanded: Set<i64>,
    replies: Seq<Response>,
    at: int,
    lines: Seq<Seq<char>>,
    variables: Option<Seq<Seq<char>>>,
    frame: Option<i64>,
)
    requires
        0 <= at <= replies.len(),
    ensures
        match threads_step(
            threads,
            current,
            expanded,
            false,
            replies,
            at,
            lines,
            variables,
            frame,
        ).next {
            NextView::Show(shown) => shown == lines + call_stack(
                threads,
                current,
                expanded,
                replies.skip(at),
            ),
            NextView::Ask(r) => replies.len() - at < expanded_threads(threads, expanded).len() && r
                == ask_frames(expanded_threads(threads, expanded)[replies.len() - at].id),
            _ => true,
        },
    decreases threads.len(),
{
    if threads.len() > 0 {
        let t = threads[0];
        let rest = threads.skip(1);
        let listed = lines.push(thread_line(current, t));
        let head = seq![thread_line(current, t)];
        assert(lines + head =~= listed);
        if !expanded.contains(t.id) {
            threads_step_shows_call_stack(
                rest,
                current,
                expanded,
                replies,
                at,
                listed,
                variables,
                frame,
            );
            assert(lines + (head + call_stack(rest, current, expanded, replies.skip(at)))
                =~= listed + call_stack(rest, current, expanded, replies.skip(at)));
        } else if at < replies.len() && replies[at].success {
            let left = replies.skip(at);
            assert(left[0] == replies[at]);
            assert(left.skip(1) =~= replies.skip(at + 1));
            let tail = call_stack(rest, current, expanded, replies.skip(at + 1));
            match frames_in(replies[at]) {
                None => {
                    threads_step_shows_call_stack(
                        rest,
                        current,
                        expanded,
                        replies,
                        at + 1,
                        listed,
                        None,
                        frame,
                    );
                    assert(lines + (head + Seq::empty() + tail) =~= listed + tail);
                },
                Some(frames) => if frames.len() == 0 {
                    threads_step_shows_call_stack(
                        rest,
                        current,
                        expanded,
                        replies,
                        at + 1,
                        listed.push(no_frames()),
                        None,
                        frame,
                    );
                    assert(lines + (head + seq![no_frames()] + tail) =~= listed.push(no_frames())
                        + tail);
                } else if without_source(frames, 0) is None {
                    let more = frame_lines(frames, " (disassembled)"@);
                    threads_step_shows_call_stack(
                        rest,
                        current,
                        expanded,
                        replies,
                        at + 1,
                        listed + more,
                        None,
                        Some(frames[0].id),
                    );
                    assert(lines + (head + more + tail) =~= listed + more + tail);
                },
            }
        } else {
            assert(lines + call_stack(threads, current, expanded, replies.skip(at)) == lines
                + call_stack(threads, current, expanded, replies.skip(at)));
        }
    } else {
        assert(lines + Seq::<Seq<char>>::empty() =~= lines);
    }
}

/// In the window for the call stack each expanded thread is asked for its frames
/// once, in order, and what is shown in the end lists every thread in order with
/// the frames that were answered for it below.
pub proof fn call_stack_is_shown(
    threads: Seq<Thread>,
    current: Option<i64>,
    expanded: Set<i64>,
    replies: Seq<Response>,
)
    requires
        replies.len() > 0,
        replies[0].success,
        threads_in(replies[0]) == Some(threads),
    ensures
        match output_step(current, expanded, false, replies).next {
            NextView::Show(shown) => shown == call_stack(
                threads,
                current,
                expanded,
                replies.skip(1),
            ),
            NextView::Ask(r) => replies.len() - 1 < expanded_threads(threads, expanded).len() && r
                == ask_frames(expanded_threads(threads, expanded)[replies.len() - 1].id),
            _ => true,
        },
{
    threads_step_shows_call_stack(
        threads,
        current,
        expanded,
        replies,
        1,
        Seq::empty(),
        None,
        None,
    );
    assert(Seq::<Seq<char>>::empty() + call_stack(threads, current, expanded, replies.skip(1))
        =~= call_stack(threads, current, expanded, replies.skip(1)));
}

/// Whether a line tells where a frame is: the name of its source, or else the path,
/// and the line in it. Code without a path was disassembled.
pub open spec fn tells_place(line: Seq<char>, f: StackFrame, disassembled: Seq<char>) -> bool {
    f.source matches Some(source) && match (source.name, source.path) {
        (Some(name), Some(_)) => line == "  - "@ + name@ + (":"@ + decimal_int(f.line as int)),
        (Some(name), None) => line == "  - "@ + name@ + (":"@ + decimal_int(f.line as int))
            + disassembled,
        (None, Some(path)) => line == "  - "@ + path@ + (":"@ + decimal_int(f.line as int)),
        (None, None) => line == " - source not understood "@ + f.source_text@,
    }
}

/// Whether two lines for each of the frames stand in `lines`, from `from` on.
pub open spec fn frames_stand_at(
    lines: Seq<Seq<char>>,
    from: int,
    frames: Seq<StackFrame>,
    disassembled: Seq<char>,
) -> bool {
    &&& 0 <= from
    &&& from + 2 * frames.len() <= lines.len()
    &&& forall|i: int|
        #![trigger frames[i]]
        0 <= i < frames.len() ==> lines[from + 2 * i] == "+ "@ + frames[i].name@ && tells_place(
            lines[from + 2 * i + 1],
            frames[i],
            disassembled,
        )
}

pub(crate) proof fn all_have_sources(frames: Seq<StackFrame>, from: int)
    requires
        0 <= from,
    ensures
        match without_source(frames, from) {
            Some(i) => from <= i < frames.len() && frames[i].source is None && forall|j: int|
                from <= j < i ==> (#[trigger] frames[j]).source is Some,
            None => forall|j: int|
                from <= j < frames.len() ==> (#[trigger] frames[j]).source is Some,
        },
    decreases frames.len() - from,
{
    if from < frames.len() && frames[from].source is Some {
        all_have_sources(frames, from + 1);
    }
}

pub(crate) proof fn frame_lines_stand(frames: Seq<StackFrame>, disassembled: Seq<char>)
    requires
        forall|j: int| 0 <= j < frames.len() ==> (#[trigger] frames[j]).source is Some,
    ensures
        frame_lines(frames, disassembled).len() == 2 * frames.len(),
        frames_stand_at(frame_lines(frames, disassembled), 0, frames, disassembled),
    decreases frames.len(),
{
    if frames.len() > 0 {
        let fewer = frames.drop_last();
        assert forall|j: int| 0 <= j < fewer.len() implies (#[trigger] fewer[j]).source is Some by {
            assert(fewer[j] == frames[j]);
        }
        frame_lines_stand(fewer, disassembled);
        let lines = frame_lines(frames, disassembled);
        assert forall|i: int|
            #![trigger frames[i]]
            0 <= i < frames.len() implies lines[2 * i] == "+ "@ + frames[i].name@ && tells_place(
            lines[2 * i + 1],
            frames[i],
            disassembled,
        ) by {
            if i < fewer.len() {
                assert(fewer[i] == frames[i]);
            }
        }
    }
}

/// Every frame is shown, in order, on two lines of its own below what was there: its
/// name, and its place. Only where a frame has no source nothing is owed, and then the
/// first such frame is told.
pub proof fn every_frame_is_shown(
    frames: &Vec<StackFrame>,
    disassembled: &str,
    before: Vec<String>,
    after: Vec<String>,
    r: Option<usize>,
)
    requires
        exists|lines: &mut Vec<String>|
            *lines == before && *final(lines) == after && #[trigger] call_ensures(
                show_frames,
                (frames, disassembled, lines),
                r,
            ),
    ensures
        match r {
            Some(i) => i < frames@.len() && frames@[i as int].source is None && forall|j: int|
                0 <= j < i ==> (#[trigger] frames@[j]).source is Some,
            None => {
                &&& forall|j: int| 0 <= j < frames@.len() ==> (#[trigger] frames@[j]).source is Some
                &&& after@.len() == before@.len() + 2 * frames@.len()
                &&& forall|j: int|
                    0 <= j < before@.len() ==> (#[trigger] after@[j])@ == before@[j]@
                &&& forall|i: int|
                    #![trigger frames@[i]]
                    0 <= i < frames@.len() ==> after@[before@.len() + 2 * i]@ == "+ "@
                        + frames@[i].name@ && tells_place(
                        after@[before@.len() + 2 * i + 1]@,
                        frames@[i],
                        disassembled@,
                    )
            },
        },
{
    all_have_sources(frames@, 0);
    if r is None {
        let added = frame_lines(frames@, disassembled@);
        frame_lines_stand(frames@, disassembled@);
        assert(texts(after@) == texts(before@) + added);
        assert forall|j: int| 0 <= j < after@.len() implies (#[trigger] after@[j])@ == (texts(
            before@,
        ) + added)[j] by {
            assert(texts(after@)[j] == after@[j]@);
        }
        assert forall|j: int| 0 <= j < before@.len() implies (#[trigger] after@[j])@
            == before@[j]@ by {
            assert(texts(before@)[j] == before@[j]@);
        }
        assert forall|i: int|
            #![trigger frames@[i]]
            0 <= i < frames@.len() implies after@[before@.len() + 2 * i]@ == "+ "@
            + frames@[i].name@ && tells_place(
            after@[before@.len() + 2 * i + 1]@,
            frames@[i],
            disassembled@,
        ) by {
            assert((texts(before@) + added)[before@.len() + 2 * i] == added[2 * i]);
            assert((texts(before@) + added)[before@.len() + 2 * i + 1] == added[2 * i + 1]);
        }
    }
}

/// The lines of the scopes of a frame: for each scope, from its start on, a line with
/// its name, and one for each of the variables that were answered for it.
pub open spec fn scopes_stand(
    lines: Seq<Seq<char>>,
    scopes: Seq<Scope>,
    replies: Seq<Response>,
    starts: Seq<int>,
) -> bool {
    &&& starts.len() == scopes.len() + 1
    &&& starts[0] == 0
    &&& starts[scopes.len() as int] == lines.len()
    &&& forall|j: int|
        #![trigger scopes[j]]
        0 <= j < scopes.len() ==> 0 <= starts[j] < starts[j + 1] <= lines.len()
            && lines[starts[j]] == scopes[j].name@ + ":"@ && (match replies[j].result {
            ResponseResult::Success { body: ResponseBody::variables(b) } => {
                &&& starts[j + 1] == starts[j] + 1 + b.variables@.len()
                &&& forall|i: int|
                    #![trigger b.variables@[i]]
                    0 <= i < b.variables@.len() ==> tells_variable(
                        lines[starts[j] + 1 + i],
                        b.variables@[i],
                    )
            },
            _ => starts[j + 1] == starts[j] + 1,
        })
}

/// Whether a line tells a variable: its type, if it is known, its name and its value.
pub open spec fn tells_variable(line: Seq<char>, v: Variable) -> bool {
    line == (match v.type_ {
        Some(t) => "+ ("@ + t@ + ") "@,
        None => "+ "@,
    }) + v.name@ + " = "@ + debug_quoted(v.value@)
}

proof fn scopes_step_stands(
    scopes: Seq<Scope>,
    replies: Seq<Response>,
    at: int,
    lines: Seq<Seq<char>>,
) -> (r: (Seq<Seq<char>>, Seq<int>))
    requires
        0 <= at <= replies.len(),
    ensures
        match scopes_step(scopes, replies, at, lines) {
            VariablesStep::Ask(q) => {
                &&& replies.len() - at < scopes.len()
                &&& q == RequestArguments::variables(
                    VariablesArguments {
                        count: None,
                        filter: None,
                        format: None,
                        start: None,
                        variables_reference: scopes[replies.len() - at].variables_reference,
                    },
                )
                &&& forall|j: int| at <= j < replies.len() ==> (#[trigger] replies[j]).success
            },
            VariablesStep::Unsuccessful => exists|j: int|
                at <= j < replies.len() && j - at < scopes.len() && !(#[trigger] replies[j]).success,
            VariablesStep::Complete(all, next) => {
                &&& next == at + scopes.len() <= replies.len()
                &&& all == Some(lines + r.0)
                &&& scopes_stand(r.0, scopes, replies.skip(at), r.1)
            },
        },
    decreases scopes.len(),
{
    if scopes.len() == 0 {
        assert(lines + Seq::<Seq<char>>::empty() =~= lines);
        (Seq::empty(), seq![0])
    } else if at < replies.len() && replies[at].success {
        let shown = variables_in(replies[at]).map_values(|v: Variable| variable_line(v));
        let head = seq![scopes[0].name@ + ":"@] + shown;
        let more = lines.push(scopes[0].name@ + ":"@) + shown;
        let rest = scopes.skip(1);
        let (own, starts) = scopes_step_stands(rest, replies, at + 1, more);
        let all = head + own;
        let moved = seq![0] + starts.map_values(|s: int| s + head.len());
        match scopes_step(scopes, replies, at, lines) {
            VariablesStep::Ask(_) => {
                assert(rest[replies.len() - at - 1] == scopes[replies.len() - at]);
            },
            VariablesStep::Unsuccessful => {},
            VariablesStep::Complete(_, _) => {
                assert(more + own =~= lines + all);
                let here = replies.skip(at);
                let there = replies.skip(at + 1);
                assert forall|j: int|
                    #![trigger scopes[j]]
                    0 <= j < scopes.len() implies 0 <= moved[j] < moved[j + 1] <= all.len()
                    && all[moved[j]] == scopes[j].name@ + ":"@ && (match here[j].result {
                    ResponseResult::Success { body: ResponseBody::variables(b) } => {
                        &&& moved[j + 1] == moved[j] + 1 + b.variables@.len()
                        &&& forall|i: int|
                            #![trigger b.variables@[i]]
                            0 <= i < b.variables@.len() ==> tells_variable(
                                all[moved[j] + 1 + i],
                                b.variables@[i],
                            )
                    },
                    _ => moved[j + 1] == moved[j] + 1,
                }) by {
                    if j == 0 {
                        assert(here[0] == replies[at]);
                        assert(moved[1] == head.len());
                        match here[0].result {
                            ResponseResult::Success { body: ResponseBody::variables(b) } => {
                                assert forall|i: int|
                                    #![trigger b.variables@[i]]
                                    0 <= i < b.variables@.len() implies tells_variable(
                                    all[1 + i],
                                    b.variables@[i],
                                ) by {
                                    assert(all[1 + i] == shown[i]);
                                    assert(shown[i] == variable_line(b.variables@[i]));
                                }
                            },
                            _ => {},
                        }
                    } else {
                        assert(scopes[j] == rest[j - 1]);
                        assert(here[j] == there[j - 1]);
                        assert(moved[j] == starts[j - 1] + head.len());
                        assert(moved[j + 1] == starts[j] + head.len());
                        match here[j].result {
                            ResponseResult::Success { body: ResponseBody::variables(b) } => {
                                assert forall|i: int|
                                    #![trigger b.variables@[i]]
                                    0 <= i < b.variables@.len() implies tells_variable(
                                    all[moved[j] + 1 + i],
                                    b.variables@[i],
                                ) by {
                                    assert(all[moved[j] + 1 + i] == own[starts[j - 1] + 1 + i]);
                                }
                            },
                            _ => {},
                        }
                    }
                }
                assert(moved[scopes.len() as int] == starts[rest.len() as int] + head.len());
            },
        }
        (all, moved)
    } else {
        (Seq::empty(), Seq::empty())
    }
}

/// The variables of a frame are asked for scope by scope: first the scopes of that
/// frame, then the variables of each scope, in order. In the end every scope is shown,
/// in order, with the variables that were answered for it below its name.
pub proof fn every_scope_is_shown(
    frame_id: i64,
    replies: &Vec<Response>,
    at: usize,
    scopes: Seq<Scope>,
    r: VariablesRun,
)
    requires
        at <= replies@.len(),
        call_ensures(process_variables, (frame_id, replies, at), r),
        forall|j: int| at <= j < replies@.len() ==> (#[trigger] replies@[j]).success,
        at < replies@.len() ==> (replies@[at as int].result matches ResponseResult::Success {
            body: ResponseBody::scopes(b),
        } && b.scopes@ == scopes),
    ensures
        at == replies@.len() ==> r == VariablesRun::Ask(
            RequestArguments::scopes(ScopesArguments { frame_id }),
        ),
        at < replies@.len() <= at + scopes.len() ==> r == VariablesRun::Ask(
            RequestArguments::variables(
                VariablesArguments {
                    count: None,
                    filter: None,
                    format: None,
                    start: None,
                    variables_reference: scopes[replies@.len() - at - 1].variables_reference,
                },
            ),
        ),
        at + scopes.len() < replies@.len() ==> {
            &&& r matches VariablesRun::Complete(Some(lines), next)
            &&& next == at + 1 + scopes.len()
            &&& exists|starts: Seq<int>| #[trigger]
                scopes_stand(
                    texts(lines@),
                    scopes,
                    replies@.skip(at + 1),
                    starts,
                )
        },
{
    if at < replies@.len() {
        let (own, starts) = scopes_step_stands(scopes, replies@, at + 1, Seq::empty());
        assert(Seq::<Seq<char>>::empty() + own =~= own);
    }
}

/// Where the answers so far are enough, more answers change nothing.
proof fn scopes_step_settled(
    scopes: Seq<Scope>,
    replies: Seq<Response>,
    more: Seq<Response>,
    at: int,
    lines: Seq<Seq<char>>,
)
    requires
        0 <= at,
        replies.is_prefix_of(more),
        scopes_step(scopes, replies, at, lines) is Complete,
    ensures
        scopes_step(scopes, more, at, lines) == scopes_step(scopes, replies, at, lines),
    decreases scopes.len(),
{
    if scopes.len() > 0 {
        assert(more[at] == replies[at]);
        scopes_step_settled(
            scopes.skip(1),
            replies,
            more,
            at + 1,
            lines.push(scopes[0].name@ + ":"@) + variables_in(replies[at]).map_values(
                |v: Variable| variable_line(v),
            ),
        );
    }
}

/// Where the answers so far are enough for the variables of a frame, more answers change
/// nothing.
pub(crate) proof fn variables_step_settled(
    frame_id: i64,
    replies: Seq<Response>,
    more: Seq<Response>,
    at: int,
)
    requires
        0 <= at <= replies.len(),
        replies.is_prefix_of(more),
    ensures
        variables_step(frame_id, replies, at) is Complete ==> variables_step(frame_id, more, at)
            == variables_step(frame_id, replies, at),
        variables_step(frame_id, replies, at) matches VariablesStep::Complete(_, next) ==> at
            < next <= replies.len(),
{
    if at < replies.len() && replies[at].success {
        assert(more[at] == replies[at]);
        if let Some(scopes) = scopes_in(replies[at]) {
            if scopes_step(scopes, replies, at + 1, Seq::empty()) is Complete {
                scopes_step_settled(scopes, replies, more, at + 1, Seq::empty());
            }
            let _ = scopes_step_stands(scopes, replies, at + 1, Seq::empty());
        }
    }
}

/// Where going through the threads stands when something is to be asked: at the thread
/// `k`, with the answer `at` next.
ghost struct Standing {
    k: int,
    at: int,
    lines: Seq<Seq<char>>,
    variables: Option<Seq<Seq<char>>>,
    frame: Option<i64>,
}

proof fn threads_step_stands(
    threads: Seq<Thread>,
    current: Option<i64>,
    expanded: Set<i64>,
    variables_window: bool,
    replies: Seq<Response>,
    more: Seq<Response>,
    at: int,
    lines: Seq<Seq<char>>,
    variables: Option<Seq<Seq<char>>>,
    other_variables: Option<Seq<Seq<char>>>,
    frame: Option<i64>,
) -> (s: Standing)
    requires
        0 <= at <= replies.len(),
        replies.is_prefix_of(more),
        threads_step(
            threads,
            current,
            expanded,
            variables_window,
            replies,
            at,
            lines,
            variables,
            frame,
        ).next is Ask,
    ensures
        0 <= s.k < threads.len(),
        at <= s.at <= replies.len(),
        expanded.contains(threads[s.k].id),
        threads_step(
            threads,
            current,
            expanded,
            variables_window,
            more,
            at,
            lines,
            other_variables,
            frame,
        ) == threads_step(
            threads.skip(s.k),
            current,
            expanded,
            variables_window,
            more,
            s.at,
            s.lines,
            s.variables,
            s.frame,
        ),
        ({
            let q = threads_step(
                threads,
                current,
                expanded,
                variables_window,
                replies,
                at,
                lines,
                variables,
                frame,
            );
            if s.at == replies.len() {
                q.next == NextView::Ask(ask_frames(threads[s.k].id))
            } else {
                &&& variables_window
                &&& replies[s.at].success
                &&& frames_in(replies[s.at]) matches Some(frames)
                &&& frames.len() > 0
                &&& q.frame == Some(frames[0].id)
                &&& variables_step(frames[0].id, replies, s.at + 1) matches VariablesStep::Ask(x)
                &&& q.next == NextView::Ask(x)
            }
        }),
    decreases threads.len(),
{
    let t = threads[0];
    let rest = threads.skip(1);
    let listed = lines.push(thread_line(current, t));
    let here = Standing { k: 0, at, lines, variables: other_variables, frame };
    assert(threads.skip(0) =~= threads);
    if !expanded.contains(t.id) {
        let s = threads_step_stands(
            rest,
            current,
            expanded,
            variables_window,
            replies,
            more,
            at,
            listed,
            variables,
            other_variables,
            frame,
        );
        assert(rest.skip(s.k) =~= threads.skip(s.k + 1));
        assert(rest[s.k] == threads[s.k + 1]);
        Standing { k: s.k + 1, ..s }
    } else if at >= replies.len() {
        here
    } else {
        assert(more[at] == replies[at]);
        match frames_in(replies[at]) {
            None => {
                let s = threads_step_stands(
                    rest,
                    current,
                    expanded,
                    variables_window,
                    replies,
                    more,
                    at + 1,
                    listed,
                    None,
                    None,
                    frame,
                );
                assert(rest.skip(s.k) =~= threads.skip(s.k + 1));
                assert(rest[s.k] == threads[s.k + 1]);
                Standing { k: s.k + 1, ..s }
            },
            Some(frames) => if frames.len() == 0 {
                let s = threads_step_stands(
                    rest,
                    current,
                    expanded,
                    variables_window,
                    replies,
                    more,
                    at + 1,
                    listed.push(no_frames()),
                    None,
                    None,
                    frame,
                );
                assert(rest.skip(s.k) =~= threads.skip(s.k + 1));
                assert(rest[s.k] == threads[s.k + 1]);
                Standing { k: s.k + 1, ..s }
            } else if variables_window {
                match variables_step(frames[0].id, replies, at + 1) {
                    VariablesStep::Complete(content, next) => {
                        match scopes_in(replies[at + 1]) {
                            None => {},
                            Some(scopes) => {
                                scopes_step_settled(
                                    scopes,
                                    replies,
                                    more,
                                    at + 2,
                                    Seq::empty(),
                                );
                                let _ = scopes_step_stands(scopes, replies, at + 2, Seq::empty());
                            },
                        }
                        assert(more[at + 1] == replies[at + 1]);
                        let s = threads_step_stands(
                            rest,
                            current,
                            expanded,
                            variables_window,
                            replies,
                            more,
                            next,
                            listed,
                            if next == replies.len() {
                                content
                            } else {
                                None
                            },
                            if next == more.len() {
                                content
                            } else {
                                None
                            },
                            Some(frames[0].id),
                        );
                        assert(rest.skip(s.k) =~= threads.skip(s.k + 1));
                        assert(rest[s.k] == threads[s.k + 1]);
                        Standing { k: s.k + 1, ..s }
                    },
                    _ => here,
                }
            } else {
                let s = threads_step_stands(
                    rest,
                    current,
                    expanded,
                    variables_window,
                    replies,
                    more,
                    at + 1,
                    listed + frame_lines(frames, " (disassembled)"@),
                    None,
                    None,
                    Some(frames[0].id),
                );
                assert(rest.skip(s.k) =~= threads.skip(s.k + 1));
                assert(rest[s.k] == threads[s.k + 1]);
                Standing { k: s.k + 1, ..s }
            },
        }
    }
}

/// Whether `next` is what comes where the threads from `from` on are left and nothing
/// was answered for them: the first of them that is expanded is asked for all its
/// frames, and where none is, all is shown.
pub open spec fn goes_on(
    threads: Seq<Thread>,
    expanded: Set<i64>,
    from: int,
    next: OutputNext,
) -> bool {
    match next {
        OutputNext::Ask(q) => exists|k: int|
            from <= k < threads.len() && expanded.contains((#[trigger] threads[k]).id) && q
                == RequestArguments::stackTrace(
                StackTraceArguments {
                    format: None,
                    levels: None,
                    start_frame: None,
                    thread_id: threads[k].id,
                },
            ) && forall|j: int|
                from <= j < k ==> !expanded.contains((#[trigger] threads[j]).id),
        OutputNext::Show(_) => forall|j: int|
            from <= j < threads.len() ==> !expanded.contains((#[trigger] threads[j]).id),
        _ => false,
    }
}

proof fn threads_step_goes_on(
    threads: Seq<Thread>,
    current: Option<i64>,
    expanded: Set<i64>,
    variables_window: bool,
    replies: Seq<Response>,
    lines: Seq<Seq<char>>,
    variables: Option<Seq<Seq<char>>>,
    frame: Option<i64>,
) -> (k: int)
    ensures
        0 <= k <= threads.len(),
        forall|j: int| 0 <= j < k ==> !expanded.contains((#[trigger] threads[j]).id),
        ({
            let step = threads_step(
                threads,
                current,
                expanded,
                variables_window,
                replies,
                replies.len() as int,
                lines,
                variables,
                frame,
            );
            &&& step.frame == frame
            &&& step.variables == variables
            &&& if k < threads.len() {
                &&& expanded.contains(threads[k].id)
                &&& step.next == NextView::Ask(ask_frames(threads[k].id))
            } else {
                step.next is Show
            }
        }),
    decreases threads.len(),
{
    if threads.len() == 0 {
        0
    } else if expanded.contains(threads[0].id) {
        0
    } else {
        let rest = threads.skip(1);
        let k = threads_step_goes_on(
            rest,
            current,
            expanded,
            variables_window,
            replies,
            lines.push(thread_line(current, threads[0])),
            variables,
            frame,
        );
        if k < rest.len() {
            assert(rest[k] == threads[k + 1]);
        }
        assert forall|j: int| 0 <= j < k + 1 implies !expanded.contains(
            (#[trigger] threads[j]).id,
        ) by {
            if j > 0 {
                assert(threads[j] == rest[j - 1]);
            }
        }
        k + 1
    }
}

/// First the threads are asked for, and then the first expanded one for its frames, in
/// every window.
pub proof fn threads_are_asked_for_first(
    current: Option<i64>,
    expanded: &HashSet<i64>,
    variables_window: bool,
    replies: &Vec<Response>,
    threads: Seq<Thread>,
    r: OutputRun,
)
    requires
        call_ensures(display_output, (current, expanded, variables_window, replies), r),
        replies@.len() <= 1,
        replies@.len() == 1 ==> (replies@[0].result matches ResponseResult::Success {
            body: ResponseBody::threads(b),
        } && b.threads@ == threads),
    ensures
        replies@.len() == 0 ==> r.next == OutputNext::Ask(RequestArguments::threads(None)),
        replies@.len() == 1 && !replies@[0].success ==> r.next is Unsuccessful,
        replies@.len() == 1 && replies@[0].success ==> goes_on(
            threads,
            expanded@,
            0,
            r.next,
        ),
        r.frame is None,
        r.variables is None,
{
    if replies@.len() == 1 && replies@[0].success {
        let k = threads_step_goes_on(
            threads,
            current,
            expanded@,
            variables_window,
            replies@,
            Seq::empty(),
            None,
            None,
        );
    }
}

/// When a thread was asked for its frames in the window for variables and lists some,
/// the next request is for the scopes of the first of them, and that is the current
/// frame. Where it lists none, the next expanded thread is asked.
pub proof fn top_frame_is_asked_for_its_scopes(
    current: Option<i64>,
    expanded: &HashSet<i64>,
    replies: &Vec<Response>,
    more: &Vec<Response>,
    threads: Seq<Thread>,
    thread_id: i64,
    frames: Seq<StackFrame>,
    before: OutputRun,
    r: OutputRun,
)
    requires
        call_ensures(display_output, (current, expanded, true, replies), before),
        call_ensures(display_output, (current, expanded, true, more), r),
        replies@.len() > 0,
        replies@[0].result matches ResponseResult::Success { body: ResponseBody::threads(b) }
            && b.threads@ == threads,
        before.next matches OutputNext::Ask(RequestArguments::stackTrace(a)) && a.thread_id
            == thread_id,
        more@.len() == replies@.len() + 1,
        replies@.is_prefix_of(more@),
        more@.last().result matches ResponseResult::Success { body: ResponseBody::stackTrace(b) }
            && b.stack_frames@ == frames,
    ensures
        !more@.last().success ==> r.next is Unsuccessful,
        more@.last().success && frames.len() > 0 ==> r.next == OutputNext::Ask(
            RequestArguments::scopes(ScopesArguments { frame_id: frames[0].id }),
        ) && r.frame == Some(frames[0].id) && r.variables is None,
        more@.last().success && frames.len() == 0 ==> exists|k: int|
            0 <= k < threads.len() && (#[trigger] threads[k]).id == thread_id && expanded@.contains(
                thread_id,
            ) && goes_on(threads, expanded@, k + 1, r.next),
{
    let s = threads_step_stands(
        threads,
        current,
        expanded@,
        true,
        replies@,
        more@,
        1,
        Seq::empty(),
        None,
        None,
        None,
    );
    assert(more@[0] == replies@[0]);
    if s.at < replies@.len() {
        asks_of_variables(frames_in(replies@[s.at])->0[0].id, replies@, s.at + 1);
    }
    assert(more@[s.at] == more@.last());
    let left = threads.skip(s.k);
    assert(left[0] == threads[s.k]);
    if more@.last().success && frames.len() == 0 {
        let rest = left.skip(1);
        let n = threads_step_goes_on(
            rest,
            current,
            expanded@,
            true,
            more@,
            s.lines.push(thread_line(current, left[0])).push(no_frames()),
            None,
            s.frame,
        );
        assert forall|j: int| s.k + 1 <= j < s.k + 1 + n implies !expanded@.contains(
            (#[trigger] threads[j]).id,
        ) by {
            assert(threads[j] == rest[j - s.k - 1]);
        }
        if n < rest.len() {
            assert(rest[n] == threads[s.k + 1 + n]);
        }
        assert(goes_on(threads, expanded@, s.k + 1, r.next));
    }
}

/// What is asked for the variables of a frame: its scopes first, and then variables.
pub(crate) proof fn asks_of_variables(frame_id: i64, replies: Seq<Response>, at: int)
    requires
        0 <= at <= replies.len(),
    ensures
        variables_step(frame_id, replies, at) matches VariablesStep::Ask(q) ==> if q is scopes {
            at == replies.len() && q == RequestArguments::scopes(ScopesArguments { frame_id })
        } else {
            q is variables
        },
        variables_step(frame_id, replies, at) matches VariablesStep::Complete(_, next) ==> at
            < next <= replies.len(),
{
    if at < replies.len() && replies[at].success {
        if let Some(scopes) = scopes_in(replies[at]) {
            let _ = scopes_step_stands(scopes, replies, at + 1, Seq::empty());
        }
    }
}

/// From the request for the scopes of a frame on, what is asked and what is shown are
/// the variables of that frame, and it is the current frame. When all of them are
/// there, they are what is shown, and the next expanded thread is asked.
pub proof fn variables_are_those_of_the_frame(
    current: Option<i64>,
    expanded: &HashSet<i64>,
    replies: &Vec<Response>,
    more: &Vec<Response>,
    threads: Seq<Thread>,
    frame_id: i64,
    before: OutputRun,
    variables: VariablesRun,
    r: OutputRun,
)
    requires
        call_ensures(display_output, (current, expanded, true, replies), before),
        call_ensures(display_output, (current, expanded, true, more), r),
        replies@.len() > 0,
        replies@[0].result matches ResponseResult::Success { body: ResponseBody::threads(b) }
            && b.threads@ == threads,
        before.next matches OutputNext::Ask(RequestArguments::scopes(a)) && a.frame_id == frame_id,
        replies@.is_prefix_of(more@),
        replies@.len() <= usize::MAX,
        call_ensures(process_variables, (frame_id, more, replies@.len() as usize), variables),
    ensures
        before.frame == Some(frame_id),
        match variables {
            VariablesRun::Ask(q) => r.next == OutputNext::Ask(q) && r.frame == Some(frame_id)
                && r.variables is None,
            VariablesRun::Unsuccessful => r.next is Unsuccessful && r.frame == Some(frame_id)
                && r.variables is None,
            VariablesRun::Complete(shown, next) => next == more@.len() ==> {
                &&& r.frame == Some(frame_id)
                &&& match shown {
                    Some(lines) => r.variables matches Some(v) && texts(v@) == texts(lines@),
                    None => r.variables is None,
                }
                &&& exists|k: int|
                    0 <= k < threads.len() && expanded@.contains((#[trigger] threads[k]).id)
                        && goes_on(threads, expanded@, k + 1, r.next)
            },
        },
{
    let s = threads_step_stands(
        threads,
        current,
        expanded@,
        true,
        replies@,
        more@,
        1,
        Seq::empty(),
        None,
        None,
        None,
    );
    assert(more@[0] == replies@[0]);
    assert(more@[s.at] == replies@[s.at]);
    let frames = frames_in(replies@[s.at])->0;
    asks_of_variables(frames[0].id, replies@, s.at + 1);
    let left = threads.skip(s.k);
    assert(left[0] == threads[s.k]);
    if let VariablesRun::Complete(shown, next) = variables {
        if next == more@.len() {
            let rest = left.skip(1);
            let content = match shown {
                Some(lines) => Some(texts(lines@)),
                None => None,
            };
            let n = threads_step_goes_on(
                rest,
                current,
                expanded@,
                true,
                more@,
                s.lines.push(thread_line(current, left[0])),
                content,
                Some(frames[0].id),
            );
            assert forall|j: int| s.k + 1 <= j < s.k + 1 + n implies !expanded@.contains(
                (#[trigger] threads[j]).id,
            ) by {
                assert(threads[j] == rest[j - s.k - 1]);
            }
            if n < rest.len() {
                assert(rest[n] == threads[s.k + 1 + n]);
            }
            assert(goes_on(threads, expanded@, s.k + 1, r.next));
        }
    }
}

/// How many of the first `n` threads are expanded.
pub open spec fn expanded_among(threads: Seq<Thread>, expanded: Set<i64>, n: int) -> nat
    decreases n,
{
    if n <= 0 {
        0
    } else if expanded.contains(threads[n - 1].id) {
        expanded_among(threads, expanded, n - 1) + 1
    } else {
        expanded_among(threads, expanded, n - 1)
    }
}

/// Whether a thread stands in `lines` from `from` up to `to`: its line, with a star
/// where it is the current one, and below it, where it was asked, what it answered.
pub open spec fn thread_stands(
    lines: Seq<Seq<char>>,
    from: int,
    to: int,
    current: Option<i64>,
    t: Thread,
    answer: Option<Response>,
) -> bool {
    &&& 0 <= from < to <= lines.len()
    &&& lines[from] == decimal_int(t.id as int) + " - `"@ + t.name@ + "`"@ + (if current
        == Some(t.id) {
        " (*)"@
    } else {
        ""@
    })
    &&& match answer {
        None => to == from + 1,
        Some(a) => match a.result {
            ResponseResult::Success { body: ResponseBody::stackTrace(b) } => {
                let frames = b.stack_frames@;
                if frames.len() == 0 {
                    to == from + 2 && lines[from + 1] == "  (no frames)"@
                } else {
                    to == from + 1 + 2 * frames.len() && frames_stand_at(
                        lines,
                        from + 1,
                        frames,
                        " (disassembled)"@,
                    )
                }
            },
            _ => to == from + 1,
        },
    }
}

/// Whether the threads stand in `lines` one below the other, each from its start up to
/// that of the next. The answers are about the expanded ones, in order.
pub open spec fn threads_stand(
    lines: Seq<Seq<char>>,
    current: Option<i64>,
    expanded: Set<i64>,
    threads: Seq<Thread>,
    answers: Seq<Response>,
    starts: Seq<int>,
) -> bool {
    &&& starts.len() == threads.len() + 1
    &&& starts[0] == 0
    &&& starts[threads.len() as int] == lines.len()
    &&& forall|i: int|
        #![trigger threads[i]]
        0 <= i < threads.len() ==> thread_stands(
            lines,
            starts[i],
            starts[i + 1],
            current,
            threads[i],
            if expanded.contains(threads[i].id) {
                Some(answers[expanded_among(threads, expanded, i) as int])
            } else {
                None
            },
        )
}

proof fn expanded_among_rest(threads: Seq<Thread>, expanded: Set<i64>, n: int)
    requires
        0 < n <= threads.len(),
    ensures
        expanded_among(threads, expanded, n) == expanded_among(threads.skip(1), expanded, n - 1) + (
        if expanded.contains(threads[0].id) {
            1nat
        } else {
            0nat
        }),
    decreases n,
{
    if n > 1 {
        expanded_among_rest(threads, expanded, n - 1);
        assert(threads.skip(1)[n - 2] == threads[n - 1]);
    } else {
        assert(expanded_among(threads, expanded, 0) == 0);
        assert(expanded_among(threads.skip(1), expanded, 0) == 0);
    }
}

/// A thread stands in more lines as it stands in fewer.
proof fn thread_stands_further_down(
    before: Seq<Seq<char>>,
    lines: Seq<Seq<char>>,
    from: int,
    to: int,
    current: Option<i64>,
    t: Thread,
    answer: Option<Response>,
)
    requires
        thread_stands(lines, from, to, current, t, answer),
    ensures
        thread_stands(
            before + lines,
            before.len() + from,
            before.len() + to,
            current,
            t,
            answer,
        ),
{
    let all = before + lines;
    if let Some(a) = answer {
        if let ResponseResult::Success { body: ResponseBody::stackTrace(b) } = a.result {
            let frames = b.stack_frames@;
            if frames.len() > 0 {
                assert forall|i: int|
                    #![trigger frames[i]]
                    0 <= i < frames.len() implies all[before.len() + from + 1 + 2 * i] == "+ "@
                    + frames[i].name@ && tells_place(
                    all[before.len() + from + 1 + 2 * i + 1],
                    frames[i],
                    " (disassembled)"@,
                ) by {
                    assert(all[before.len() + from + 1 + 2 * i] == lines[from + 1 + 2 * i]);
                    assert(all[before.len() + from + 1 + 2 * i + 1] == lines[from + 1 + 2 * i + 1]);
                }
            }
        }
    }
}

proof fn threads_step_lists_threads(
    threads: Seq<Thread>,
    current: Option<i64>,
    expanded: Set<i64>,
    replies: Seq<Response>,
    at: int,
    lines: Seq<Seq<char>>,
    variables: Option<Seq<Seq<char>>>,
    frame: Option<i64>,
) -> (r: (Seq<Seq<char>>, Seq<int>))
    requires
        0 <= at <= replies.len(),
    ensures
        threads_step(
            threads,
            current,
            expanded,
            false,
            replies,
            at,
            lines,
            variables,
            frame,
        ).next matches NextView::Show(shown) ==> shown == lines + r.0 && threads_stand(
            r.0,
            current,
            expanded,
            threads,
            replies.skip(at),
            r.1,
        ) && at + expanded_among(threads, expanded, threads.len() as int) <= replies.len(),
    decreases threads.len(),
{
    let step = threads_step(
        threads,
        current,
        expanded,
        false,
        replies,
        at,
        lines,
        variables,
        frame,
    );
    reveal_strlit("");
    if threads.len() == 0 {
        assert(lines + Seq::<Seq<char>>::empty() =~= lines);
        (Seq::empty(), seq![0])
    } else if step.next is Show {
        let t = threads[0];
        let rest = threads.skip(1);
        let line = thread_line(current, t);
        let listed = lines.push(line);
        let opened = expanded.contains(t.id);
        let (below, last, next_at) = if !opened {
            (Seq::<Seq<char>>::empty(), frame, at)
        } else {
            match frames_in(replies[at]) {
                None => (Seq::empty(), frame, at + 1),
                Some(frames) => if frames.len() == 0 {
                    (seq![no_frames()], frame, at + 1)
                } else {
                    (frame_lines(frames, " (disassembled)"@), Some(frames[0].id), at + 1)
                },
            }
        };
        let head = seq![line] + below;
        assert(listed + below =~= lines + head);
        assert(listed + Seq::<Seq<char>>::empty() =~= listed);
        assert(listed + seq![no_frames()] =~= listed.push(no_frames()));
        let (own, starts) = threads_step_lists_threads(
            rest,
            current,
            expanded,
            replies,
            next_at,
            listed + below,
            if opened {
                None
            } else {
                variables
            },
            last,
        );
        let all = head + own;
        let moved = seq![0] + starts.map_values(|s: int| s + head.len());
        assert(lines + head + own =~= lines + all);
        let here = replies.skip(at);
        let there = replies.skip(next_at);
        expanded_among_rest(threads, expanded, threads.len() as int);
        assert forall|i: int|
            #![trigger threads[i]]
            0 <= i < threads.len() implies thread_stands(
            all,
            moved[i],
            moved[i + 1],
            current,
            threads[i],
            if expanded.contains(threads[i].id) {
                Some(here[expanded_among(threads, expanded, i) as int])
            } else {
                None
            },
        ) by {
            if i == 0 {
                assert(moved[1] == starts[0] + head.len());
                assert(all[0] == line);
                assert(line + ""@ =~= line);
                assert(expanded_among(threads, expanded, 0) == 0);
                if opened {
                    assert(here[0] == replies[at]);
                    if let Some(frames) = frames_in(replies[at]) {
                        if frames.len() > 0 {
                            all_have_sources(frames, 0);
                            frame_lines_stand(frames, " (disassembled)"@);
                            assert forall|j: int|
                                #![trigger frames[j]]
                                0 <= j < frames.len() implies all[1 + 2 * j] == "+ "@
                                + frames[j].name@ && tells_place(
                                all[1 + 2 * j + 1],
                                frames[j],
                                " (disassembled)"@,
                            ) by {
                                assert(all[1 + 2 * j] == below[2 * j]);
                                assert(all[1 + 2 * j + 1] == below[2 * j + 1]);
                            }
                        } else {
                            assert(all[1] == below[0]);
                        }
                    }
                }
            } else {
                assert(threads[i] == rest[i - 1]);
                assert(moved[i] == starts[i - 1] + head.len());
                assert(moved[i + 1] == starts[i] + head.len());
                expanded_among_rest(threads, expanded, i);
                let before = expanded_among(rest, expanded, i - 1);
                if expanded.contains(threads[i].id) {
                    expanded_among_grows(rest, expanded, i, rest.len() as int);
                    assert(expanded_among(rest, expanded, i) == before + 1);
                    assert(there[before as int] == here[expanded_among(threads, expanded, i) as int]);
                }
                thread_stands_further_down(
                    head,
                    own,
                    starts[i - 1],
                    starts[i],
                    current,
                    threads[i],
                    if expanded.contains(threads[i].id) {
                        Some(there[before as int])
                    } else {
                        None
                    },
                );
            }
        }
        assert(moved[threads.len() as int] == starts[rest.len() as int] + head.len());
        (all, moved)
    } else {
        (Seq::empty(), Seq::empty())
    }
}

proof fn expanded_among_grows(threads: Seq<Thread>, expanded: Set<i64>, n: int, m: int)
    requires
        n <= m,
    ensures
        expanded_among(threads, expanded, n) <= expanded_among(threads, expanded, m),
    decreases m - n,
{
    if n < m {
        expanded_among_grows(threads, expanded, n, m - 1);
    }
}

/// The call stack lists every thread, in order, the current one with a star, and below
/// each expanded one all the frames that were answered for it, in order. It is shown
/// once all expanded threads have answered.
pub proof fn call_stack_lists_every_thread(
    current: Option<i64>,
    expanded: &HashSet<i64>,
    replies: &Vec<Response>,
    threads: Seq<Thread>,
    r: OutputRun,
    lines: Vec<String>,
)
    requires
        call_ensures(display_output, (current, expanded, false, replies), r),
        replies@.len() > 0,
        replies@[0].result matches ResponseResult::Success { body: ResponseBody::threads(b) }
            && b.threads@ == threads,
        r.next == OutputNext::Show(lines),
    ensures
        expanded_among(threads, expanded@, threads.len() as int) < replies@.len(),
        exists|starts: Seq<int>| #[trigger]
            threads_stand(
                texts(lines@),
                current,
                expanded@,
                threads,
                replies@.skip(1),
                starts,
            ),
{
    let (own, starts) = threads_step_lists_threads(
        threads,
        current,
        expanded@,
        replies@,
        1,
        Seq::empty(),
        None,
        None,
    );
    assert(Seq::<Seq<char>>::empty() + own =~= own);
    assert(texts(lines@) == own);
}

/// When a thread was asked for its frames in the window for the call stack, the answer
/// leads to the next expanded thread, unless it tells of a failure or of a frame
/// without a source. The first of the frames is the current one.
pub proof fn next_thread_is_asked_for_its_frames(
    current: Option<i64>,
    expanded: &HashSet<i64>,
    replies: &Vec<Response>,
    more: &Vec<Response>,
    threads: Seq<Thread>,
    thread_id: i64,
    frames: Seq<StackFrame>,
    before: OutputRun,
    r: OutputRun,
)
    requires
        call_ensures(display_output, (current, expanded, false, replies), before),
        call_ensures(display_output, (current, expanded, false, more), r),
        replies@.len() > 0,
        replies@[0].result matches ResponseResult::Success { body: ResponseBody::threads(b) }
            && b.threads@ == threads,
        before.next matches OutputNext::Ask(RequestArguments::stackTrace(a)) && a.thread_id
            == thread_id,
        more@.len() == replies@.len() + 1,
        replies@.is_prefix_of(more@),
        more@.last().result matches ResponseResult::Success { body: ResponseBody::stackTrace(b) }
            && b.stack_frames@ == frames,
    ensures
        !more@.last().success ==> r.next is Unsuccessful,
        more@.last().success && frames.len() > 0 ==> r.frame == Some(frames[0].id),
        more@.last().success && (forall|j: int|
            0 <= j < frames.len() ==> (#[trigger] frames[j]).source is Some) ==> exists|k: int|
            0 <= k < threads.len() && (#[trigger] threads[k]).id == thread_id && expanded@.contains(
                thread_id,
            ) && goes_on(threads, expanded@, k + 1, r.next),
        more@.last().success && (exists|j: int|
            0 <= j < frames.len() && (#[trigger] frames[j]).source is None) ==> (r.next matches
            OutputNext::NoSource(i) && i < frames.len() && frames[i as int].source is None
            && forall|j: int| 0 <= j < i ==> (#[trigger] frames[j]).source is Some),
{
    let s = threads_step_stands(
        threads,
        current,
        expanded@,
        false,
        replies@,
        more@,
        1,
        Seq::empty(),
        None,
        None,
        None,
    );
    assert(more@[0] == replies@[0]);
    assert(more@[s.at] == more@.last());
    let left = threads.skip(s.k);
    assert(left[0] == threads[s.k]);
    all_have_sources(frames, 0);
    if more@.last().success && without_source(frames, 0) is None {
        let rest = left.skip(1);
        let listed = s.lines.push(thread_line(current, left[0]));
        let n = threads_step_goes_on(
            rest,
            current,
            expanded@,
            false,
            more@,
            if frames.len() == 0 {
                listed.push(no_frames())
            } else {
                listed + frame_lines(frames, " (disassembled)"@)
            },
            None,
            if frames.len() == 0 {
                s.frame
            } else {
                Some(frames[0].id)
            },
        );
        assert forall|j: int| s.k + 1 <= j < s.k + 1 + n implies !expanded@.contains(
            (#[trigger] threads[j]).id,
        ) by {
            assert(threads[j] == rest[j - s.k - 1]);
        }
        if n < rest.len() {
            assert(rest[n] == threads[s.k + 1 + n]);
        }
        assert(goes_on(threads, expanded@, s.k + 1, r.next));
    }
}

proof fn failed_answer_ends_scopes(
    scopes: Seq<Scope>,
    replies: Seq<Response>,
    more: Seq<Response>,
    at: int,
    lines: Seq<Seq<char>>,
)
    requires
        0 <= at <= replies.len(),
        replies.is_prefix_of(more),
        more.len() == replies.len() + 1,
        !more.last().success,
        scopes_step(scopes, replies, at, lines) is Ask,
    ensures
        scopes_step(scopes, more, at, lines) is Unsuccessful,
    decreases scopes.len(),
{
    if at < replies.len() {
        assert(more[at] == replies[at]);
        failed_answer_ends_scopes(
            scopes.skip(1),
            replies,
            more,
            at + 1,
            lines.push(scopes[0].name@ + ":"@) + variables_in(replies[at]).map_values(
                |v: Variable| variable_line(v),
            ),
        );
    }
}

/// Where the variables of a frame are asked for, a failed answer ends it.
pub(crate) proof fn failed_answer_ends_variables(
    frame_id: i64,
    replies: Seq<Response>,
    more: Seq<Response>,
    at: int,
)
    requires
        0 <= at <= replies.len(),
        replies.is_prefix_of(more),
        more.len() == replies.len() + 1,
        !more.last().success,
        variables_step(frame_id, replies, at) is Ask,
    ensures
        variables_step(frame_id, more, at) is Unsuccessful,
{
    if at < replies.len() {
        assert(more[at] == replies[at]);
        if let Some(scopes) = scopes_in(replies[at]) {
            failed_answer_ends_scopes(scopes, replies, more, at + 1, Seq::empty());
        }
    }
}

/// Whatever was asked, a failed answer to it ends the display, and is told.
pub proof fn failed_answer_ends_the_display(
    current: Option<i64>,
    expanded: &HashSet<i64>,
    variables_window: bool,
    replies: &Vec<Response>,
    more: &Vec<Response>,
    before: OutputRun,
    r: OutputRun,
)
    requires
        call_ensures(display_output, (current, expanded, variables_window, replies), before),
        call_ensures(display_output, (current, expanded, variables_window, more), r),
        before.next is Ask,
        replies@.is_prefix_of(more@),
        more@.len() == replies@.len() + 1,
        !more@.last().success,
    ensures
        r.next is Unsuccessful,
        r.variables is None,
{
    if replies@.len() > 0 {
        assert(more@[0] == replies@[0]);
        let threads = threads_in(replies@[0])->0;
        let s = threads_step_stands(
            threads,
            current,
            expanded@,
            variables_window,
            replies@,
            more@,
            1,
            Seq::empty(),
            None,
            None,
            None,
        );
        assert(threads.skip(s.k)[0] == threads[s.k]);
        if s.at < replies@.len() {
            assert(more@[s.at] == replies@[s.at]);
            let top = frames_in(replies@[s.at])->0[0].id;
            failed_answer_ends_variables(top, replies@, more@, s.at + 1);
        } else {
            assert(more@[s.at] == more@.last());
        }
    }
}

} // verus!
