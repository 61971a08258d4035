//! A session with Node, which speaks JSON: the scripts that Node parsed, the
//! requests that are sent, and what the events of Node mean.

use crate::breakpoints::{with_pending, without_breakpoint, BreakpointError, Breakpoints};
use crate::events::{enabled_lines, lines_to_set, lists_enabled};
use crate::handler::{toggle_listed, toggles_listed, DebuggerStepType, ToggleError};
use crate::json::{
    json_of, merge_json, merge_one_member, merged, object_view, parse_json, shown, Json, JsonView,
};
use crate::listing::name_can_be_cut;
use crate::number::{decimal, decimal_int, signed_text, unsigned_text};
use crate::path::{file_name, last_name, may_be_name, plain_path};
use crate::str_map::StrMap;
use crate::text::{
    contains_text, debug_list, debug_listed, has_prefix, has_suffix, same, stands_at, text_if_any,
    texts, without_first,
};
use std::collections::HashSet;
use vstd::prelude::*;

verus! {

/// A script that Node parsed.
#[derive(Debug)]
pub struct Script {
    file: String,
    script_id: String,
}

impl Script {
    /// The file of the script.
    pub closed spec fn file_text(self) -> Seq<char> {
        self.file@
    }

    /// The id that Node gave the script.
    pub closed spec fn id_text(self) -> Seq<char> {
        self.script_id@
    }

    /// The script in a file, with the id that Node gave it.
    pub fn new(file: String, script_id: String) -> (r: Self)
        ensures
            r.file_text() == file@,
            r.id_text() == script_id@,
    {
        Script { file, script_id }
    }

    /// The file of the script.
    pub fn get_file(&self) -> (r: &str)
        ensures
            r@ == self.file_text(),
    {
        self.file.as_str()
    }

    /// The id that Node gave the script.
    pub fn get_script_id(&self) -> (r: &str)
        ensures
            r@ == self.id_text(),
    {
        self.script_id.as_str()
    }
}

/// The path in an address of a local file, which starts with its root: a slash,
/// and on Windows a drive.
pub open spec fn address_path(filename: Seq<char>, windows: bool) -> Option<Seq<char>> {
    if "file:///"@.is_prefix_of(filename) {
        Some(
            filename.skip(
                if windows {
                    8
                } else {
                    7
                },
            ),
        )
    } else {
        None
    }
}

/// The path in an address of a local file. It still has to be resolved; any other
/// name of a file stands for itself.
pub fn canonical_filename(filename: &str, windows: bool) -> (r: Option<String>)
    ensures
        match r {
            Some(path) => address_path(filename@, windows) == Some(path@),
            None => address_path(filename@, windows) is None,
        },
{
    proof {
        reveal_strlit("file:///");
    }
    if has_prefix(filename, "file:///") {
        let count: usize = if windows {
            8
        } else {
            7
        };
        Some(without_first(filename, count))
    } else {
        None
    }
}

/// The first position at which a text stands in a list, from `from` on.
pub open spec fn first_of(list: Seq<Seq<char>>, wanted: Seq<char>, from: int) -> Option<int>
    decreases list.len() - from,
{
    if from < 0 || from >= list.len() {
        None
    } else if list[from] == wanted {
        Some(from)
    } else {
        first_of(list, wanted, from + 1)
    }
}

/// How looking for the script of a file goes on.
#[derive(Clone, Copy, Debug, PartialEq, Eq, Structural)]
pub enum ScriptLookup {
    /// It is the script at this position.
    Found(usize),
    /// The name of the file of the script at this position has to be resolved.
    Resolve(usize),
    Missing,
}

/// How looking for the script of a file goes on. The names of the files of the
/// first scripts are resolved; no further name is before it is needed.
pub fn get_script_from_filename(count: usize, resolved: &Vec<String>, wanted: &str) -> (r:
    ScriptLookup)
    requires
        resolved@.len() <= count,
    ensures
        r == (match first_of(texts(resolved@), wanted@, 0) {
            Some(i) => ScriptLookup::Found(i as usize),
            None => if resolved@.len() < count {
                ScriptLookup::Resolve(resolved@.len() as usize)
            } else {
                ScriptLookup::Missing
            },
        }),
        r matches ScriptLookup::Found(i) ==> i < count && resolved@[i as int]@ == wanted@,
{
    let mut i: usize = 0;
    while i < resolved.len()
        invariant
            i <= resolved@.len() <= count,
            first_of(texts(resolved@), wanted@, 0) == first_of(
                texts(resolved@),
                wanted@,
                i as int,
            ),
        decreases resolved@.len() - i,
    {
        if same(resolved[i].as_str(), wanted) {
            return ScriptLookup::Found(i);
        }
        i = i + 1;
    }
    if resolved.len() < count {
        ScriptLookup::Resolve(resolved.len())
    } else {
        ScriptLookup::Missing
    }
}

/// The ids of some scripts.
pub open spec fn ids_of(scripts: Seq<Script>) -> Seq<Seq<char>> {
    scripts.map_values(|s: Script| s.id_text())
}

/// The first script with an id.
pub fn get_script_from_id(scripts: &Vec<Script>, script_id: &str) -> (r: Option<usize>)
    ensures
        match r {
            Some(i) => i < scripts@.len() && first_of(ids_of(scripts@), script_id@, 0) == Some(
                i as int,
            ),
            None => first_of(ids_of(scripts@), script_id@, 0) is None,
        },
{
    let mut i: usize = 0;
    while i < scripts.len()
        invariant
            i <= scripts@.len(),
            first_of(ids_of(scripts@), script_id@, 0) == first_of(
                ids_of(scripts@),
                script_id@,
                i as int,
            ),
        decreases scripts@.len() - i,
    {
        assert(ids_of(scripts@)[i as int] == scripts@[i as int].id_text());
        if same(scripts[i].get_script_id(), script_id) {
            return Some(i);
        }
        i = i + 1;
    }
    None
}

/// A request that calls a method without parameters.
pub open spec fn calls(method: Seq<char>) -> JsonView {
    JsonView::Object(map!["method"@ => JsonView::Str(method)])
}

/// A request that calls a method.
pub open spec fn calls_with(method: Seq<char>, params: JsonView) -> JsonView {
    JsonView::Object(map!["method"@ => JsonView::Str(method), "params"@ => params])
}

/// A request that calls a method without parameters.
pub fn method_request(method: &str) -> (r: Json)
    ensures
        r.wf(),
        r.view() == calls(method@),
{
    Json::object().with("method", Json::text(method))
}

/// The method that goes on in that way.
pub open spec fn step_method(step_type: DebuggerStepType) -> Seq<char> {
    match step_type {
        DebuggerStepType::Over => "Debugger.stepOver"@,
        DebuggerStepType::In => "Debugger.stepInto"@,
        DebuggerStepType::Continue => "Debugger.resume"@,
    }
}

/// The request that goes on in that way.
pub fn step_request(step_type: DebuggerStepType) -> (r: Json)
    ensures
        r.wf(),
        r.view() == calls(step_method(step_type)),
{
    match step_type {
        DebuggerStepType::Over => method_request("Debugger.stepOver"),
        DebuggerStepType::In => method_request("Debugger.stepInto"),
        DebuggerStepType::Continue => method_request("Debugger.resume"),
    }
}

/// The request for the source of a script.
pub fn source_request(script_id: &str) -> (r: Json)
    ensures
        r.wf(),
        r.view() == calls_with(
            "Debugger.getScriptSource"@,
            JsonView::Object(map!["scriptId"@ => JsonView::Str(script_id@)]),
        ),
{
    Json::object().with("method", Json::text("Debugger.getScriptSource")).with(
        "params",
        Json::object().with("scriptId", Json::text(script_id)),
    )
}

/// The request that sets a breakpoint on a line, which Node counts from nought.
pub open spec fn breaks_at(script_id: Seq<char>, line_number: i64) -> JsonView {
    calls_with(
        "Debugger.setBreakpoint"@,
        JsonView::Object(
            map![
                "location"@ => JsonView::Object(
                    map![
                        "scriptId"@ => JsonView::Str(script_id),
                        "lineNumber"@ => JsonView::Int(line_number - 1),
                    ],
                ),
            ],
        ),
    )
}

/// The request that sets a breakpoint on a line.
pub fn breakpoint_request(script_id: &str, line_number: i64) -> (r: Json)
    requires
        line_number > i64::MIN,
    ensures
        r.wf(),
        r.view() == breaks_at(script_id@, line_number),
{
    Json::object().with("method", Json::text("Debugger.setBreakpoint")).with(
        "params",
        Json::object().with(
            "location",
            Json::object().with("scriptId", Json::text(script_id)).with(
                "lineNumber",
                Json::integer(line_number - 1),
            ),
        ),
    )
}

/// The requests that set breakpoints on lines, one after the other.
pub fn breakpoint_requests(script_id: &str, line_numbers: &Vec<i64>) -> (r: Vec<Json>)
    requires
        forall|i: int| 0 <= i < line_numbers@.len() ==> #[trigger] line_numbers@[i] > i64::MIN,
    ensures
        r@.len() == line_numbers@.len(),
        forall|i: int|
            0 <= i < r@.len() ==> (#[trigger] r@[i]).wf() && r@[i].view() == breaks_at(
                script_id@,
                line_numbers@[i],
            ),
{
    let mut r: Vec<Json> = Vec::new();
    let mut i: usize = 0;
    while i < line_numbers.len()
        invariant
            i <= line_numbers@.len(),
            forall|j: int| 0 <= j < line_numbers@.len() ==> #[trigger] line_numbers@[j] > i64::MIN,
            r@.len() == i,
            forall|j: int|
                0 <= j < i ==> (#[trigger] r@[j]).wf() && r@[j].view() == breaks_at(
                    script_id@,
                    line_numbers@[j],
                ),
        decreases line_numbers@.len() - i,
    {
        r.push(breakpoint_request(script_id, line_numbers[i]));
        i = i + 1;
    }
    r
}

/// The request with its number laid over it.
pub fn numbered_request(req: Json, id: u64) -> (r: Json)
    requires
        req.wf(),
    ensures
        r.wf(),
        r.view() == merged(
            req.view(),
            JsonView::Object(map!["id"@ => JsonView::Int(id as int)]),
        ),
{
    let mut r = req;
    let number = Json::object().with("id", Json::Unsigned(id));
    merge_json(&mut r, number);
    r
}

/// The request laid over its number.
pub fn request_over_number(req: Json, id: u64) -> (r: Json)
    requires
        req.wf(),
    ensures
        r.wf(),
        r.view() == merged(
            JsonView::Object(map!["id"@ => JsonView::Int(id as int)]),
            req.view(),
        ),
{
    let mut r = Json::object().with("id", Json::Unsigned(id));
    merge_json(&mut r, req);
    r
}

/// A request with its number laid over it has that number, and is else what it
/// was.
pub proof fn request_gets_its_number(req: Map<Seq<char>, JsonView>, id: int)
    ensures
        merged(JsonView::Object(req), JsonView::Object(map!["id"@ => JsonView::Int(id)]))
            == JsonView::Object(req.insert("id"@, JsonView::Int(id))),
{
    merge_one_member(req, "id"@, JsonView::Int(id));
}

/// A request that calls a method has the number in the end, whichever of the two
/// is laid over the other.
pub proof fn either_order_numbers(method: Seq<char>, id: int)
    ensures
        merged(JsonView::Object(map!["id"@ => JsonView::Int(id)]), calls(method)) == merged(
            calls(method),
            JsonView::Object(map!["id"@ => JsonView::Int(id)]),
        ),
{
    reveal_strlit("id");
    reveal_strlit("method");
    assert("id"@.len() != "method"@.len());
    let number = map!["id"@ => JsonView::Int(id)];
    let call = map!["method"@ => JsonView::Str(method)];
    merge_one_member(number, "method"@, JsonView::Str(method));
    merge_one_member(call, "id"@, JsonView::Int(id));
    assert(number.insert("method"@, JsonView::Str(method)) =~= call.insert(
        "id"@,
        JsonView::Int(id),
    ));
}

/// Whether a message is the answer to the request with that number.
pub fn answers_request(message: &Json, id: u64) -> (r: bool)
    requires
        message.wf(),
    ensures
        r == (message.view().member("id"@) == JsonView::Int(id as int)),
{
    match message.get("id") {
        Some(found) => match found.as_u64() {
            Some(n) => n == id,
            None => false,
        },
        None => false,
    }
}

/// Whether a message is an event: it answers no request.
pub open spec fn is_event(message: JsonView) -> bool {
    !(message matches JsonView::Object(m) && m.contains_key("id"@))
}

/// Whether a message is an event.
pub fn message_is_event(message: &Json) -> (r: bool)
    requires
        message.wf(),
    ensures
        r == is_event(message.view()),
{
    message.get("id").is_none()
}

/// The requests that were sent, and which of them still wait for an answer.
#[derive(Debug)]
pub struct NodeSession {
    pub next_id: u64,
    pub pending: HashSet<u64>,
}

/// What to do with a message from Node.
#[derive(Debug)]
pub enum NodeMessage {
    /// Hand it to who waits for the answer to the request with this number.
    Deliver(u64, Json),
    Ignore,
    Event(Json),
}

/// Why a text from Node is no message.
#[derive(Clone, Copy, Debug, PartialEq, Eq, Structural)]
pub enum NodeTextError {
    NotJson,
    NoNumber,
}

impl NodeTextError {
    /// What had been expected of the text.
    pub open spec fn shown(self) -> Seq<char> {
        match self {
            NodeTextError::NotJson => "can convert WS message text string to json"@,
            NodeTextError::NoNumber => "WS message id is u64"@,
        }
    }

    /// What had been expected of the text.
    pub fn message(&self) -> (r: &'static str)
        ensures
            r@ == self.shown(),
    {
        match self {
            NodeTextError::NotJson => "can convert WS message text string to json",
            NodeTextError::NoNumber => "WS message id is u64",
        }
    }
}

/// Whether a message is an answer, with the number of the request.
pub open spec fn is_answer(message: JsonView) -> bool {
    message.member("id"@) matches JsonView::Int(n) && 0 <= n <= u64::MAX
}

/// The number of the request that a message answers.
pub open spec fn answered(message: JsonView) -> u64 {
    message.member("id"@)->Int_0 as u64
}

/// What to do with a message, where these answers are awaited.
pub open spec fn received(pending: Set<u64>, message: Json) -> NodeMessage {
    if is_event(message.view()) {
        NodeMessage::Event(message)
    } else if pending.contains(answered(message.view())) {
        NodeMessage::Deliver(answered(message.view()), message)
    } else {
        NodeMessage::Ignore
    }
}

/// The answers that are awaited after a message.
pub open spec fn still_pending(pending: Set<u64>, message: Json) -> Set<u64> {
    if is_event(message.view()) {
        pending
    } else {
        pending.remove(answered(message.view()))
    }
}

/// The answer to a request is handed to who awaits it, and nobody else's answer is
/// touched.
pub proof fn node_answer_is_delivered(pending: Set<u64>, id: u64, message: Json)
    requires
        is_answer(message.view()),
        answered(message.view()) == id,
    ensures
        received(pending.insert(id), message) == NodeMessage::Deliver(id, message),
        forall|other: u64|
            other != id ==> (#[trigger] still_pending(pending.insert(id), message).contains(other)
                == pending.contains(other)),
{
}

/// A request is answered once: another answer with its number is ignored.
pub proof fn node_answer_is_delivered_once(pending: Set<u64>, first: Json, again: Json)
    requires
        is_answer(first.view()),
        is_answer(again.view()),
        answered(first.view()) == answered(again.view()),
    ensures
        received(still_pending(pending, first), again) == NodeMessage::Ignore,
{
}

impl NodeSession {
    /// Nothing was sent yet.
    pub fn new() -> (r: NodeSession)
        ensures
            r.next_id == 1,
            r.pending@ == Set::<u64>::empty(),
    {
        NodeSession { next_id: 1, pending: HashSet::new() }
    }

    /// The request to send, with the next number. Its answer may be awaited.
    pub fn outgoing(&mut self, message: Json, awaited: bool) -> (r: Json)
        requires
            message.wf(),
        ensures
            r.wf(),
            r.view() == merged(
                JsonView::Object(map!["id"@ => JsonView::Int(old(self).next_id as int)]),
                message.view(),
            ),
            final(self).next_id == old(self).next_id.wrapping_add(1),
            final(self).pending@ == (if awaited {
                old(self).pending@.insert(old(self).next_id)
            } else {
                old(self).pending@
            }),
    {
        let id: u64 = self.next_id;
        self.next_id = id.wrapping_add(1);
        if awaited {
            self.pending.insert(id);
        }
        request_over_number(message, id)
    }

    /// What to do with a message from Node. Answers have numbers.
    pub fn incoming(&mut self, message: Json) -> (r: NodeMessage)
        requires
            message.wf(),
            is_event(message.view()) || is_answer(message.view()),
        ensures
            final(self).next_id == old(self).next_id,
            r == received(old(self).pending@, message),
            final(self).pending@ == still_pending(old(self).pending@, message),
    {
        let number: Option<u64> = match message.get("id") {
            Some(id) => id.as_u64(),
            None => return NodeMessage::Event(message),
        };
        match number {
            Some(id) => if self.pending.remove(&id) {
                NodeMessage::Deliver(id, message)
            } else {
                NodeMessage::Ignore
            },
            None => NodeMessage::Ignore,
        }
    }

    /// What to do with a text from Node. A text that cannot be read is no message, and
    /// leaves everything as it was.
    pub fn incoming_text(&mut self, text: &str) -> (r: Result<NodeMessage, NodeTextError>)
        ensures
            final(self).next_id == old(self).next_id,
            match json_of(text@) {
                None => r == Err::<NodeMessage, _>(NodeTextError::NotJson) && final(self).pending@
                    == old(self).pending@,
                Some(m) => if is_event(m) || is_answer(m) {
                    exists|message: Json|
                        #![trigger message.view()]
                        message.wf() && message.view() == m && r == Ok::<_, NodeTextError>(
                            received(old(self).pending@, message),
                        ) && final(self).pending@ == still_pending(old(self).pending@, message)
                } else {
                    r == Err::<NodeMessage, _>(NodeTextError::NoNumber) && final(self).pending@
                        == old(self).pending@
                },
            },
    {
        let message = match parse_json(text) {
            Some(message) => message,
            None => return Err(NodeTextError::NotJson),
        };
        let ghost read = message;
        let numbered = match message.get("id") {
            Some(id) => id.as_u64().is_some(),
            None => true,
        };
        if !numbered {
            return Err(NodeTextError::NoNumber);
        }
        let r = self.incoming(message);
        assert(read.wf() && read.view() == json_of(text@)->0);
        Ok(r)
    }
}

/// What an event of Node means.
#[derive(Clone, Copy, Debug, PartialEq, Eq, Structural)]
pub enum NodeEvent {
    Nothing,
    /// The program has come to its end.
    Finished,
    ScriptParsed,
    Paused,
}

/// Why an event of Node means nothing.
#[derive(Debug)]
pub enum NodeEventError {
    /// It has no method.
    NoMethod(String),
    /// Its method is no text.
    NotAText,
    /// Its method is not known.
    Unsupported(String),
}

/// What the event with a method means, if the method is known.
pub open spec fn event_for(method: Seq<char>) -> Option<NodeEvent> {
    if method == "Runtime.consoleAPICalled"@ || method == "Runtime.executionContextCreated"@
        || method == "Debugger.resumed"@ {
        Some(NodeEvent::Nothing)
    } else if method == "Runtime.executionContextDestroyed"@ {
        Some(NodeEvent::Finished)
    } else if method == "Debugger.scriptParsed"@ {
        Some(NodeEvent::ScriptParsed)
    } else if method == "Debugger.paused"@ {
        Some(NodeEvent::Paused)
    } else {
        None
    }
}

/// What an event of Node means.
pub fn handle_event(event: &Json) -> (r: Result<NodeEvent, NodeEventError>)
    requires
        event.wf(),
    ensures
        ({
            let has_method = event.view() matches JsonView::Object(m) && m.contains_key("method"@);
            let method = event.view().member("method"@);
            match r {
                Ok(e) => has_method && (method matches JsonView::Str(s) && event_for(s) == Some(e)),
                Err(NodeEventError::NoMethod(text)) => !has_method && text@
                    == "Couldn't get method of event: "@ + shown(*event),
                Err(NodeEventError::NotAText) => has_method && method !is Str,
                Err(NodeEventError::Unsupported(text)) => has_method && (method matches
                    JsonView::Str(s) && event_for(s) is None && text@
                    == "Debugger doesn't support event method `"@ + s + "`"@),
            }
        }),
{
    let method = match event.get("method") {
        Some(method) => method,
        None => {
            let text = event.display();
            return Err(
                NodeEventError::NoMethod(
                    "Couldn't get method of event: ".to_string().concat(text.as_str()),
                ),
            );
        },
    };
    let method = match method.as_str() {
        Some(s) => s,
        None => return Err(NodeEventError::NotAText),
    };
    if same(method, "Runtime.consoleAPICalled") || same(method, "Runtime.executionContextCreated")
        || same(method, "Debugger.resumed") {
        Ok(NodeEvent::Nothing)
    } else if same(method, "Runtime.executionContextDestroyed") {
        Ok(NodeEvent::Finished)
    } else if same(method, "Debugger.scriptParsed") {
        Ok(NodeEvent::ScriptParsed)
    } else if same(method, "Debugger.paused") {
        Ok(NodeEvent::Paused)
    } else {
        Err(
            NodeEventError::Unsupported(
                "Debugger doesn't support event method `".to_string().concat(method).concat("`"),
            ),
        )
    }
}

/// What the log says when the program has come to its end.
pub const FINISHED: &'static str = "Finished";

/// The frames that an event lists.
pub open spec fn call_frames(event: JsonView) -> JsonView {
    event.member("params"@).member("callFrames"@)
}

/// Something about the place of a frame.
pub open spec fn in_location(frame: JsonView, k: Seq<char>) -> JsonView {
    frame.member("location"@).member(k)
}

/// The number of the line, counted from one, if there is one.
pub open spec fn line_of(frame: JsonView) -> Option<int> {
    match in_location(frame, "lineNumber"@) {
        JsonView::Int(n) => if i64::MIN <= n < i64::MAX {
            Some(n + 1)
        } else {
            None
        },
        _ => None,
    }
}

fn member_of<'a>(event: &'a Json, a: &str, b: &str) -> (r: Option<&'a Json>)
    requires
        event.wf(),
    ensures
        match r {
            Some(j) => j.wf() && j.view() == event.view().member(a@).member(b@),
            None => event.view().member(a@).member(b@) is Null,
        },
{
    match event.get(a) {
        Some(inner) => inner.get(b),
        None => None,
    }
}

fn read_line(frame: &Json) -> (r: Option<i64>)
    requires
        frame.wf(),
    ensures
        match r {
            Some(n) => line_of(frame.view()) == Some(n as int),
            None => line_of(frame.view()) is None,
        },
{
    match member_of(frame, "location", "lineNumber") {
        Some(j) => match j.as_i64() {
            Some(n) => if n < i64::MAX {
                Some(n + 1)
            } else {
                None
            },
            None => None,
        },
        None => None,
    }
}

/// Where the program paused.
#[derive(Debug)]
pub enum PausedAction {
    /// Somebody waited for the program to pause and goes on from there.
    GoOn,
    /// In the script at this position, on this line.
    Show(usize, i64),
    /// In the script of this file, on this line.
    LookUp(String, i64),
}

/// Why it is not known where the program paused.
#[derive(Clone, Copy, Debug, PartialEq, Eq, Structural)]
pub enum PausedError {
    NoLine,
    UnknownScript,
    NoFile,
}

/// A session with Node.
#[derive(Debug)]
pub struct NodeHandler {
    pub scripts: Vec<Script>,
    pub breakpoints: Breakpoints,
    /// Somebody waits for the program to pause, to go on from there.
    pub stop_awaited: bool,
}

/// What is wrong with an event that tells of a script.
#[derive(Clone, Copy, Debug, PartialEq, Eq, Structural)]
pub enum ScriptError {
    NoFile,
    NoScriptId,
}

/// What to do next to go on.
#[derive(Debug)]
pub enum NodeStep {
    /// Send this and wait for the answer, and then for the program to pause.
    Ask(Json),
    /// Send this. That was the last.
    Send(Json),
}

/// What to do next to go on.
pub enum NodeStepView {
    Ask(JsonView),
    Send(JsonView),
}

impl NodeStep {
    /// The request is kept in order.
    pub open spec fn wf(self) -> bool {
        match self {
            NodeStep::Ask(request) => request.wf(),
            NodeStep::Send(request) => request.wf(),
        }
    }

    /// The step as mathematics.
    pub open spec fn view(&self) -> NodeStepView {
        match self {
            NodeStep::Ask(request) => NodeStepView::Ask(request.view()),
            NodeStep::Send(request) => NodeStepView::Send(request.view()),
        }
    }
}

/// Going on several times: how often the program still has to pause before the
/// last request is sent.
#[derive(Clone, Copy, Debug, PartialEq, Eq, Structural)]
pub struct NodeRun {
    pub step_type: DebuggerStepType,
    pub stops_left: u64,
}

impl NodeRun {
    /// Nothing was sent yet of going on `count` times.
    pub open spec fn start(step_type: DebuggerStepType, count: u64) -> NodeRun {
        NodeRun {
            step_type,
            stops_left: if count > 0 {
                (count - 1) as u64
            } else {
                0
            },
        }
    }

    /// What is to be done next.
    pub open spec fn action(self) -> NodeStepView {
        if self.stops_left > 0 {
            NodeStepView::Ask(calls(step_method(self.step_type)))
        } else {
            NodeStepView::Send(calls(step_method(self.step_type)))
        }
    }

    /// What is to be done next.
    fn next(&self) -> (r: NodeStep)
        ensures
            r.wf(),
            r.view() == self.action(),
    {
        let request = step_request(self.step_type);
        if self.stops_left > 0 {
            NodeStep::Ask(request)
        } else {
            NodeStep::Send(request)
        }
    }
}

/// The requests that going on sends from here to the end, if each is answered
/// and the program pauses each time.
pub open spec fn node_step_requests(run: NodeRun) -> Seq<NodeStepView>
    decreases run.stops_left,
{
    if run.stops_left == 0 {
        seq![run.action()]
    } else {
        seq![run.action()] + node_step_requests(
            NodeRun { stops_left: (run.stops_left - 1) as u64, ..run },
        )
    }
}

proof fn node_run_count(run: NodeRun)
    ensures
        node_step_requests(run).len() == run.stops_left + 1,
        forall|i: int|
            0 <= i < run.stops_left ==> #[trigger] node_step_requests(run)[i] == NodeStepView::Ask(
                calls(step_method(run.step_type)),
            ),
        node_step_requests(run).last() == NodeStepView::Send(calls(step_method(run.step_type))),
    decreases run.stops_left,
{
    if run.stops_left > 0 {
        let rest = NodeRun { stops_left: (run.stops_left - 1) as u64, ..run };
        node_run_count(rest);
        assert forall|i: int| 0 <= i < run.stops_left implies #[trigger] node_step_requests(run)[i]
            == NodeStepView::Ask(calls(step_method(run.step_type))) by {
            if i > 0 {
                assert(node_step_requests(run)[i] == node_step_requests(rest)[i - 1]);
            }
        }
        assert(node_step_requests(run).last() == node_step_requests(rest).last());
    }
}

/// Going on `count` times sends `count` requests, and one where `count` is
/// nought; for all but the last the program is waited for.
pub proof fn node_step_count(step_type: DebuggerStepType, count: u64)
    ensures
        ({
            let sent = node_step_requests(NodeRun::start(step_type, count));
            let request = calls(step_method(step_type));
            &&& sent.len() == (if count > 0 {
                count as int
            } else {
                1
            })
            &&& forall|i: int|
                0 <= i < sent.len() - 1 ==> #[trigger] sent[i] == NodeStepView::Ask(request)
            &&& sent.last() == NodeStepView::Send(request)
        }),
{
    node_run_count(NodeRun::start(step_type, count));
}

impl NodeHandler {
    /// The breakpoints are kept in order.
    pub open spec fn wf(self) -> bool {
        self.breakpoints.wf()
    }

    /// A session with these breakpoints.
    pub fn new(breakpoints: Breakpoints) -> (r: NodeHandler)
        ensures
            r.scripts@.len() == 0,
            r.breakpoints == breakpoints,
            !r.stop_awaited,
    {
        NodeHandler { scripts: Vec::new(), breakpoints, stop_awaited: false }
    }

    /// Starts to go on, `count` times.
    pub fn do_step(&mut self, step_type: DebuggerStepType, count: u64) -> (r: (NodeRun, NodeStep))
        ensures
            r.0 == NodeRun::start(step_type, count),
            r.1.wf(),
            r.1.view() == r.0.action(),
            *final(self) == (NodeHandler {
                stop_awaited: r.0.stops_left > 0 || old(self).stop_awaited,
                ..*old(self)
            }),
    {
        let stops_left: u64 = if count > 0 {
            count - 1
        } else {
            0
        };
        let run = NodeRun { step_type, stops_left };
        if stops_left > 0 {
            self.stop_awaited = true;
        }
        (run, run.next())
    }

    /// Goes on after the program paused in between.
    pub fn step_stopped(&mut self, run: NodeRun) -> (r: (NodeRun, NodeStep))
        requires
            run.stops_left > 0,
        ensures
            r.0 == (NodeRun { stops_left: (run.stops_left - 1) as u64, ..run }),
            r.1.wf(),
            r.1.view() == r.0.action(),
            *final(self) == (NodeHandler {
                stop_awaited: r.0.stops_left > 0 || old(self).stop_awaited,
                ..*old(self)
            }),
    {
        let next = NodeRun { step_type: run.step_type, stops_left: run.stops_left - 1 };
        if next.stops_left > 0 {
            self.stop_awaited = true;
        }
        (next, next.next())
    }

    /// Switches the breakpoint that the last of the lines of the window stands
    /// for: off if it is shown as enabled, on if it is not. Its file is the
    /// result, whose breakpoints are then to be set.
    pub fn toggle_breakpoint(&mut self, lines: &Vec<String>) -> (r: Result<String, ToggleError>)
        requires
            old(self).wf(),
            name_can_be_cut(texts(lines@)),
        ensures
            final(self).wf(),
            final(self).scripts == old(self).scripts,
            final(self).stop_awaited == old(self).stop_awaited,
            toggles_listed(old(self).breakpoints@, final(self).breakpoints@, texts(lines@), r),
    {
        toggle_listed(&mut self.breakpoints, lines)
    }

    /// Places a breakpoint.
    pub fn add_breakpoint(&mut self, source_file_path: String, source_line_number: i64)
        requires
            old(self).wf(),
        ensures
            final(self).wf(),
            final(self).scripts == old(self).scripts,
            final(self).stop_awaited == old(self).stop_awaited,
            final(self).breakpoints@ == with_pending(
                old(self).breakpoints@,
                source_file_path@,
                source_line_number,
            ),
    {
        let _ = self.breakpoints.add_pending_breakpoint(source_file_path, source_line_number);
    }

    /// Takes a breakpoint away.
    pub fn remove_breakpoint(&mut self, source_file_path: String, source_line_number: i64) -> (r:
        Result<(), BreakpointError>)
        requires
            old(self).wf(),
            old(self).breakpoints@.contains_key(source_file_path@) ==> old(
                self,
            ).breakpoints@[source_file_path@].contains_key(source_line_number),
        ensures
            final(self).wf(),
            final(self).scripts == old(self).scripts,
            final(self).stop_awaited == old(self).stop_awaited,
            match r {
                Ok(_) => old(self).breakpoints@.contains_key(source_file_path@)
                    && final(self).breakpoints@ == without_breakpoint(
                    old(self).breakpoints@,
                    source_file_path@,
                    source_line_number,
                ),
                Err(e) => !old(self).breakpoints@.contains_key(source_file_path@)
                    && final(self).breakpoints@ == old(self).breakpoints@ && e
                    == BreakpointError::NoFile(source_file_path),
            },
    {
        self.breakpoints.remove_breakpoint(source_file_path, source_line_number)
    }

    /// The lines of a file to set breakpoints on, where breakpoints were placed in
    /// the file.
    pub fn breakpoint_lines(&self, file_canonical_path: &str) -> (r: Option<Vec<i64>>)
        requires
            self.wf(),
        ensures
            match r {
                Some(lines) => self.breakpoints@.contains_key(file_canonical_path@) && lines@
                    == enabled_lines(self.breakpoints@[file_canonical_path@]) && lists_enabled(
                    self.breakpoints@[file_canonical_path@],
                    lines@,
                ),
                None => !self.breakpoints@.contains_key(file_canonical_path@),
            },
    {
        match self.breakpoints.get_all_breakpoint_line_numbers_for_file(file_canonical_path) {
            Ok(lines) => Some(lines_to_set(lines)),
            Err(_) => None,
        }
    }

    /// Notes a script that Node parsed, and gives its file.
    pub fn analyze_script_parsed(&mut self, event: &Json) -> (r: Result<String, ScriptError>)
        requires
            event.wf(),
        ensures
            final(self).breakpoints == old(self).breakpoints,
            final(self).stop_awaited == old(self).stop_awaited,
            ({
                let url = event.view().member("params"@).member("url"@);
                let id = event.view().member("params"@).member("scriptId"@);
                match r {
                    Ok(file) => url == JsonView::Str(file@) && (id matches JsonView::Str(i)
                        && final(self).scripts@.len() == old(self).scripts@.len() + 1
                        && final(self).scripts@.drop_last() == old(self).scripts@
                        && final(self).scripts@.last().file_text() == file@
                        && final(self).scripts@.last().id_text() == i),
                    Err(ScriptError::NoFile) => url !is Str && final(self).scripts
                        == old(self).scripts,
                    Err(ScriptError::NoScriptId) => url is Str && id !is Str
                        && final(self).scripts == old(self).scripts,
                }
            }),
    {
        let file = match member_of(event, "params", "url") {
            Some(j) => match j.as_str() {
                Some(s) => s.to_string(),
                None => return Err(ScriptError::NoFile),
            },
            None => return Err(ScriptError::NoFile),
        };
        let script_id = match member_of(event, "params", "scriptId") {
            Some(j) => match j.as_str() {
                Some(s) => s.to_string(),
                None => return Err(ScriptError::NoScriptId),
            },
            None => return Err(ScriptError::NoScriptId),
        };
        let ghost before = self.scripts@;
        self.scripts.push(Script::new(file.clone(), script_id));
        assert(self.scripts@.drop_last() =~= before);
        Ok(file)
    }

    /// Where the program paused, by the event that tells of it: in the script whose
    /// id is given, and without one in the script of the file. Somebody who waited
    /// for it is to go on instead.
    pub fn analyse_debugger_paused(&mut self, event: &Json) -> (r: Result<
        PausedAction,
        PausedError,
    >)
        requires
            event.wf(),
        ensures
            final(self).scripts == old(self).scripts,
            final(self).breakpoints == old(self).breakpoints,
            !final(self).stop_awaited,
            ({
                let top = call_frames(event.view()).item(0);
                let id = in_location(top, "scriptId"@);
                let url = top.member("url"@);
                if old(self).stop_awaited {
                    r == Ok::<PausedAction, PausedError>(PausedAction::GoOn)
                } else {
                    match r {
                        Ok(PausedAction::GoOn) => false,
                        Ok(PausedAction::Show(i, line)) => line_of(top) == Some(line as int) && i
                            < old(self).scripts@.len() && (id matches JsonView::Str(s) && first_of(
                            ids_of(old(self).scripts@),
                            s,
                            0,
                        ) == Some(i as int)),
                        Ok(PausedAction::LookUp(file, line)) => line_of(top) == Some(line as int)
                            && id !is Str && url == JsonView::Str(file@),
                        Err(PausedError::NoLine) => line_of(top) is None,
                        Err(PausedError::UnknownScript) => line_of(top) is Some && (id matches
                            JsonView::Str(s) && first_of(ids_of(old(self).scripts@), s, 0) is None),
                        Err(PausedError::NoFile) => line_of(top) is Some && id !is Str && url
                            !is Str,
                    }
                }
            }),
    {
        if self.stop_awaited {
            self.stop_awaited = false;
            return Ok(PausedAction::GoOn);
        }
        let top = match member_of(event, "params", "callFrames") {
            Some(frames) => match frames.item(0) {
                Some(top) => top,
                None => return Err(PausedError::NoLine),
            },
            None => return Err(PausedError::NoLine),
        };
        let line: i64 = match read_line(top) {
            Some(line) => line,
            None => return Err(PausedError::NoLine),
        };
        if let Some(id) = member_of(top, "location", "scriptId") {
            if let Some(id) = id.as_str() {
                return match get_script_from_id(&self.scripts, id) {
                    Some(i) => Ok(PausedAction::Show(i, line)),
                    None => Err(PausedError::UnknownScript),
                };
            }
        }
        match top.get("url") {
            Some(url) => match url.as_str() {
                Some(file) => Ok(PausedAction::LookUp(file.to_string(), line)),
                None => Err(PausedError::NoFile),
            },
            None => Err(PausedError::NoFile),
        }
    }
}

/// What is wrong with the frames of an event.
#[derive(Clone, Copy, Debug, PartialEq, Eq, Structural)]
pub enum CallStackError {
    NotAnArray,
    /// The script of the frame at this position is not known.
    NoScript(usize),
    /// The frame at this position has no line.
    NoLine(usize),
}

/// The script of a frame.
pub open spec fn script_of(scripts: Seq<Script>, frame: JsonView) -> Option<int> {
    match in_location(frame, "scriptId"@) {
        JsonView::Str(id) => first_of(ids_of(scripts), id, 0),
        _ => None,
    }
}

/// The member `k` of an object that has it.
pub open spec fn member_json(j: Json, k: Seq<char>) -> Option<Json> {
    match j {
        Json::Object(m) => if m@.contains_key(k) {
            Some(m@[k])
        } else {
            None
        },
        _ => None,
    }
}

/// The frames that an event lists, if it lists any.
pub open spec fn frame_list(event: Json) -> Option<Seq<Json>> {
    match member_json(event, "params"@) {
        Some(params) => match member_json(params, "callFrames"@) {
            Some(Json::Array(frames)) => Some(frames@),
            _ => None,
        },
        None => None,
    }
}

/// The name of the function of a frame, as JSON text.
pub open spec fn function_name(frame: Json) -> Seq<char> {
    match member_json(frame, "functionName"@) {
        Some(name) => shown(name),
        None => "null"@,
    }
}

/// The first frame from `from` on that cannot be shown.
pub open spec fn bad_frame(scripts: Seq<Script>, frames: Seq<Json>, from: int) -> Option<int>
    decreases frames.len() - from,
{
    if from < 0 || from >= frames.len() {
        None
    } else if script_of(scripts, frames[from].view()) is None || line_of(frames[from].view())
        is None {
        Some(from)
    } else {
        bad_frame(scripts, frames, from + 1)
    }
}

/// The two lines for each of the frames: its place, and its function.
pub open spec fn stack_lines(scripts: Seq<Script>, frames: Seq<Json>) -> Seq<Seq<char>>
    decreases frames.len(),
{
    if frames.len() == 0 {
        Seq::empty()
    } else {
        let frame = frames.last();
        stack_lines(scripts, frames.drop_last()).push(
            scripts[script_of(scripts, frame.view())->0].file_text() + ":"@ + decimal_int(
                line_of(frame.view())->0,
            ),
        ).push("- "@ + function_name(frame))
    }
}

fn find_member<'a>(j: &'a Json, k: &str) -> (r: Option<&'a Json>)
    requires
        j.wf(),
    ensures
        match r {
            Some(found) => found.wf() && member_json(*j, k@) == Some(*found),
            None => member_json(*j, k@) is None,
        },
{
    match j {
        Json::Object(m) => {
            proof {
                object_view(*m);
            }
            m.get(k)
        },
        _ => None,
    }
}

fn show_function(frame: &Json) -> (r: String)
    requires
        frame.wf(),
    ensures
        r@ == function_name(*frame),
{
    match find_member(frame, "functionName") {
        Some(name) => name.display(),
        None => "null".to_string(),
    }
}

/// The call stack that an event lists.
pub fn display_output_info(scripts: &Vec<Script>, event: &Json) -> (r: Result<
    Vec<String>,
    CallStackError,
>)
    requires
        event.wf(),
    ensures
        match frame_list(*event) {
            None => r == Err::<Vec<String>, CallStackError>(CallStackError::NotAnArray),
            Some(frames) => match bad_frame(scripts@, frames, 0) {
                None => r matches Ok(lines) && texts(lines@) == stack_lines(scripts@, frames),
                Some(i) => r == Err::<Vec<String>, CallStackError>(
                    if script_of(scripts@, frames[i].view()) is None {
                        CallStackError::NoScript(i as usize)
                    } else {
                        CallStackError::NoLine(i as usize)
                    },
                ),
            },
        },
{
    let frames = match find_member(event, "params") {
        Some(params) => find_member(params, "callFrames"),
        None => None,
    };
    let list = match frames {
        Some(Json::Array(list)) => list,
        _ => return Err(CallStackError::NotAnArray),
    };
    let mut lines: Vec<String> = Vec::new();
    let mut i: usize = 0;
    assert(texts(lines@) =~= stack_lines(scripts@, list@.take(0)));
    while i < list.len()
        invariant
            i <= list@.len(),
            frame_list(*event) == Some(list@),
            forall|j: int| 0 <= j < list@.len() ==> (#[trigger] list@[j]).wf(),
            bad_frame(scripts@, list@, 0) == bad_frame(scripts@, list@, i as int),
            texts(lines@) == stack_lines(scripts@, list@.take(i as int)),
        decreases list@.len() - i,
    {
        let frame = &list[i];
        let found: Option<usize> = match member_of(frame, "location", "scriptId") {
            Some(id) => match id.as_str() {
                Some(id) => get_script_from_id(scripts, id),
                None => None,
            },
            None => None,
        };
        let at: usize = match found {
            Some(at) => at,
            None => return Err(CallStackError::NoScript(i)),
        };
        let line: i64 = match read_line(frame) {
            Some(line) => line,
            None => return Err(CallStackError::NoLine(i)),
        };
        let ghost before = texts(lines@);
        let number = signed_text(line);
        let place = scripts[at].get_file().to_string().concat(":").concat(number.as_str());
        let name = show_function(frame);
        let function = "- ".to_string().concat(name.as_str());
        lines.push(place);
        lines.push(function);
        proof {
            let more = list@.take(i + 1);
            assert(more.drop_last() =~= list@.take(i as int));
            assert(more.last() == *frame);
            assert(texts(lines@) =~= before.push(place@).push(function@));
        }
        i = i + 1;
    }
    assert(list@.take(i as int) =~= list@);
    Ok(lines)
}

/// Where the program paused, by the file that the event names, with the line.
pub fn paused_in_file(event: &Json) -> (r: Result<(String, i64), PausedError>)
    requires
        event.wf(),
    ensures
        ({
            let top = call_frames(event.view()).item(0);
            match r {
                Ok((file, line)) => top.member("url"@) == JsonView::Str(file@) && line_of(top)
                    == Some(line as int),
                Err(PausedError::NoFile) => top.member("url"@) !is Str,
                Err(PausedError::NoLine) => top.member("url"@) is Str && line_of(top) is None,
                Err(PausedError::UnknownScript) => false,
            }
        }),
{
    let top = match member_of(event, "params", "callFrames") {
        Some(frames) => match frames.item(0) {
            Some(top) => top,
            None => return Err(PausedError::NoFile),
        },
        None => return Err(PausedError::NoFile),
    };
    let file = match top.get("url") {
        Some(url) => match url.as_str() {
            Some(file) => file.to_string(),
            None => return Err(PausedError::NoFile),
        },
        None => return Err(PausedError::NoFile),
    };
    match read_line(top) {
        Some(line) => Ok((file, line)),
        None => Err(PausedError::NoLine),
    }
}

/// The source of a script, by the answer about it.
pub fn script_source(response: &Json) -> (r: Option<String>)
    requires
        response.wf(),
    ensures
        match r {
            Some(source) => response.view().member("result"@).member("scriptSource"@)
                == JsonView::Str(source@),
            None => response.view().member("result"@).member("scriptSource"@) !is Str,
        },
{
    match member_of(response, "result", "scriptSource") {
        Some(j) => match j.as_str() {
            Some(source) => Some(source.to_string()),
            None => None,
        },
        None => None,
    }
}

/// The type of file that a script is.
pub fn script_file_type(file: &str) -> (r: &'static str)
    ensures
        r@ == (if ".ts"@.is_suffix_of(file@) {
            "typescript"@
        } else {
            "javascript"@
        }),
{
    if has_suffix(file, ".ts") {
        "typescript"
    } else {
        "javascript"
    }
}

/// What is told of a file whose script is not known.
pub fn script_not_found(file: &str) -> (r: String)
    ensures
        r@ == "Can't find script for "@ + file@,
{
    "Can't find script for ".to_string().concat(file)
}

/// The requests that let Node start, with whether the answer is waited for.
pub fn init_requests() -> (r: Vec<(Json, bool)>)
    ensures
        r@.len() == 3,
        forall|i: int| 0 <= i < 3 ==> (#[trigger] r@[i]).0.wf(),
        r@[0].0.view() == calls("Runtime.enable"@) && r@[0].1,
        r@[1].0.view() == calls("Debugger.enable"@) && !r@[1].1,
        r@[2].0.view() == calls("Runtime.runIfWaitingForDebugger"@) && !r@[2].1,
{
    vec![
        (method_request("Runtime.enable"), true),
        (method_request("Debugger.enable"), false),
        (method_request("Runtime.runIfWaitingForDebugger"), false),
    ]
}

/// The breakpoints of files whose scripts Node has not parsed yet.
#[derive(Debug)]
pub struct AwaitedBreakpoints {
    pub files: StrMap<Vec<i64>>,
}

/// What follows from asking for breakpoints in a file.
#[derive(Debug)]
pub enum AwaitedAction {
    /// These are to be sent, one after the other.
    Send(Vec<Json>),
    /// They were noted, and this is to be logged.
    Noted(String),
}

impl AwaitedBreakpoints {
    /// The files are kept in order.
    pub open spec fn wf(self) -> bool {
        self.files.wf()
    }

    /// No breakpoints.
    pub fn new() -> (r: AwaitedBreakpoints)
        ensures
            r.wf(),
            r.files@ == Map::<Seq<char>, Vec<i64>>::empty(),
    {
        AwaitedBreakpoints { files: StrMap::new() }
    }

    /// Sets the breakpoints of a file: at once where its script is known, and else
    /// when Node has parsed it.
    pub fn set_breakpoints(
        &mut self,
        script_id: Option<&str>,
        file_path: String,
        line_numbers: Vec<i64>,
    ) -> (r: AwaitedAction)
        requires
            old(self).wf(),
            forall|i: int| 0 <= i < line_numbers@.len() ==> #[trigger] line_numbers@[i] > i64::MIN,
        ensures
            final(self).wf(),
            match script_id {
                Some(id) => final(self).files@ == old(self).files@ && (r matches
                    AwaitedAction::Send(requests) && requests@.len() == line_numbers@.len() && (
                forall|i: int|
                    0 <= i < requests@.len() ==> (#[trigger] requests@[i]).wf()
                        && requests@[i].view() == breaks_at(id@, line_numbers@[i]))),
                None => final(self).files@ == old(self).files@.insert(file_path@, line_numbers) && (
                r matches AwaitedAction::Noted(text) && text@ == "Can't find script for "@
                    + file_path@),
            },
    {
        match script_id {
            Some(id) => AwaitedAction::Send(breakpoint_requests(id, &line_numbers)),
            None => {
                let text = script_not_found(file_path.as_str());
                self.files.insert(file_path, line_numbers);
                AwaitedAction::Noted(text)
            },
        }
    }

    /// The lines of a file that Node has parsed now.
    pub fn lines_for(&self, file_canonical_path: &str) -> (r: Option<&Vec<i64>>)
        requires
            self.wf(),
        ensures
            match r {
                Some(lines) => self.files@.contains_key(file_canonical_path@) && *lines
                    == self.files@[file_canonical_path@],
                None => !self.files@.contains_key(file_canonical_path@),
            },
    {
        self.files.get(file_canonical_path)
    }
}

/// What is told when there is no program to run.
pub const NO_COMMAND_SPECIFIED: &'static str = "No command specified";

/// What the log says when everything is set up.
pub const NODE_LAUNCHED: &'static str = "Node Debugger and program launched successfully";

/// What the log says of a message that is no text.
pub const UNSUPPORTED_MESSAGE: &'static str =
    "Received message from debugger that is not supported";

/// What the log says when Node is gone.
pub const DISCONNECTED: &'static str = "Client has disconnected";

/// Whether a file is Node itself.
pub open spec fn is_node(name: Seq<char>, exe_suffix: Seq<char>) -> bool {
    name == "node"@ || name == "node"@ + exe_suffix
}

/// What is left of a command without Node itself, where that is the name of the
/// program, if it has one.
pub open spec fn left_without_node(
    command_args: Seq<String>,
    name: Option<Seq<char>>,
    exe_suffix: Seq<char>,
) -> Seq<String> {
    if name matches Some(n) && is_node(n, exe_suffix) {
        command_args.skip(1)
    } else {
        command_args
    }
}

/// What is left of a command when Node itself is not part of it. Where the name of
/// the program stands in its path depends on the system, unless the path is plain.
/// Nothing is left out where `node` does not stand in the path.
pub fn node_command_args(command_args: Vec<String>, exe_suffix: &str) -> (r: Option<Vec<String>>)
    ensures
        match r {
            None => command_args@.len() == 0,
            Some(rest) => {
                let path = command_args@[0]@;
                &&& command_args@.len() > 0
                &&& exists|name: Option<Seq<char>>| #[trigger]
                    may_be_name(path, name) && rest@ == left_without_node(
                        command_args@,
                        name,
                        exe_suffix@,
                    )
                &&& plain_path(path) ==> rest@ == left_without_node(
                    command_args@,
                    last_name(path),
                    exe_suffix@,
                )
                &&& !contains_text(path, "node"@) ==> rest@ == command_args@
            },
        },
{
    if command_args.len() == 0 {
        return None;
    }
    let found = file_name(command_args[0].as_str());
    let ghost path = command_args@[0]@;
    let ghost name = text_if_any(found);
    proof {
        if let Some(n) = name {
            if is_node(n, exe_suffix@) {
                let at = choose|at: int| stands_at(path, n, at);
                assert(path.subrange(at, at + "node"@.len()) =~= n.take("node"@.len() as int));
                assert(n.take("node"@.len() as int) =~= "node"@);
                assert(stands_at(path, "node"@, at));
            }
        }
        assert(may_be_name(path, name));
    }
    match found {
        Some(name) => without_node(command_args, Some(name.as_str()), exe_suffix),
        None => without_node(command_args, None, exe_suffix),
    }
}

/// What is left of a command without Node itself, where this is the name of the
/// program, if it has one.
pub fn without_node(command_args: Vec<String>, name: Option<&str>, exe_suffix: &str) -> (r: Option<
    Vec<String>,
>)
    ensures
        match r {
            None => command_args@.len() == 0,
            Some(rest) => command_args@.len() > 0 && rest@ == left_without_node(
                command_args@,
                match name {
                    Some(n) => Some(n@),
                    None => None,
                },
                exe_suffix@,
            ),
        },
{
    if command_args.len() == 0 {
        return None;
    }
    let node = match name {
        Some(n) => {
            let with_suffix = "node".to_string().concat(exe_suffix);
            same(n, "node") || same(n, with_suffix.as_str())
        },
        None => false,
    };
    let mut rest = command_args;
    if node {
        let _ = rest.remove(0);
        assert(rest@ =~= command_args@.skip(1));
    }
    Some(rest)
}

/// The arguments that start Node on a port, for a program with its arguments.
pub fn node_arguments(port: u16, command_args: Vec<String>) -> (r: Vec<String>)
    ensures
        texts(r@) == seq!["--inspect-brk="@ + decimal(port as nat)] + texts(command_args@),
{
    let number = unsigned_text(port as u64);
    let first = "--inspect-brk=".to_string().concat(number.as_str());
    let mut r = command_args;
    r.insert(0, first);
    assert(texts(r@) =~= seq![first@] + texts(command_args@));
    r
}

/// What the log says before Node is started. `node_path` is the path as it is
/// shown.
pub fn launch_notice(node_path: &str, command_args: &Vec<String>) -> (r: String)
    ensures
        r@ == "Launching Node process "@ + node_path@ + " with args: "@ + debug_listed(
            texts(command_args@),
        ),
{
    let args = debug_list(command_args);
    "Launching Node process ".to_string().concat(node_path).concat(" with args: ").concat(
        args.as_str(),
    )
}

/// What the log says before Node is connected to.
pub fn connect_notice(ws_url: &str) -> (r: String)
    ensures
        r@ == "Connecting to WS Url "@ + ws_url@,
{
    "Connecting to WS Url ".to_string().concat(ws_url)
}

/// For how many seconds an event of Node is dealt with.
pub const EVENT_TIMEOUT_SECONDS: u64 = 30;

/// What the log says when an event of Node was not dealt with in time.
pub fn event_failure(why: &str) -> (r: String)
    ensures
        r@ == "Debugger Event Error: "@ + why@,
{
    "Debugger Event Error: ".to_string().concat(why)
}

/// For how many seconds the address of Node is waited for.
pub const ADDRESS_TIMEOUT_SECONDS: u64 = 60;

/// Reading what Node writes to its error stream: first its address, then, after a
/// hint, what the program writes.
#[derive(Clone, Copy, Debug, PartialEq, Eq, Structural)]
pub struct StderrReader {
    pub log_stderr: bool,
    pub address_known: bool,
}

/// What to do with a line of the error stream.
#[derive(Debug)]
pub enum StderrAction {
    Nothing,
    /// This is where Node listens.
    Address(String),
    /// Node told once more where it listens.
    AddressAgain,
    /// This is to be written out.
    Write(String),
}

impl StderrReader {
    /// Nothing was read yet.
    pub fn new() -> (r: StderrReader)
        ensures
            r == (StderrReader { log_stderr: false, address_known: false }),
    {
        StderrReader { log_stderr: false, address_known: false }
    }

    /// What to do with a line.
    pub fn read(&mut self, line: &str) -> (r: StderrAction)
        ensures
            if old(self).log_stderr {
                &&& r matches StderrAction::Write(text) && text@ == line@
                &&& *final(self) == *old(self)
            } else if "Debugger listening on "@.is_prefix_of(line@) {
                &&& *final(self) == (StderrReader { address_known: true, ..*old(self) })
                &&& if old(self).address_known {
                    r == StderrAction::AddressAgain
                } else {
                    r matches StderrAction::Address(url) && url@ == line@.skip(
                        "Debugger listening on "@.len() as int,
                    )
                }
            } else {
                &&& r == StderrAction::Nothing
                &&& *final(self) == (StderrReader {
                    log_stderr: line@
                        == "Debugger stderr: For help, see: https://nodejs.org/en/docs/inspector"@,
                    ..*old(self)
                })
            },
    {
        proof {
            reveal_strlit("Debugger listening on ");
        }
        if self.log_stderr {
            return StderrAction::Write(line.to_string());
        }
        if has_prefix(line, "Debugger listening on ") {
            if self.address_known {
                return StderrAction::AddressAgain;
            }
            self.address_known = true;
            return StderrAction::Address(without_first(line, 22));
        }
        if same(line, "Debugger stderr: For help, see: https://nodejs.org/en/docs/inspector") {
            self.log_stderr = true;
        }
        StderrAction::Nothing
    }
}

proof fn first_of_is_first(list: Seq<Seq<char>>, wanted: Seq<char>, from: int)
    requires
        0 <= from,
    ensures
        match first_of(list, wanted, from) {
            Some(i) => from <= i < list.len() && list[i] == wanted && forall|j: int|
                from <= j < i ==> #[trigger] list[j] != wanted,
            None => forall|j: int| from <= j < list.len() ==> #[trigger] list[j] != wanted,
        },
    decreases list.len() - from,
{
    if from < list.len() && list[from] != wanted {
        first_of_is_first(list, wanted, from + 1);
    }
}

/// The script of a file is the first one whose file has that name. As long as it is not
/// met, the next name is resolved, and it is missing only when none has that name.
pub proof fn first_script_of_a_file_is_found(
    count: usize,
    resolved: &Vec<String>,
    wanted: &str,
    r: ScriptLookup,
)
    requires
        resolved@.len() <= count,
        call_ensures(get_script_from_filename, (count, resolved, wanted), r),
    ensures
        match r {
            ScriptLookup::Found(i) => i < resolved@.len() && resolved@[i as int]@ == wanted@
                && forall|j: int| 0 <= j < i ==> (#[trigger] resolved@[j])@ != wanted@,
            ScriptLookup::Resolve(i) => i == resolved@.len() < count && forall|j: int|
                0 <= j < resolved@.len() ==> (#[trigger] resolved@[j])@ != wanted@,
            ScriptLookup::Missing => resolved@.len() == count && forall|j: int|
                0 <= j < resolved@.len() ==> (#[trigger] resolved@[j])@ != wanted@,
        },
{
    let names = texts(resolved@);
    first_of_is_first(names, wanted@, 0);
    assert forall|j: int| 0 <= j < resolved@.len() implies (#[trigger] resolved@[j])@
        == names[j] by {}
}

/// Whether the script at position `k` is the first with that id.
pub open spec fn first_with_id(scripts: Seq<Script>, id: Seq<char>, k: int) -> bool {
    &&& 0 <= k < scripts.len()
    &&& scripts[k].id_text() == id
    &&& forall|j: int| 0 <= j < k ==> (#[trigger] scripts[j]).id_text() != id
}

proof fn script_with_id(scripts: Seq<Script>, id: Seq<char>)
    ensures
        match first_of(ids_of(scripts), id, 0) {
            Some(k) => first_with_id(scripts, id, k),
            None => forall|j: int| 0 <= j < scripts.len() ==> (#[trigger] scripts[j]).id_text() != id,
        },
{
    let ids = ids_of(scripts);
    first_of_is_first(ids, id, 0);
    assert forall|j: int| 0 <= j < scripts.len() implies (#[trigger] scripts[j]).id_text()
        == ids[j] by {}
}

/// The script with an id is the first one that has it, and none only where no script has
/// it.
pub proof fn first_script_with_an_id_is_found(
    scripts: &Vec<Script>,
    script_id: &str,
    r: Option<usize>,
)
    requires
        call_ensures(get_script_from_id, (scripts, script_id), r),
    ensures
        match r {
            Some(k) => first_with_id(scripts@, script_id@, k as int),
            None => forall|j: int|
                0 <= j < scripts@.len() ==> (#[trigger] scripts@[j]).id_text() != script_id@,
        },
{
    script_with_id(scripts@, script_id@);
}

/// Whether a value is an object with that member.
pub open spec fn has_member(j: JsonView, k: Seq<char>, v: JsonView) -> bool {
    j matches JsonView::Object(o) && o.contains_key(k) && o[k] == v
}

/// Whether a request sets a breakpoint on a line of a script, which Node counts from
/// nought.
pub open spec fn breaks_on(request: JsonView, script_id: Seq<char>, line: i64) -> bool {
    &&& has_member(request, "method"@, JsonView::Str("Debugger.setBreakpoint"@))
    &&& exists|params: JsonView, location: JsonView|
        {
            &&& #[trigger] has_member(request, "params"@, params)
            &&& #[trigger] has_member(params, "location"@, location)
            &&& has_member(location, "scriptId"@, JsonView::Str(script_id))
            &&& has_member(location, "lineNumber"@, JsonView::Int(line - 1))
        }
}

proof fn breaks_at_breaks(script_id: Seq<char>, line: i64)
    ensures
        breaks_on(breaks_at(script_id, line), script_id, line),
{
    reveal_strlit("method");
    reveal_strlit("params");
    reveal_strlit("scriptId");
    reveal_strlit("lineNumber");
    assert("method"@[0] != "params"@[0]);
    assert("scriptId"@.len() != "lineNumber"@.len());
    let request = breaks_at(script_id, line);
    let params = request->Object_0["params"@];
    let location = params->Object_0["location"@];
    assert(has_member(request, "params"@, params));
    assert(has_member(params, "location"@, location));
    assert(has_member(location, "scriptId"@, JsonView::Str(script_id)));
    assert(has_member(location, "lineNumber"@, JsonView::Int(line - 1)));
}

/// For every line one breakpoint is set, on that line of the script, in order.
pub proof fn every_line_gets_its_breakpoint(
    script_id: &str,
    lines: &Vec<i64>,
    r: Vec<Json>,
)
    requires
        call_ensures(breakpoint_requests, (script_id, lines), r),
    ensures
        r@.len() == lines@.len(),
        forall|i: int|
            #![trigger r@[i]]
            0 <= i < lines@.len() ==> breaks_on(r@[i].view(), script_id@, lines@[i]),
{
    assert forall|i: int|
        #![trigger r@[i]]
        0 <= i < lines@.len() implies breaks_on(r@[i].view(), script_id@, lines@[i]) by {
        breaks_at_breaks(script_id@, lines@[i]);
    }
}

/// The breakpoints of a file whose script is known are set there at once. Else they are
/// kept, and are there when the file is asked for. Those of other files stay.
pub proof fn breakpoints_wait_for_their_script(
    before: AwaitedBreakpoints,
    script_id: Option<&str>,
    file: String,
    lines: Vec<i64>,
    after: AwaitedBreakpoints,
    r: AwaitedAction,
    held: &AwaitedBreakpoints,
    asked: &str,
    found: Option<&Vec<i64>>,
    earlier: Option<&Vec<i64>>,
    held_before: &AwaitedBreakpoints,
)
    requires
        exists|a: &mut AwaitedBreakpoints|
            *a == before && *final(a) == after && #[trigger] call_ensures(
                AwaitedBreakpoints::set_breakpoints,
                (a, script_id, file, lines),
                r,
            ),
        *held == after,
        *held_before == before,
        call_ensures(AwaitedBreakpoints::lines_for, (held, asked), found),
        call_ensures(AwaitedBreakpoints::lines_for, (held_before, asked), earlier),
    ensures
        script_id matches Some(id) ==> {
            &&& r matches AwaitedAction::Send(requests)
            &&& requests@.len() == lines@.len()
            &&& forall|i: int|
                #![trigger requests@[i]]
                0 <= i < lines@.len() ==> breaks_on(requests@[i].view(), id@, lines@[i])
            &&& found == earlier
        },
        script_id is None ==> r is Noted && if asked@ == file@ {
            found matches Some(l) && l@ == lines@
        } else {
            found == earlier
        },
{
    if let Some(id) = script_id {
        if let AwaitedAction::Send(requests) = r {
            assert forall|i: int|
                #![trigger requests@[i]]
                0 <= i < lines@.len() implies breaks_on(
                requests@[i].view(),
                id@,
                lines@[i],
            ) by {
                breaks_at_breaks(id@, lines@[i]);
            }
        }
    }
}

/// A request gets its number and keeps everything else, whichever way the two are laid
/// over one another, as long as it has no number of its own and no nulls.
pub proof fn number_is_all_that_is_added(
    request: Json,
    id: u64,
    numbered: Json,
    over: Json,
    members: Map<Seq<char>, JsonView>,
    k: Seq<char>,
)
    requires
        request.view() == JsonView::Object(members),
        !members.contains_key("id"@),
        members.contains_key(k) ==> members[k] is Str || members[k] is Int || members[k] is Bool,
        call_ensures(numbered_request, (request, id), numbered),
        call_ensures(request_over_number, (request, id), over),
    ensures
        has_member(numbered.view(), "id"@, JsonView::Int(id as int)),
        has_member(over.view(), "id"@, JsonView::Int(id as int)),
        members.contains_key(k) ==> has_member(numbered.view(), k, members[k]) && has_member(
            over.view(),
            k,
            members[k],
        ),
        !members.contains_key(k) && k != "id"@ ==> !(numbered.view() matches JsonView::Object(o)
            && o.contains_key(k)) && !(over.view() matches JsonView::Object(o) && o.contains_key(k)),
{
    request_gets_its_number(members, id as int);
    reveal_with_fuel(merged, 2);
}

/// An answer is for the request whose number it has, and for no other. What has no number
/// is an event.
pub proof fn answer_is_for_its_request(message: &Json, id: u64, answers: bool, event: bool)
    requires
        message.wf(),
        call_ensures(answers_request, (message, id), answers),
        call_ensures(message_is_event, (message,), event),
    ensures
        answers == has_member(message.view(), "id"@, JsonView::Int(id as int)),
        event == !(message.view() matches JsonView::Object(o) && o.contains_key("id"@)),
{
}

/// Whether a request calls a method.
pub open spec fn calls_method(request: Json, method: Seq<char>) -> bool {
    has_member(request.view(), "method"@, JsonView::Str(method))
}

/// The three ways to go on are the three methods of Node for it. Going on several times
/// is waited for each time but the last.
pub proof fn node_goes_on_in_that_way(
    before: NodeHandler,
    way: DebuggerStepType,
    count: u64,
    after: NodeHandler,
    r: (NodeRun, NodeStep),
)
    requires
        exists|h: &mut NodeHandler|
            *h == before && *final(h) == after && #[trigger] call_ensures(
                NodeHandler::do_step,
                (h, way, count),
                r,
            ),
    ensures
        ({
            let request = match r.1 {
                NodeStep::Ask(q) => q,
                NodeStep::Send(q) => q,
            };
            match way {
                DebuggerStepType::Over => calls_method(request, "Debugger.stepOver"@),
                DebuggerStepType::In => calls_method(request, "Debugger.stepInto"@),
                DebuggerStepType::Continue => calls_method(request, "Debugger.resume"@),
            }
        }),
        r.1 is Ask <==> count > 1,
        r.0.step_type == way,
        r.0.stops_left == (if count > 1 {
            count - 1
        } else {
            0
        }),
        after == (NodeHandler { stop_awaited: count > 1 || before.stop_awaited, ..before }),
{
}

/// After a pause in between it goes on in the same way, once less.
pub proof fn node_goes_on_once_less(
    before: NodeHandler,
    run: NodeRun,
    after: NodeHandler,
    r: (NodeRun, NodeStep),
)
    requires
        run.stops_left > 0,
        exists|h: &mut NodeHandler|
            *h == before && *final(h) == after && #[trigger] call_ensures(
                NodeHandler::step_stopped,
                (h, run),
                r,
            ),
    ensures
        ({
            let request = match r.1 {
                NodeStep::Ask(q) => q,
                NodeStep::Send(q) => q,
            };
            match run.step_type {
                DebuggerStepType::Over => calls_method(request, "Debugger.stepOver"@),
                DebuggerStepType::In => calls_method(request, "Debugger.stepInto"@),
                DebuggerStepType::Continue => calls_method(request, "Debugger.resume"@),
            }
        }),
        r.1 is Ask <==> run.stops_left > 1,
        r.0.step_type == run.step_type,
        r.0.stops_left == run.stops_left - 1,
        after == (NodeHandler { stop_awaited: run.stops_left > 1 || before.stop_awaited, ..before }),
{
}

/// Whether two lines tell a frame: the file of its script and its line, counted from one,
/// and its function.
pub open spec fn tells_frame(
    scripts: Seq<Script>,
    frame: Json,
    place: Seq<char>,
    function: Seq<char>,
) -> bool {
    let location = frame.view().member("location"@);
    &&& location.member("scriptId"@) matches JsonView::Str(id)
    &&& location.member("lineNumber"@) matches JsonView::Int(line)
    &&& exists|k: int| #[trigger]
        first_with_id(scripts, id, k) && place == scripts[k].file_text() + ":"@ + decimal_int(
            line + 1,
        )
    &&& match frame {
        Json::Object(m) => if m@.contains_key("functionName"@) {
            function == "- "@ + shown(m@["functionName"@])
        } else {
            function == "- null"@
        },
        _ => function == "- null"@,
    }
}

proof fn stack_lines_tell(scripts: Seq<Script>, frames: Seq<Json>)
    requires
        forall|i: int|
            0 <= i < frames.len() ==> script_of(scripts, (#[trigger] frames[i]).view()) is Some
                && line_of(frames[i].view()) is Some,
    ensures
        stack_lines(scripts, frames).len() == 2 * frames.len(),
        forall|i: int|
            #![trigger frames[i]]
            0 <= i < frames.len() ==> tells_frame(
                scripts,
                frames[i],
                stack_lines(scripts, frames)[2 * i],
                stack_lines(scripts, frames)[2 * i + 1],
            ),
    decreases frames.len(),
{
    if frames.len() > 0 {
        let fewer = frames.drop_last();
        assert forall|i: int| 0 <= i < fewer.len() implies script_of(
            scripts,
            (#[trigger] fewer[i]).view(),
        ) is Some && line_of(fewer[i].view()) is Some by {
            assert(fewer[i] == frames[i]);
        }
        stack_lines_tell(scripts, fewer);
        let frame = frames.last();
        assert(frames[frames.len() - 1] == frame);
        let lines = stack_lines(scripts, frames);
        let id = in_location(frame.view(), "scriptId"@)->Str_0;
        script_with_id(scripts, id);
        let k = script_of(scripts, frame.view())->0;
        assert(first_with_id(scripts, id, k));
        assert("- null"@ =~= "- "@ + "null"@) by {
            reveal_strlit("- null");
            reveal_strlit("- ");
            reveal_strlit("null");
        }
        assert forall|i: int|
            #![trigger frames[i]]
            0 <= i < frames.len() implies tells_frame(
            scripts,
            frames[i],
            lines[2 * i],
            lines[2 * i + 1],
        ) by {
            if i < fewer.len() {
                assert(fewer[i] == frames[i]);
                assert(lines[2 * i] == stack_lines(scripts, fewer)[2 * i]);
                assert(lines[2 * i + 1] == stack_lines(scripts, fewer)[2 * i + 1]);
            } else {
                assert(i == fewer.len());
            }
        }
    }
}

proof fn no_bad_frame(scripts: Seq<Script>, frames: Seq<Json>, from: int)
    requires
        0 <= from,
    ensures
        match bad_frame(scripts, frames, from) {
            Some(i) => from <= i < frames.len() && (script_of(scripts, frames[i].view()) is None
                || line_of(frames[i].view()) is None) && forall|j: int|
                from <= j < i ==> script_of(scripts, (#[trigger] frames[j]).view()) is Some
                    && line_of(frames[j].view()) is Some,
            None => forall|j: int|
                from <= j < frames.len() ==> script_of(scripts, (#[trigger] frames[j]).view())
                    is Some && line_of(frames[j].view()) is Some,
        },
    decreases frames.len() - from,
{
    if from < frames.len() && script_of(scripts, frames[from].view()) is Some && line_of(
        frames[from].view(),
    ) is Some {
        no_bad_frame(scripts, frames, from + 1);
    }
}

/// The call stack of Node lists every frame of the event, in order, on two lines: its
/// place and its function. It fails only where a frame has no known script or no line, and
/// then it tells the first such frame.
pub proof fn every_node_frame_is_shown(
    scripts: &Vec<Script>,
    event: &Json,
    outer: StrMap<Json>,
    params: StrMap<Json>,
    frames: Vec<Json>,
    r: Result<Vec<String>, CallStackError>,
)
    requires
        *event == Json::Object(outer),
        outer@.contains_key("params"@) && outer@["params"@] == Json::Object(params),
        params@.contains_key("callFrames"@) && params@["callFrames"@] == Json::Array(frames),
        frames@.len() <= usize::MAX,
        call_ensures(display_output_info, (scripts, event), r),
    ensures
        match r {
            Ok(lines) => lines@.len() == 2 * frames@.len() && forall|i: int|
                #![trigger frames@[i]]
                0 <= i < frames@.len() ==> tells_frame(
                    scripts@,
                    frames@[i],
                    lines@[2 * i]@,
                    lines@[2 * i + 1]@,
                ),
            Err(CallStackError::NotAnArray) => false,
            Err(CallStackError::NoScript(i)) => i < frames@.len() && match frames@[i as int].view()
                .member("location"@).member("scriptId"@) {
                JsonView::Str(id) => forall|j: int|
                    0 <= j < scripts@.len() ==> (#[trigger] scripts@[j]).id_text() != id,
                _ => true,
            },
            Err(CallStackError::NoLine(i)) => i < frames@.len() && !(frames@[i as int].view()
                .member("location"@).member("lineNumber"@) matches JsonView::Int(n) && i64::MIN
                <= n < i64::MAX),
        },
{
    no_bad_frame(scripts@, frames@, 0);
    assert(frame_list(*event) == Some(frames@));
    match bad_frame(scripts@, frames@, 0) {
        Some(i) => {
            match in_location(frames@[i].view(), "scriptId"@) {
                JsonView::Str(id) => {
                    script_with_id(scripts@, id);
                },
                _ => {},
            }
        },
        None => {
            stack_lines_tell(scripts@, frames@);
            if let Ok(lines) = r {
                assert(lines@.len() == texts(lines@).len());
                assert forall|j: int| 0 <= j < lines@.len() implies (#[trigger] lines@[j])@
                    == stack_lines(scripts@, frames@)[j] by {
                    assert(texts(lines@)[j] == lines@[j]@);
                }
                assert forall|i: int|
                    #![trigger frames@[i]]
                    0 <= i < frames@.len() implies tells_frame(
                    scripts@,
                    frames@[i],
                    lines@[2 * i]@,
                    lines@[2 * i + 1]@,
                ) by {
                    assert(lines@[2 * i]@ == stack_lines(scripts@, frames@)[2 * i]);
                    assert(lines@[2 * i + 1]@ == stack_lines(scripts@, frames@)[2 * i + 1]);
                }
            }
        },
    }
}

/// The program paused where the first frame of the event is: on its line, counted from
/// one, in the script that has its id, or else in that of its file. Where somebody waits
/// for it to go on, it goes on instead, and nobody waits any more.
pub proof fn node_paused_in_the_first_frame(
    before: NodeHandler,
    event: &Json,
    frames: Seq<JsonView>,
    after: NodeHandler,
    r: Result<PausedAction, PausedError>,
)
    requires
        event.wf(),
        event.view().member("params"@).member("callFrames"@) == JsonView::Array(frames),
        frames.len() > 0,
        exists|h: &mut NodeHandler|
            *h == before && *final(h) == after && #[trigger] call_ensures(
                NodeHandler::analyse_debugger_paused,
                (h, event),
                r,
            ),
    ensures
        after == (NodeHandler { stop_awaited: false, ..before }),
        before.stop_awaited <==> r == Ok::<PausedAction, PausedError>(PausedAction::GoOn),
        r matches Ok(PausedAction::Show(k, line)) ==> {
            let location = frames[0].member("location"@);
            &&& location.member("lineNumber"@) == JsonView::Int(line - 1)
            &&& location.member("scriptId"@) matches JsonView::Str(id)
            &&& first_with_id(before.scripts@, id, k as int)
        },
        r matches Ok(PausedAction::LookUp(file, line)) ==> {
            &&& frames[0].member("location"@).member("lineNumber"@) == JsonView::Int(line - 1)
            &&& frames[0].member("url"@) == JsonView::Str(file@)
        },
{
    match in_location(frames[0], "scriptId"@) {
        JsonView::Str(id) => {
            script_with_id(before.scripts@, id);
        },
        _ => {},
    }
}

/// A script that Node parsed is found by its id, as long as no earlier one has it, and
/// the earlier ones stay where they are.
pub proof fn parsed_script_is_found(
    before: NodeHandler,
    event: &Json,
    after: NodeHandler,
    file: String,
    id: &str,
    scripts: &Vec<Script>,
    found: Option<usize>,
)
    requires
        event.wf(),
        exists|h: &mut NodeHandler|
            *h == before && *final(h) == after && #[trigger] call_ensures(
                NodeHandler::analyze_script_parsed,
                (h, event),
                Ok(file),
            ),
        event.view().member("params"@).member("scriptId"@) == JsonView::Str(id@),
        *scripts == after.scripts,
        call_ensures(get_script_from_id, (scripts, id), found),
    ensures
        event.view().member("params"@).member("url"@) == JsonView::Str(file@),
        after.scripts@.len() == before.scripts@.len() + 1,
        forall|j: int|
            0 <= j < before.scripts@.len() ==> #[trigger] after.scripts@[j] == before.scripts@[j],
        found is Some,
        (forall|j: int|
            0 <= j < before.scripts@.len() ==> (#[trigger] before.scripts@[j]).id_text() != id@)
            ==> found == Some(before.scripts@.len() as usize) && after.scripts@.last().file_text()
            == file@,
{
    script_with_id(after.scripts@, id@);
    let last = after.scripts@.len() - 1;
    assert(after.scripts@[last].id_text() == id@);
    assert forall|j: int| 0 <= j < before.scripts@.len() implies #[trigger] after.scripts@[j]
        == before.scripts@[j] by {
        assert(after.scripts@.drop_last()[j] == after.scripts@[j]);
    }
}

/// The lines of a file on which Node is to break are those whose breakpoints are enabled.
pub proof fn node_breaks_on_enabled_lines(
    handler: &NodeHandler,
    file: &str,
    r: Option<Vec<i64>>,
)
    requires
        handler.wf(),
        call_ensures(NodeHandler::breakpoint_lines, (handler, file), r),
    ensures
        r is Some <==> handler.breakpoints@.contains_key(file@),
        r matches Some(lines) ==> forall|n: i64| #[trigger]
            lines@.contains(n) <==> handler.breakpoints@[file@].contains_key(n)
                && handler.breakpoints@[file@][n].enabled,
        r matches Some(lines) ==> forall|i: int, j: int|
            0 <= i < j < lines@.len() ==> #[trigger] lines@[i] < #[trigger] lines@[j],
{
}

/// Switching the breakpoint under the cursor turns off the one that the line shows as
/// enabled, and on the one that it does not, and changes nothing else.
pub proof fn node_breakpoint_is_switched(
    before: NodeHandler,
    lines: &Vec<String>,
    shown: (String, i64, bool),
    after: NodeHandler,
    r: Result<String, ToggleError>,
)
    requires
        call_ensures(crate::listing::breakpoint_under_cursor, (lines,), Ok(shown)),
        exists|h: &mut NodeHandler|
            *h == before && *final(h) == after && #[trigger] call_ensures(
                NodeHandler::toggle_breakpoint,
                (h, lines),
                r,
            ),
    ensures
        crate::breakpoints::others_stay(
            before.breakpoints@,
            after.breakpoints@,
            shown.0@,
            shown.1,
        ),
        r is Ok <==> before.breakpoints@.contains_key(shown.0@)
            && before.breakpoints@[shown.0@].contains_key(shown.1),
        r matches Ok(f) ==> f@ == shown.0@ && after.breakpoints@[shown.0@][shown.1].enabled
            == !shown.2 && after.breakpoints@[shown.0@][shown.1].resolved
            == before.breakpoints@[shown.0@][shown.1].resolved,
        r is Err ==> after.breakpoints@ == before.breakpoints@,
{
}

/// Node breakpoints are placed and taken away one at a time.
pub proof fn node_breakpoints_are_placed_and_taken(
    before: NodeHandler,
    file: String,
    line: i64,
    after: NodeHandler,
    taken: NodeHandler,
    r: Result<(), BreakpointError>,
)
    requires
        exists|h: &mut NodeHandler|
            *h == before && *final(h) == after && #[trigger] call_ensures(
                NodeHandler::add_breakpoint,
                (h, file, line),
                (),
            ),
        exists|h: &mut NodeHandler|
            *h == before && *final(h) == taken && #[trigger] call_ensures(
                NodeHandler::remove_breakpoint,
                (h, file, line),
                r,
            ),
    ensures
        after.breakpoints@.contains_key(file@) && after.breakpoints@[file@].contains_key(line),
        !after.breakpoints@[file@][line].enabled,
        crate::breakpoints::others_stay(before.breakpoints@, after.breakpoints@, file@, line),
        r is Ok <==> before.breakpoints@.contains_key(file@),
        !(taken.breakpoints@.contains_key(file@) && taken.breakpoints@[file@].contains_key(line)),
        crate::breakpoints::others_stay(before.breakpoints@, taken.breakpoints@, file@, line),
{
}

/// Node is started on the port, and then come all the words of the command, in order. Of
/// a command that names Node only that name is left out.
pub proof fn node_runs_the_command(
    port: u16,
    words: Vec<String>,
    r: Vec<String>,
    name: Option<&str>,
    suffix: &str,
    left: Option<Vec<String>>,
)
    requires
        call_ensures(node_arguments, (port, words), r),
        call_ensures(without_node, (words, name, suffix), left),
    ensures
        r@.len() == words@.len() + 1,
        r@[0]@ == "--inspect-brk="@ + decimal(port as nat),
        forall|i: int| 0 <= i < words@.len() ==> (#[trigger] r@[i + 1])@ == words@[i]@,
        left is None <==> words@.len() == 0,
        left matches Some(l) ==> {
            let named = name matches Some(n) && (n@ == "node"@ || n@ == "node"@ + suffix@);
            &&& l@.len() == words@.len() - (if named {
                1int
            } else {
                0int
            })
            &&& forall|i: int|
                0 <= i < l@.len() ==> #[trigger] l@[i] == words@[i + (if named {
                    1int
                } else {
                    0int
                })]
        },
{
    let all = texts(r@);
    assert(r@.len() == all.len());
    assert(all[0] == r@[0]@);
    assert forall|i: int| 0 <= i < words@.len() implies (#[trigger] r@[i + 1])@ == words@[i]@ by {
        assert(all[i + 1] == r@[i + 1]@);
        assert(all[i + 1] == texts(words@)[i]);
    }
}

/// The address of a file is its path behind the scheme: with the slash that the path
/// begins with, and on Windows without it. Other addresses are none of a file.
pub proof fn address_of_a_file_is_its_path(
    filename: &str,
    path: Seq<char>,
    unix: Option<String>,
    windows: Option<String>,
)
    requires
        call_ensures(canonical_filename, (filename, false), unix),
        call_ensures(canonical_filename, (filename, true), windows),
    ensures
        filename@ == "file://"@ + seq!['/'] + path ==> (unix matches Some(p) && p@ == seq!['/']
            + path) && (windows matches Some(q) && q@ == path),
        !"file:///"@.is_prefix_of(filename@) ==> unix is None && windows is None,
{
    reveal_strlit("file:///");
    reveal_strlit("file://");
    if filename@ == "file://"@ + seq!['/'] + path {
        assert("file:///"@ =~= filename@.take(8));
        assert(filename@.skip(7) =~= seq!['/'] + path);
        assert(filename@.skip(8) =~= path);
    }
}

/// A request holds the method that it calls, and the one for the source of a script the
/// script's number.
pub proof fn request_calls_its_method(
    method: &str,
    script_id: &str,
    r: Json,
    source: Json,
    first: Vec<(Json, bool)>,
)
    requires
        call_ensures(method_request, (method,), r),
        call_ensures(source_request, (script_id,), source),
        call_ensures(init_requests, (), first),
    ensures
        calls_method(r, method@),
        !(r.view() matches JsonView::Object(o) && o.contains_key("params"@)),
        calls_method(source, "Debugger.getScriptSource"@),
        source.view() matches JsonView::Object(o) && o.contains_key("params"@) && has_member(
            o["params"@],
            "scriptId"@,
            JsonView::Str(script_id@),
        ),
        first@.len() == 3,
        calls_method(first@[0].0, "Runtime.enable"@),
        calls_method(first@[1].0, "Debugger.enable"@),
        calls_method(first@[2].0, "Runtime.runIfWaitingForDebugger"@),
        first@[0].1 && !first@[1].1 && !first@[2].1,
{
    reveal_strlit("params");
    reveal_strlit("method");
    assert("params"@[0] == 'p' && "method"@[0] == 'm');
}

/// Lines are counted from nought by Node: the place that a breakpoint is asked for at and
/// a place that is told are read as the same line.
pub proof fn lines_of_node_count_from_nought(
    script_id: &str,
    line: i64,
    request: Json,
    event: &Json,
    top: JsonView,
    location: JsonView,
    asked: JsonView,
    n: int,
    r: Result<(String, i64), PausedError>,
)
    requires
        call_ensures(breakpoint_request, (script_id, line), request),
        request.view() matches JsonView::Object(o) && has_member(
            o["params"@],
            "location"@,
            asked,
        ),
        call_ensures(paused_in_file, (event,), r),
        event.view().member("params"@).member("callFrames"@).item(0) == top,
        has_member(top, "location"@, location),
        has_member(asked, "lineNumber"@, JsonView::Int(n)),
        has_member(location, "lineNumber"@, JsonView::Int(n)),
        line > i64::MIN,
    ensures
        n == line - 1,
        r matches Ok((file, told)) ==> told == line && has_member(
            top,
            "url"@,
            JsonView::Str(file@),
        ),
        r is Err <==> !(top.member("url"@) is Str),
{
    reveal_strlit("params");
    reveal_strlit("method");
    reveal_strlit("scriptId");
    reveal_strlit("lineNumber");
    assert("params"@[0] == 'p' && "method"@[0] == 'm');
    assert("scriptId"@[0] == 's' && "lineNumber"@[0] == 'l');
}

/// The source of a script is handed out as Node answered it.
pub proof fn answered_source_is_shown(
    response: &Json,
    answer: JsonView,
    source: Seq<char>,
    r: Option<String>,
)
    requires
        call_ensures(script_source, (response,), r),
        has_member(response.view(), "result"@, answer),
        has_member(answer, "scriptSource"@, JsonView::Str(source)),
    ensures
        r matches Some(s) && s@ == source,
{
}

/// A file whose name ends in `.ts` holds TypeScript, and every other one JavaScript.
pub proof fn script_type_follows_the_name(file: &str, name: Seq<char>, r: &'static str)
    requires
        call_ensures(script_file_type, (file,), r),
    ensures
        file@ == name + ".ts"@ ==> r@ == "typescript"@,
        file@.len() < 3 || file@.last() != 's' || file@[file@.len() - 2] != 't' || file@[
            file@.len() - 3] != '.' ==> r@ == "javascript"@,
{
    reveal_strlit(".ts");
    if file@ == name + ".ts"@ {
        assert(file@.skip(name.len() as int) =~= ".ts"@);
        assert(".ts"@.is_suffix_of(file@));
    }
    if ".ts"@.is_suffix_of(file@) {
        let end = file@.subrange(file@.len() - 3, file@.len() as int);
        assert(end[0] == '.' && end[1] == 't' && end[2] == 's');
    }
}

/// What Node tells on its error stream: where it listens, handed on once, and after its
/// hint each line as it is.
pub proof fn lines_of_the_error_stream(
    before: StderrReader,
    line: &str,
    url: Seq<char>,
    after: StderrReader,
    r: StderrAction,
)
    requires
        exists|h: &mut StderrReader|
            *h == before && *final(h) == after && #[trigger] call_ensures(
                StderrReader::read,
                (h, line),
                r,
            ),
    ensures
        before.log_stderr ==> after == before && (r matches StderrAction::Write(text) && text@
            == line@),
        !before.log_stderr && line@ == "Debugger listening on "@ + url && !before.address_known
            ==> after.address_known && !after.log_stderr && (r matches StderrAction::Address(u)
            && u@ == url),
        !before.log_stderr && line@ == "Debugger listening on "@ + url && before.address_known
            ==> after == before && r is AddressAgain,
        !before.log_stderr && !"Debugger listening on "@.is_prefix_of(line@) ==> r is Nothing
            && after.address_known == before.address_known && after.log_stderr == (line@
            == "Debugger stderr: For help, see: https://nodejs.org/en/docs/inspector"@),
{
    let start = "Debugger listening on "@;
    if line@ == start + url {
        assert(line@.take(start.len() as int) =~= start);
        assert(start.is_prefix_of(line@));
        assert(line@.skip(start.len() as int) =~= url);
    }
}

/// Node itself is taken off the front of a command that names it alone, with or without
/// the ending of a program, and every other command stays whole.
pub proof fn node_is_taken_off(
    command_args: Vec<String>,
    name: Option<&str>,
    exe_suffix: &str,
    r: Option<Vec<String>>,
)
    requires
        command_args@.len() > 0,
        call_ensures(without_node, (command_args, name, exe_suffix), r),
    ensures
        r matches Some(rest) && rest@ == if name matches Some(n) && (n@ == "node"@ || n@
            == "node"@ + exe_suffix@) {
            command_args@.skip(1)
        } else {
            command_args@
        },
{
}

/// A text from Node that is no JSON is told, and changes nothing. One that is read is taken
/// as the message that it holds.
pub proof fn read_text_is_its_message(
    before: NodeSession,
    text: &str,
    read: Option<Json>,
    after: NodeSession,
    r: Result<NodeMessage, NodeTextError>,
)
    requires
        call_ensures(parse_json, (text,), read),
        exists|h: &mut NodeSession|
            *h == before && *final(h) == after && #[trigger] call_ensures(
                NodeSession::incoming_text,
                (h, text),
                r,
            ),
    ensures
        after.next_id == before.next_id,
        read is None ==> r matches Err(NodeTextError::NotJson),
        r is Err ==> after.pending@ == before.pending@,
        read matches Some(m) ==> (!(m.view() matches JsonView::Object(o) && o.contains_key("id"@))
            ==> (r matches Ok(NodeMessage::Event(event)) && event.view() == m.view()
            && after.pending@ == before.pending@)),
        read matches Some(m) ==> (forall|id: u64| #[trigger]
            has_member(m.view(), "id"@, JsonView::Int(id as int)) ==> if before.pending@.contains(
                id,
            ) {
                (r matches Ok(NodeMessage::Deliver(to, answer)) && to == id && answer.view()
                    == m.view()) && after.pending@ == before.pending@.remove(id)
            } else {
                r == Ok::<NodeMessage, NodeTextError>(NodeMessage::Ignore) && after.pending@
                    == before.pending@
            }),
{
}

/// A request that is sent gets a number that no request before it had, and where its answer
/// is awaited, the answer with that number is handed to who waits for it, once.
pub proof fn awaited_request_gets_its_answer(
    before: NodeSession,
    request: Json,
    members: Map<Seq<char>, JsonView>,
    awaited: bool,
    sent: Json,
    after: NodeSession,
    answer: Json,
    last: NodeSession,
    r: NodeMessage,
)
    requires
        request.view() == JsonView::Object(members),
        !members.contains_key("id"@),
        !before.pending@.contains(before.next_id),
        before.next_id < u64::MAX,
        exists|h: &mut NodeSession|
            *h == before && *final(h) == after && #[trigger] call_ensures(
                NodeSession::outgoing,
                (h, request, awaited),
                sent,
            ),
        has_member(answer.view(), "id"@, JsonView::Int(before.next_id as int)),
        exists|h: &mut NodeSession|
            *h == after && *final(h) == last && #[trigger] call_ensures(
                NodeSession::incoming,
                (h, answer),
                r,
            ),
    ensures
        has_member(sent.view(), "id"@, JsonView::Int(before.next_id as int)),
        after.next_id == before.next_id + 1,
        awaited ==> (r matches NodeMessage::Deliver(to, m) && to == before.next_id && m == answer),
        !awaited ==> r is Ignore,
        last.pending@ == before.pending@,
{
    reveal_with_fuel(merged, 2);
    assert(last.pending@ =~= before.pending@);
}

} // verus!
