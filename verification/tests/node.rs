use nvim_vadre::breakpoints::{BreakpointError, Breakpoints};
use nvim_vadre::handler::{DebuggerStepType, ToggleError};
use nvim_vadre::json::Json;
use nvim_vadre::listing::ListingError;
use nvim_vadre::node::{
    answers_request, breakpoint_requests, canonical_filename, connect_notice, display_output_info,
    event_failure,
    get_script_from_filename, get_script_from_id, handle_event, init_requests, launch_notice,
    message_is_event, method_request, node_arguments, node_command_args, numbered_request,
    paused_in_file, request_over_number, script_file_type, script_not_found, script_source,
    source_request, step_request, without_node, AwaitedAction, AwaitedBreakpoints,
    CallStackError, NodeEvent, NodeEventError, NodeHandler, NodeMessage, NodeSession, NodeStep,
    NodeTextError, PausedAction, PausedError, Script, ScriptError, ScriptLookup, StderrAction, StderrReader,
    EVENT_TIMEOUT_SECONDS,
};

fn strings(list: &[&str]) -> Vec<String> {
    list.iter().map(|s| s.to_string()).collect()
}

fn object(members: Vec<(&str, Json)>) -> Json {
    let mut o = Json::object();
    for (k, v) in members {
        o = o.with(k, v);
    }
    o
}

fn event(method: &str, params: Json) -> Json {
    object(vec![("method", Json::text(method)), ("params", params)])
}

fn frame(script_id: Option<&str>, line: Option<i64>, function: &str, url: &str) -> Json {
    let mut location = Json::object();
    if let Some(id) = script_id {
        location = location.with("scriptId", Json::text(id));
    }
    if let Some(line) = line {
        location = location.with("lineNumber", Json::integer(line));
    }
    object(vec![
        ("location", location),
        ("functionName", Json::text(function)),
        ("url", Json::text(url)),
    ])
}

fn paused(frames: Vec<Json>) -> Json {
    event("Debugger.paused", object(vec![("callFrames", Json::Array(frames))]))
}

fn handler() -> NodeHandler {
    let mut h = NodeHandler::new(Breakpoints::new());
    for (url, id) in [("file:///a.js", "11"), ("/b.ts", "12")] {
        let parsed = event(
            "Debugger.scriptParsed",
            object(vec![("url", Json::text(url)), ("scriptId", Json::text(id))]),
        );
        assert_eq!(h.analyze_script_parsed(&parsed).unwrap(), url);
    }
    h
}

#[test]
fn a_script_has_a_file_and_an_id() {
    let s = Script::new("/a.js".to_string(), "7".to_string());
    assert_eq!(s.get_file(), "/a.js");
    assert_eq!(s.get_script_id(), "7");
}

#[test]
fn addresses_of_local_files_are_paths() {
    assert_eq!(canonical_filename("file:///a/b.js", false).as_deref(), Some("/a/b.js"));
    assert_eq!(canonical_filename("file:///C:/b.js", true).as_deref(), Some("C:/b.js"));
    assert_eq!(canonical_filename("file://host/b.js", false), None);
    assert_eq!(canonical_filename("node:internal/x", false), None);
}

#[test]
fn scripts_are_found_by_file_and_by_id() {
    let names = strings(&["/a.js", "/b.js", "/a.js"]);
    assert_eq!(get_script_from_filename(4, &names, "/a.js"), ScriptLookup::Found(0));
    assert_eq!(get_script_from_filename(4, &names, "/b.js"), ScriptLookup::Found(1));
    assert_eq!(get_script_from_filename(4, &names, "/c.js"), ScriptLookup::Resolve(3));
    assert_eq!(get_script_from_filename(3, &names, "/c.js"), ScriptLookup::Missing);
    let h = handler();
    assert_eq!(get_script_from_id(&h.scripts, "12"), Some(1));
    assert_eq!(get_script_from_id(&h.scripts, "13"), None);
}

#[test]
fn requests_of_node_are_json() {
    assert_eq!(
        step_request(DebuggerStepType::Over).display(),
        "{\"method\":\"Debugger.stepOver\"}"
    );
    assert_eq!(step_request(DebuggerStepType::In).display(), "{\"method\":\"Debugger.stepInto\"}");
    assert_eq!(
        step_request(DebuggerStepType::Continue).display(),
        "{\"method\":\"Debugger.resume\"}"
    );
    assert_eq!(
        source_request("11").display(),
        "{\"method\":\"Debugger.getScriptSource\",\"params\":{\"scriptId\":\"11\"}}"
    );
    let requests = breakpoint_requests("11", &vec![1, 5]);
    assert_eq!(
        requests[1].display(),
        "{\"method\":\"Debugger.setBreakpoint\",\"params\":\
         {\"location\":{\"lineNumber\":4,\"scriptId\":\"11\"}}}"
    );
    assert_eq!(requests.len(), 2);
    let init: Vec<(String, bool)> =
        init_requests().iter().map(|(j, ask)| (j.display(), *ask)).collect();
    assert_eq!(
        init,
        vec![
            ("{\"method\":\"Runtime.enable\"}".to_string(), true),
            ("{\"method\":\"Debugger.enable\"}".to_string(), false),
            ("{\"method\":\"Runtime.runIfWaitingForDebugger\"}".to_string(), false),
        ]
    );
}

#[test]
fn requests_get_their_number_either_way() {
    let expected = "{\"id\":7,\"method\":\"m\"}";
    assert_eq!(numbered_request(method_request("m"), 7).display(), expected);
    assert_eq!(request_over_number(method_request("m"), 7).display(), expected);
    let own = || method_request("m").with("id", Json::integer(1));
    assert_eq!(numbered_request(own(), 7).display(), expected);
    assert_eq!(request_over_number(own(), 7).display(), "{\"id\":1,\"method\":\"m\"}");
}

#[test]
fn answers_of_node_are_delivered_once() {
    let mut session = NodeSession::new();
    let first = session.outgoing(method_request("a"), true);
    assert_eq!(first.display(), "{\"id\":1,\"method\":\"a\"}");
    session.outgoing(method_request("b"), false);
    let answer = |id| object(vec![("id", Json::integer(id))]);
    assert!(answers_request(&answer(1), 1));
    assert!(!answers_request(&answer(2), 1));
    assert!(!answers_request(&method_request("x"), 1));
    assert!(matches!(session.incoming(answer(2)), NodeMessage::Ignore));
    assert!(matches!(session.incoming(answer(1)), NodeMessage::Deliver(1, _)));
    assert!(matches!(session.incoming(answer(1)), NodeMessage::Ignore));
    assert!(message_is_event(&method_request("x")));
    assert!(!message_is_event(&answer(1)));
    assert!(matches!(session.incoming(method_request("x")), NodeMessage::Event(_)));
}

#[test]
fn events_of_node_mean_something() {
    let meaning = |m: &str| handle_event(&method_request(m)).unwrap();
    assert_eq!(meaning("Runtime.consoleAPICalled"), NodeEvent::Nothing);
    assert_eq!(meaning("Runtime.executionContextCreated"), NodeEvent::Nothing);
    assert_eq!(meaning("Debugger.resumed"), NodeEvent::Nothing);
    assert_eq!(meaning("Runtime.executionContextDestroyed"), NodeEvent::Finished);
    assert_eq!(meaning("Debugger.scriptParsed"), NodeEvent::ScriptParsed);
    assert_eq!(meaning("Debugger.paused"), NodeEvent::Paused);
    assert!(matches!(
        handle_event(&method_request("Debugger.fly")),
        Err(NodeEventError::Unsupported(t))
            if t == "Debugger doesn't support event method `Debugger.fly`"
    ));
    assert!(matches!(
        handle_event(&object(vec![("a", Json::text("\""))])),
        Err(NodeEventError::NoMethod(t))
            if t == "Couldn't get method of event: {\"a\":\"\\\"\"}"
    ));
    assert!(matches!(
        handle_event(&object(vec![("method", Json::Null)])),
        Err(NodeEventError::NotAText)
    ));
}

#[test]
fn scripts_without_a_file_or_an_id_are_refused() {
    let mut h = handler();
    let no_url = event("Debugger.scriptParsed", object(vec![("scriptId", Json::text("1"))]));
    assert_eq!(h.analyze_script_parsed(&no_url), Err(ScriptError::NoFile));
    let no_id = event("Debugger.scriptParsed", object(vec![("url", Json::text("/x"))]));
    assert_eq!(h.analyze_script_parsed(&no_id), Err(ScriptError::NoScriptId));
    assert_eq!(h.scripts.len(), 2);
}

#[test]
fn where_the_program_paused() {
    let mut h = handler();
    assert!(matches!(
        h.analyse_debugger_paused(&paused(vec![frame(Some("12"), Some(4), "f", "")])),
        Ok(PausedAction::Show(1, 5))
    ));
    assert!(matches!(
        h.analyse_debugger_paused(&paused(vec![frame(None, Some(0), "f", "/u.js")])),
        Ok(PausedAction::LookUp(file, 1)) if file == "/u.js"
    ));
    assert!(matches!(
        h.analyse_debugger_paused(&paused(vec![frame(Some("99"), Some(4), "f", "")])),
        Err(PausedError::UnknownScript)
    ));
    assert!(matches!(
        h.analyse_debugger_paused(&paused(vec![frame(Some("12"), None, "f", "")])),
        Err(PausedError::NoLine)
    ));
    assert!(matches!(h.analyse_debugger_paused(&paused(vec![])), Err(PausedError::NoLine)));
    let no_url = object(vec![("location", object(vec![("lineNumber", Json::integer(1))]))]);
    assert!(matches!(
        h.analyse_debugger_paused(&paused(vec![no_url])),
        Err(PausedError::NoFile)
    ));
    // Somebody who steps several times goes on.
    let (run, step) = h.do_step(DebuggerStepType::In, 3);
    assert!(matches!(step, NodeStep::Ask(_)));
    assert_eq!(run.stops_left, 2);
    assert!(h.stop_awaited);
    assert!(matches!(h.analyse_debugger_paused(&paused(vec![])), Ok(PausedAction::GoOn)));
    assert!(!h.stop_awaited);
    let (run, step) = h.step_stopped(run);
    assert!(matches!(step, NodeStep::Ask(_)));
    assert!(h.stop_awaited);
    assert!(matches!(h.analyse_debugger_paused(&paused(vec![])), Ok(PausedAction::GoOn)));
    let (run, step) = h.step_stopped(run);
    assert!(matches!(step, NodeStep::Send(j) if j.display() == "{\"method\":\"Debugger.stepInto\"}"));
    assert_eq!(run.stops_left, 0);
    assert!(!h.stop_awaited);
    for count in [0, 1] {
        assert!(matches!(
            h.do_step(DebuggerStepType::Continue, count).1,
            NodeStep::Send(j) if j.display() == "{\"method\":\"Debugger.resume\"}"
        ));
    }
}

#[test]
fn a_breakpoint_of_node_is_switched_in_the_listing() {
    let mut h = NodeHandler::new(Breakpoints::new());
    h.add_breakpoint("/a.js".to_string(), 3);
    let lines = |s: &[&str]| -> Vec<String> { s.iter().map(|x| x.to_string()).collect() };
    assert_eq!(h.breakpoint_lines("/a.js"), Some(vec![]));
    assert_eq!(h.toggle_breakpoint(&lines(&["/a.js:", "  ○  3"])).unwrap(), "/a.js");
    assert_eq!(h.breakpoint_lines("/a.js"), Some(vec![3]));
    h.toggle_breakpoint(&lines(&["/a.js:", "  ⬤  3"])).unwrap();
    assert_eq!(h.breakpoint_lines("/a.js"), Some(vec![]));
    assert!(matches!(
        h.toggle_breakpoint(&lines(&["/b.js:", "  ○  3"])),
        Err(ToggleError::Store(BreakpointError::NoFile(f))) if f == "/b.js"
    ));
    assert!(matches!(
        h.toggle_breakpoint(&lines(&["/a.js:", ""])),
        Err(ToggleError::Listing(ListingError::EmptyLine))
    ));
}

#[test]
fn where_the_program_paused_by_file() {
    let at = paused(vec![frame(None, Some(4), "f", "/u.js")]);
    assert_eq!(paused_in_file(&at), Ok(("/u.js".to_string(), 5)));
    assert_eq!(paused_in_file(&paused(vec![])), Err(PausedError::NoFile));
    let no_line = paused(vec![frame(None, None, "f", "/u.js")]);
    assert_eq!(paused_in_file(&no_line), Err(PausedError::NoLine));
    let huge = paused(vec![frame(None, Some(i64::MAX), "f", "/u.js")]);
    assert_eq!(paused_in_file(&huge), Err(PausedError::NoLine));
}

#[test]
fn the_call_stack_of_node() {
    let h = handler();
    let at = paused(vec![
        frame(Some("11"), Some(4), "run", ""),
        frame(Some("12"), Some(9), "", ""),
        object(vec![(
            "location",
            object(vec![("scriptId", Json::text("12")), ("lineNumber", Json::integer(0))]),
        )]),
    ]);
    assert_eq!(
        display_output_info(&h.scripts, &at).unwrap(),
        vec!["file:///a.js:5", "- \"run\"", "/b.ts:10", "- \"\"", "/b.ts:1", "- null"]
    );
    let unknown = paused(vec![frame(Some("11"), Some(4), "f", ""), frame(Some("9"), Some(4), "f", "")]);
    assert_eq!(display_output_info(&h.scripts, &unknown), Err(CallStackError::NoScript(1)));
    let no_line = paused(vec![frame(Some("11"), None, "f", "")]);
    assert_eq!(display_output_info(&h.scripts, &no_line), Err(CallStackError::NoLine(0)));
    assert_eq!(
        display_output_info(&h.scripts, &method_request("Debugger.paused")),
        Err(CallStackError::NotAnArray)
    );
}

#[test]
fn the_source_of_a_script_is_shown() {
    let answer = object(vec![("result", object(vec![("scriptSource", Json::text("let x"))]))]);
    assert_eq!(script_source(&answer).as_deref(), Some("let x"));
    assert_eq!(script_source(&Json::object()), None);
    assert_eq!(script_file_type("/a.ts"), "typescript");
    assert_eq!(script_file_type("/a.tsx"), "javascript");
    assert_eq!(script_not_found("/a.ts"), "Can't find script for /a.ts");
}

#[test]
fn breakpoints_wait_for_their_script() {
    let mut waiting = AwaitedBreakpoints::new();
    match waiting.set_breakpoints(None, "/a.js".to_string(), vec![3, 4]) {
        AwaitedAction::Noted(t) => assert_eq!(t, "Can't find script for /a.js"),
        other => panic!("{:?}", other),
    }
    assert_eq!(waiting.lines_for("/a.js"), Some(&vec![3, 4]));
    assert_eq!(waiting.lines_for("/b.js"), None);
    match waiting.set_breakpoints(Some("11"), "/b.js".to_string(), vec![3]) {
        AwaitedAction::Send(requests) => assert_eq!(requests.len(), 1),
        other => panic!("{:?}", other),
    }
    let mut h = handler();
    h.add_breakpoint("/b.ts".to_string(), 2);
    h.add_breakpoint("/b.ts".to_string(), 1);
    assert_eq!(h.breakpoint_lines("/b.ts"), Some(vec![]));
    h.breakpoints.set_breakpoint_enabled("/b.ts".to_string(), 2).unwrap();
    h.breakpoints.set_breakpoint_enabled("/b.ts".to_string(), 1).unwrap();
    assert_eq!(h.breakpoint_lines("/b.ts"), Some(vec![1, 2]));
    assert!(h.remove_breakpoint("/b.ts".to_string(), 1).is_ok());
    assert_eq!(h.breakpoint_lines("/b.ts"), Some(vec![2]));
    assert_eq!(h.breakpoint_lines("/c.ts"), None);
    assert!(h.remove_breakpoint("/c.ts".to_string(), 1).is_err());
}

#[test]
fn node_is_started_on_a_port() {
    assert_eq!(node_command_args(vec![], ""), None);
    let args = strings(&["/usr/bin/node", "a.js"]);
    assert_eq!(node_command_args(args, ""), Some(strings(&["a.js"])));
    let args = strings(&["node.exe", "a.js"]);
    assert_eq!(node_command_args(args, ".exe"), Some(strings(&["a.js"])));
    let args = strings(&["node.exe", "a.js"]);
    assert_eq!(node_command_args(args, ""), Some(strings(&["node.exe", "a.js"])));
    let args = strings(&["/", "a.js"]);
    assert_eq!(node_command_args(args, ""), Some(strings(&["/", "a.js"])));
    let args = strings(&["/bin/node/.", "a.js"]);
    assert_eq!(node_command_args(args, ""), Some(strings(&["a.js"])));
    let args = strings(&["\\\\deno", "a.js"]);
    assert_eq!(node_command_args(args, ""), Some(strings(&["\\\\deno", "a.js"])));
    assert_eq!(without_node(strings(&["x"]), Some("node"), ""), Some(vec![]));
    assert_eq!(
        node_arguments(9229, strings(&["a.js", "x"])),
        strings(&["--inspect-brk=9229", "a.js", "x"])
    );
    assert_eq!(
        launch_notice("\"/usr/bin/node\"", &strings(&["a \"b\""])),
        format!("Launching Node process \"/usr/bin/node\" with args: {:?}", vec!["a \"b\""])
    );
    assert_eq!(connect_notice("ws://x"), "Connecting to WS Url ws://x");
}

#[test]
fn node_tells_where_it_listens() {
    let mut reader = StderrReader::new();
    assert!(matches!(reader.read("hello"), StderrAction::Nothing));
    assert!(matches!(
        reader.read("Debugger listening on ws://127.0.0.1:9229/x"),
        StderrAction::Address(url) if url == "ws://127.0.0.1:9229/x"
    ));
    assert!(matches!(reader.read("Debugger listening on y"), StderrAction::AddressAgain));
    let hint = "Debugger stderr: For help, see: https://nodejs.org/en/docs/inspector";
    assert!(matches!(reader.read(hint), StderrAction::Nothing));
    assert!(matches!(reader.read("out"), StderrAction::Write(t) if t == "out"));
    assert!(matches!(reader.read("Debugger listening on y"), StderrAction::Write(_)));
}

#[test]
fn texts_from_node_are_sorted() {
    let mut session = NodeSession::new();
    assert_eq!(session.outgoing(Json::object(), true).display(), "{\"id\":1}");

    let event = "{\"method\":\"Debugger.paused\",\"params\":{}}";
    match session.incoming_text(event) {
        Ok(NodeMessage::Event(message)) => assert_eq!(message.display(), event),
        other => panic!("{:?}", other),
    }
    assert!(matches!(session.incoming_text("{\"id\":"), Err(NodeTextError::NotJson)));
    for id in ["\"1\"", "-1", "1.0", "null"] {
        let text = format!("{{\"id\":{}}}", id);
        assert!(matches!(session.incoming_text(&text), Err(NodeTextError::NoNumber)), "{}", text);
    }
    assert!(matches!(session.incoming_text("{\"id\":2}"), Ok(NodeMessage::Ignore)));
    assert!(session.pending.contains(&1));

    match session.incoming_text("{ \"result\": [5], \"id\": 1 }") {
        Ok(NodeMessage::Deliver(1, message)) => {
            assert_eq!(message.display(), "{\"id\":1,\"result\":[5]}")
        }
        other => panic!("{:?}", other),
    }
    assert!(matches!(session.incoming_text("{\"id\":1}"), Ok(NodeMessage::Ignore)));
    assert_eq!(session.next_id, 2);
}

#[test]
fn texts_that_are_no_message_have_words() {
    assert_eq!(NodeTextError::NotJson.message(), "can convert WS message text string to json");
    assert_eq!(NodeTextError::NoNumber.message(), "WS message id is u64");
    assert_eq!(EVENT_TIMEOUT_SECONDS, 30);
    assert_eq!(event_failure("deadline has elapsed"), "Debugger Event Error: deadline has elapsed");
}
