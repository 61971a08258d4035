use nvim_vadre::breakpoints::{BreakpointError, Breakpoints};
use nvim_vadre::debuggers::{DebuggerType, LocationsError};
use nvim_vadre::events::{
    disassembled_name, handle_event, handle_request, pointer_failure, process_stopped,
    stopped_code, terminal_words, top_frame_request, EventAction, ReportError,
    SetBreakpointsError, StopError, StopPlace, StoppedAction,
};
use nvim_vadre::handler::{
    handle_output_window_key, pause_first_thread, step_answered, DebuggerHandler,
    DebuggerStepType, KeyAction, PauseAction, PauseError, StepAction, StepError, ToggleError,
};
use nvim_vadre::listing::ListingError;
use nvim_vadre::neovim::VadreBufferType;
use nvim_vadre::protocol::{
    Either, EventBody, ProtocolMessageType, RequestArguments, Response, ResponseBody,
    ResponseResult,
};
use nvim_vadre::schema::{
    Breakpoint, BreakpointEventBody, OutputEventBody, RunInTerminalRequestArguments,
    SetBreakpointsResponseBody, Source, SourceResponseBody, StackFrame, StackTraceResponseBody,
    StoppedEventBody, Thread, ThreadsResponseBody,
};

fn handler() -> DebuggerHandler {
    DebuggerHandler::new(DebuggerType::CodeLLDB, "prog".to_string(), Breakpoints::new())
}

fn good(body: ResponseBody) -> Response {
    Response {
        request_seq: Either::First(1),
        success: true,
        result: ResponseResult::Success { body },
    }
}

fn error(success: bool) -> Response {
    Response {
        request_seq: Either::First(1),
        success,
        result: ResponseResult::Error {
            command: "next".to_string(),
            message: "busy".to_string(),
            show_user: None,
        },
    }
}

fn report(id: Option<i64>, line: Option<i64>, message: Option<&str>) -> Breakpoint {
    Breakpoint {
        column: None,
        end_column: None,
        end_line: None,
        id,
        instruction_reference: None,
        line,
        message: message.map(|s| s.to_string()),
        offset: None,
        source: None,
        verified: true,
    }
}

fn reports(list: Vec<Breakpoint>) -> Response {
    good(ResponseBody::setBreakpoints(SetBreakpointsResponseBody { breakpoints: list }))
}

fn stopped_in(source: Option<Source>) -> Response {
    good(ResponseBody::stackTrace(StackTraceResponseBody {
        stack_frames: vec![StackFrame {
            can_restart: None,
            column: 1,
            end_column: None,
            end_line: None,
            id: 4,
            instruction_pointer_reference: None,
            line: 17,
            module_id: None,
            name: "f".to_string(),
            presentation_hint: None,
            source,
            source_text: String::new(),
        }],
        total_frames: None,
    }))
}

fn source(path: Option<&str>, reference: Option<i64>) -> Option<Source> {
    Some(Source {
        adapter_data: None,
        checksums: None,
        name: None,
        origin: None,
        path: path.map(|s| s.to_string()),
        presentation_hint: None,
        source_reference: reference,
        sources: None,
    })
}

#[test]
fn the_adapter_learns_of_this_client() {
    match handler().initialize_request() {
        RequestArguments::initialize(a) => {
            assert_eq!(a.adapter_id, "CodeLLDB");
            assert_eq!(a.client_id.as_deref(), Some("nvim_vadre"));
            assert_eq!(a.locale.as_deref(), Some("en_GB"));
            assert_eq!(a.supports_variable_paging, Some(false));
        }
        other => panic!("{:?}", other),
    }
}

#[test]
fn going_on_several_times_waits_in_between() {
    let mut h = handler();
    assert!(h.do_step(DebuggerStepType::Over, 3).is_none());
    h.select_thread(9);
    let (mut run, mut action) = h.do_step(DebuggerStepType::Over, 3).unwrap();
    let mut asked = 0;
    while let StepAction::Ask(RequestArguments::next(a)) = action {
        assert_eq!(a.thread_id, 9);
        assert_eq!(a.single_thread, Some(false));
        asked += 1;
        assert!(h.stop_awaited);
        assert_eq!(h.handle_event_stopped(Some(9)), StoppedAction::GoOn);
        let next = h.step_stopped(run);
        run = next.0;
        action = next.1;
    }
    assert_eq!(asked, 2);
    assert!(matches!(action, StepAction::Send(RequestArguments::next(_))));
    assert!(matches!(
        h.do_step(DebuggerStepType::In, 0),
        Some((_, StepAction::Send(RequestArguments::stepIn(_))))
    ));
    assert!(matches!(
        h.do_step(DebuggerStepType::Continue, 1),
        Some((_, StepAction::Send(RequestArguments::continue_(_))))
    ));
}

#[test]
fn a_step_may_be_refused() {
    assert!(step_answered(good(ResponseBody::next(None))).is_ok());
    assert!(matches!(step_answered(error(false)), Err(StepError::Unsuccessful)));
    assert!(matches!(
        step_answered(error(true)),
        Err(StepError::Adapter(t)) if t == "An error occurred stepping busy"
    ));
}

#[test]
fn a_thread_is_paused() {
    let mut h = handler();
    assert!(matches!(
        h.pause(Some(4)),
        PauseAction::Send(RequestArguments::pause(a)) if a.thread_id == 4
    ));
    assert!(matches!(h.pause(None), PauseAction::AskThreads(RequestArguments::threads(None))));
    h.paused(4);
    assert!(matches!(
        h.pause(None),
        PauseAction::Ask(RequestArguments::pause(a)) if a.thread_id == 4
    ));
    let threads = |list| good(ResponseBody::threads(ThreadsResponseBody { threads: list }));
    let one = Thread { id: 8, name: "main".to_string() };
    assert!(matches!(
        pause_first_thread(&threads(vec![one])),
        Ok(RequestArguments::pause(a)) if a.thread_id == 8
    ));
    assert!(matches!(pause_first_thread(&threads(vec![])), Err(PauseError::NoThread)));
    assert!(matches!(pause_first_thread(&error(true)), Err(PauseError::NoThread)));
    assert!(matches!(pause_first_thread(&error(false)), Err(PauseError::Unsuccessful)));
}

#[test]
fn keys_in_output_windows() {
    let stack = VadreBufferType::CallStack;
    let key = handle_output_window_key;
    assert_eq!(key(stack, "space", "12 - `main` (*)"), KeyAction::ToggleThread(12));
    assert_eq!(key(stack, "enter", "12 - `main`"), KeyAction::SelectThread(12));
    assert_eq!(key(stack, "x", "12 - `main`"), KeyAction::Nothing);
    assert_eq!(key(stack, "space", "+ f"), KeyAction::Nothing);
    assert_eq!(key(VadreBufferType::Variables, "space", "12 - x"), KeyAction::Nothing);
    assert_eq!(key(VadreBufferType::Breakpoints, "x", ""), KeyAction::ToggleBreakpoint);
    let mut h = handler();
    h.toggle_thread(12);
    assert!(h.stack_expanded_threads.contains(&12));
    assert_eq!(h.current_thread_id, Some(12));
    h.toggle_thread(12);
    assert!(h.stack_expanded_threads.is_empty());
}

#[test]
fn a_breakpoint_is_switched_in_the_listing() {
    let mut h = handler();
    h.breakpoints.add_pending_breakpoint("/a.rs".to_string(), 3).unwrap();
    let lines = |s: &[&str]| -> Vec<String> { s.iter().map(|x| x.to_string()).collect() };
    assert_eq!(h.toggle_breakpoint(&lines(&["/a.rs:", "  ○  3"])).unwrap(), "/a.rs");
    let on = |h: &DebuggerHandler| {
        h.breakpoints.get_all_breakpoint_line_numbers_for_file("/a.rs").unwrap()[&3].enabled
    };
    assert!(on(&h));
    h.toggle_breakpoint(&lines(&["/a.rs:", "  ⬤  3 -> 4"])).unwrap();
    assert!(!on(&h));
    assert!(matches!(
        h.toggle_breakpoint(&lines(&["/a.rs:", "  ○  9"])),
        Err(ToggleError::Store(BreakpointError::NoLine(f, 9))) if f == "/a.rs"
    ));
    assert!(matches!(
        h.toggle_breakpoint(&lines(&["/b.rs:", "  ○  9"])),
        Err(ToggleError::Store(BreakpointError::NoFile(f))) if f == "/b.rs"
    ));
    assert!(matches!(
        h.toggle_breakpoint(&lines(&[])),
        Err(ToggleError::Listing(ListingError::NoFile))
    ));
}

#[test]
fn a_program_runs_in_a_terminal() {
    assert_eq!(terminal_words(&vec!["a b".to_string(), "c".to_string()]), "\"a b\" \"c\"");
    let args = RequestArguments::runInTerminal(RunInTerminalRequestArguments {
        args: vec!["/bin/x".to_string(), "-v".to_string()],
        args_can_be_interpreted_by_shell: None,
        cwd: "/".to_string(),
        env: None,
        kind: None,
        title: None,
    });
    let (command, answer) = handle_request(5, &args);
    assert_eq!(command, "\"/bin/x\" \"-v\"");
    match answer.type_ {
        ProtocolMessageType::Response(r) => {
            assert!(r.success);
            assert!(matches!(r.request_seq, Either::First(5)));
            assert!(matches!(
                r.result,
                ResponseResult::Success { body: ResponseBody::runInTerminal(_) }
            ));
        }
        other => panic!("{:?}", other),
    }
    let mut h = handler();
    assert!(!h.terminal_spawned());
    h.init();
    assert!(h.terminal_spawned());
    assert!(!h.terminal_spawned());
}

#[test]
fn events_of_an_adapter_mean_something() {
    let output = EventBody::output(OutputEventBody {
        category: None,
        column: None,
        data: None,
        group: None,
        line: None,
        output: "hi\t\n".to_string(),
        source: None,
        variables_reference: None,
    });
    assert!(matches!(handle_event(output), EventAction::Log(t) if t == "Debugger: hi"));
    let stopped = EventBody::stopped(StoppedEventBody {
        all_threads_stopped: None,
        description: None,
        hit_breakpoint_ids: None,
        preserve_focus_hint: None,
        reason: "breakpoint".to_string(),
        text: None,
        thread_id: Some(6),
    });
    assert!(matches!(handle_event(stopped), EventAction::Stopped(Some(6))));
    let changed = EventBody::breakpoint(BreakpointEventBody {
        breakpoint: report(Some(2), None, None),
        reason: "changed".to_string(),
    });
    assert!(matches!(handle_event(changed), EventAction::Breakpoint(b) if b.id == Some(2)));
    assert!(matches!(handle_event(EventBody::initialized(None)), EventAction::Nothing));
    let mut h = handler();
    assert_eq!(h.handle_event_stopped(Some(6)), StoppedAction::Show);
    assert_eq!(h.current_thread_id, Some(6));
    assert!(h.stack_expanded_threads.contains(&6));
}

#[test]
fn enabled_breakpoints_are_set_in_their_file() {
    let mut h = handler();
    let (_, lines) = h.add_breakpoint("/x/a.rs".to_string(), 3).unwrap();
    assert!(lines.is_empty());
    h.add_breakpoint("/x/a.rs".to_string(), 1).unwrap();
    h.breakpoints.set_breakpoint_enabled("/x/a.rs".to_string(), 3).unwrap();
    h.breakpoints.set_breakpoint_enabled("/x/a.rs".to_string(), 1).unwrap();
    match h.set_breakpoints("/x/a.rs".to_string()).unwrap() {
        (RequestArguments::setBreakpoints(a), lines) => {
            assert_eq!(lines, vec![1, 3]);
            let asked: Vec<i64> = a.breakpoints.unwrap().iter().map(|b| b.line).collect();
            assert_eq!(asked, vec![1, 3]);
            assert_eq!(a.source.name.as_deref(), Some("a.rs"));
            assert_eq!(a.source.path.as_deref(), Some("/x/a.rs"));
            assert_eq!(a.source_modified, None);
        }
        other => panic!("{:?}", other),
    }
    let (_, lines) = h.remove_breakpoint("/x/a.rs".to_string(), 1).unwrap();
    assert_eq!(lines, vec![3]);
    assert!(matches!(
        h.set_breakpoints("/y".to_string()),
        Err(SetBreakpointsError::Store(_))
    ));
    assert!(matches!(
        h.remove_breakpoint("/y".to_string(), 1),
        Err(SetBreakpointsError::Store(_))
    ));
    assert!(matches!(
        h.add_breakpoint("/x/..".to_string(), 1),
        Err(SetBreakpointsError::NoFileName)
    ));
}

#[test]
fn reports_on_breakpoints_are_noted() {
    let mut h = handler();
    for line in [3, 5] {
        h.add_breakpoint("/a.rs".to_string(), line).unwrap();
    }
    let lines = vec![3, 5];
    let answer = reports(vec![
        report(Some(1), Some(4), Some("Resolved locations: 1")),
        report(Some(2), None, Some("Resolved locations: 0")),
    ]);
    assert!(h.breakpoints_set("/a.rs".to_string(), &lines, &answer).unwrap());
    let known = h.breakpoints.get_all_breakpoint_line_numbers_for_file("/a.rs").unwrap();
    assert!(known[&3].enabled);
    assert_eq!(known[&3].resolved.get("1"), Some(&4));
    assert!(!known[&5].enabled);
    assert!(known[&5].resolved.entries.is_empty());
    // An event about it moves it.
    let moved = report(Some(1), Some(6), Some("Resolved locations: 1"));
    h.handle_event_breakpoint(&moved).unwrap();
    let known = h.breakpoints.get_all_breakpoint_line_numbers_for_file("/a.rs").unwrap();
    assert_eq!(known[&3].resolved.get("1"), Some(&6));
    assert!(matches!(
        h.handle_event_breakpoint(&report(Some(77), None, Some("Resolved locations: 1"))),
        Err(ReportError::UnknownId(77))
    ));
    // Another answer is about nothing.
    let other = good(ResponseBody::next(None));
    assert!(!h.breakpoints_set("/a.rs".to_string(), &lines, &other).unwrap());
}

#[test]
fn reports_may_be_wrong() {
    let mut h = handler();
    h.add_breakpoint("/a.rs".to_string(), 3).unwrap();
    let mut say = |lines: &Vec<i64>, answer: &Response| {
        h.breakpoints_set("/a.rs".to_string(), lines, answer).unwrap_err()
    };
    let fine = || report(Some(1), Some(3), Some("Resolved locations: 1"));
    assert!(matches!(say(&vec![3], &error(false)), ReportError::Unsuccessful));
    assert!(matches!(say(&vec![3], &reports(vec![fine(), fine()])), ReportError::TooMany(1)));
    assert!(matches!(
        say(&vec![3], &reports(vec![report(None, None, None)])),
        ReportError::NoId(0)
    ));
    assert!(matches!(
        say(&vec![3], &reports(vec![report(Some(1), None, None)])),
        ReportError::NoMessage(0)
    ));
    assert!(matches!(
        say(&vec![3], &reports(vec![report(Some(1), None, Some("x"))])),
        ReportError::Locations(0, LocationsError::NoLocations)
    ));
    assert!(matches!(
        say(&vec![8], &reports(vec![fine()])),
        ReportError::Store(BreakpointError::NoLine(f, 8)) if f == "/a.rs"
    ));
    assert!(matches!(
        h.breakpoints_set("/b.rs".to_string(), &vec![8], &reports(vec![fine()])),
        Err(ReportError::Store(BreakpointError::NoFile(f))) if f == "/b.rs"
    ));
}

#[test]
fn the_place_where_the_program_stopped() {
    match top_frame_request(4) {
        RequestArguments::stackTrace(a) => {
            assert_eq!((a.thread_id, a.levels, a.start_frame), (4, Some(1), Some(0)))
        }
        other => panic!("{:?}", other),
    }
    assert!(matches!(
        process_stopped(stopped_in(source(Some("/a.rs"), Some(3)))),
        Ok(StopPlace::File(f, 17)) if f == "/a.rs"
    ));
    match process_stopped(stopped_in(source(None, Some(3)))).unwrap() {
        StopPlace::Reference(RequestArguments::source(a), 3, 17) => {
            assert_eq!(a.source_reference, 3);
            assert!(a.source.is_some());
        }
        other => panic!("{:?}", other),
    }
    assert!(matches!(
        process_stopped(stopped_in(source(None, None))),
        Err(StopError::NothingToShow)
    ));
    assert!(matches!(process_stopped(stopped_in(None)), Err(StopError::NoSource)));
    let no_frames = good(ResponseBody::stackTrace(StackTraceResponseBody {
        stack_frames: vec![],
        total_frames: None,
    }));
    assert!(matches!(process_stopped(no_frames), Err(StopError::NoFrame)));
    assert!(matches!(process_stopped(error(false)), Err(StopError::Unsuccessful)));
    assert!(matches!(process_stopped(error(true)), Ok(StopPlace::Unknown)));
    let code = good(ResponseBody::source(SourceResponseBody {
        content: "mov".to_string(),
        mime_type: None,
    }));
    assert!(matches!(stopped_code(code), Ok(Some(t)) if t == "mov"));
    assert!(matches!(stopped_code(error(true)), Ok(None)));
    assert!(matches!(stopped_code(error(false)), Err(StopError::Unsuccessful)));
    assert_eq!(disassembled_name(3), "Disassembled Code 3");
    assert_eq!(
        pointer_failure("x"),
        "An error occurred while displaying code pointer: x"
    );
}

#[test]
fn errors_with_breakpoints_have_words() {
    let words = |e: ReportError| e.message(false, "THIS");
    assert_eq!(words(ReportError::Unsuccessful), "Got unsuccessful response: THIS");
    assert_eq!(words(ReportError::TooMany(12)), "Can't get 12th line number from: THIS");
    assert_eq!(
        words(ReportError::NoId(0)),
        "Id wasn't set in breakpoint setting response as expected: THIS"
    );
    assert_eq!(ReportError::NoId(0).message(true, "THIS"), "Couldn't find ID from event: THIS");
    assert_eq!(words(ReportError::NoMessage(3)), "Can't find breakpoint message: THIS");
    assert_eq!(
        words(ReportError::Locations(1, LocationsError::NoLocations)),
        "Couldn't find Resolved locations message in: THIS"
    );
    assert_eq!(words(ReportError::UnknownId(-4)), "Can't find breakpoint for id -4");
    assert_eq!(
        words(ReportError::Store(BreakpointError::NoFile("/a".to_string()))),
        "Can't find existing breakpoints for file /a"
    );
}

#[test]
fn errors_with_the_stop_have_words() {
    assert_eq!(StopError::Unsuccessful.message("THIS"), "Got unsuccessful response: THIS");
    assert_eq!(StopError::NoFrame.message("THIS"), "stack should have a top frame: []");
    assert_eq!(StopError::NoSource.message("THIS"), "stack should have a source: THIS");
    assert_eq!(StopError::NothingToShow.message("THIS"), "Can't find any source to display");
}
