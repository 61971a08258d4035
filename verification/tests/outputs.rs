use nvim_vadre::breakpoints::Breakpoints;
use nvim_vadre::debuggers::DebuggerType;
use nvim_vadre::debugpy::process_output_info;
use nvim_vadre::handler::DebuggerHandler;
use nvim_vadre::neovim::VadreBufferType;
use nvim_vadre::output::{display_output, process_variables, OutputNext, OutputRun, VariablesRun};
use nvim_vadre::protocol::{Either, RequestArguments, Response, ResponseBody, ResponseResult};
use nvim_vadre::schema::{
    Scope, ScopesResponseBody, Source, StackFrame, StackTraceResponseBody, Thread,
    ThreadsResponseBody, Variable, VariablesResponseBody,
};
use std::collections::HashSet;

fn good(body: ResponseBody) -> Response {
    Response {
        request_seq: Either::First(1),
        success: true,
        result: ResponseResult::Success { body },
    }
}

fn failed() -> Response {
    Response {
        request_seq: Either::First(1),
        success: false,
        result: ResponseResult::Error {
            command: "x".to_string(),
            message: "m".to_string(),
            show_user: None,
        },
    }
}

fn threads(list: &[(i64, &str)]) -> Response {
    good(ResponseBody::threads(ThreadsResponseBody {
        threads: list.iter().map(|(id, name)| Thread { id: *id, name: name.to_string() }).collect(),
    }))
}

fn source(name: Option<&str>, path: Option<&str>) -> Option<Source> {
    Some(Source {
        adapter_data: None,
        checksums: None,
        name: name.map(|s| s.to_string()),
        origin: None,
        path: path.map(|s| s.to_string()),
        presentation_hint: None,
        source_reference: None,
        sources: None,
    })
}

fn frame(id: i64, name: &str, line: i64, source: Option<Source>) -> StackFrame {
    StackFrame {
        can_restart: None,
        column: 1,
        end_column: None,
        end_line: None,
        id,
        instruction_pointer_reference: None,
        line,
        module_id: None,
        name: name.to_string(),
        presentation_hint: None,
        source,
        source_text: "Source { .. }".to_string(),
    }
}

fn frames(list: Vec<StackFrame>) -> Response {
    good(ResponseBody::stackTrace(StackTraceResponseBody {
        stack_frames: list,
        total_frames: None,
    }))
}

fn scope(name: &str, variables_reference: i64) -> Scope {
    Scope {
        column: None,
        end_column: None,
        end_line: None,
        expensive: false,
        indexed_variables: None,
        line: None,
        name: name.to_string(),
        named_variables: None,
        presentation_hint: None,
        source: None,
        variables_reference,
    }
}

fn scopes(list: Vec<Scope>) -> Response {
    good(ResponseBody::scopes(ScopesResponseBody { scopes: list }))
}

fn variable(name: &str, value: &str, type_: Option<&str>) -> Variable {
    Variable {
        evaluate_name: None,
        indexed_variables: None,
        memory_reference: None,
        name: name.to_string(),
        named_variables: None,
        presentation_hint: None,
        type_: type_.map(|s| s.to_string()),
        value: value.to_string(),
        variables_reference: 0,
    }
}

fn variables(list: Vec<Variable>) -> Response {
    good(ResponseBody::variables(VariablesResponseBody { variables: list }))
}

fn shown(run: OutputRun) -> Vec<String> {
    match run.next {
        OutputNext::Show(lines) => lines,
        other => panic!("{:?}", other),
    }
}

fn asks_frames_of(run: &OutputRun, id: i64) -> bool {
    matches!(&run.next, OutputNext::Ask(RequestArguments::stackTrace(a))
        if a.thread_id == id && a.levels.is_none() && a.start_frame.is_none())
}

#[test]
fn variables_are_asked_for_scope_by_scope() {
    let mut replies = vec![];
    assert!(matches!(
        process_variables(7, &replies, 0),
        VariablesRun::Ask(RequestArguments::scopes(a)) if a.frame_id == 7
    ));
    replies.push(scopes(vec![scope("Local", 10), scope("Global", 20)]));
    assert!(matches!(
        process_variables(7, &replies, 0),
        VariablesRun::Ask(RequestArguments::variables(a)) if a.variables_reference == 10
    ));
    replies.push(variables(vec![
        variable("x", "1", Some("int")),
        variable("s", "a \"q\"\n", None),
    ]));
    assert!(matches!(
        process_variables(7, &replies, 0),
        VariablesRun::Ask(RequestArguments::variables(a)) if a.variables_reference == 20
    ));
    replies.push(good(ResponseBody::launch(None)));
    match process_variables(7, &replies, 0) {
        VariablesRun::Complete(Some(lines), 3) => assert_eq!(
            lines,
            vec![
                "Local:".to_string(),
                "+ (int) x = \"1\"".to_string(),
                format!("+ s = {:?}", "a \"q\"\n"),
                "Global:".to_string(),
            ]
        ),
        other => panic!("{:?}", other),
    }
    assert!(matches!(process_variables(7, &vec![failed()], 0), VariablesRun::Unsuccessful));
    assert!(matches!(
        process_variables(7, &vec![good(ResponseBody::launch(None))], 0),
        VariablesRun::Complete(None, 1)
    ));
}

#[test]
fn the_call_stack_lists_the_frames_of_expanded_threads() {
    let expanded: HashSet<i64> = [2, 3].into_iter().collect();
    let mut replies = vec![];
    let step = |replies: &Vec<Response>| display_output(Some(2), &expanded, false, replies);
    assert!(matches!(step(&replies).next, OutputNext::Ask(RequestArguments::threads(None))));
    replies.push(threads(&[(1, "main"), (2, "worker"), (3, "idle")]));
    assert!(asks_frames_of(&step(&replies), 2));
    replies.push(frames(vec![
        frame(5, "f", 10, source(Some("a.rs"), Some("/a.rs"))),
        frame(6, "g", 11, source(Some("b"), None)),
        frame(7, "h", 12, source(None, Some("/c.rs"))),
        frame(8, "i", 13, source(None, None)),
    ]));
    let run = step(&replies);
    assert!(asks_frames_of(&run, 3));
    assert_eq!(run.frame, Some(5));
    replies.push(frames(vec![]));
    assert_eq!(
        shown(step(&replies)),
        vec![
            "1 - `main`",
            "2 - `worker` (*)",
            "+ f",
            "  - a.rs:10",
            "+ g",
            "  - b:11 (disassembled)",
            "+ h",
            "  - /c.rs:12",
            "+ i",
            " - source not understood Source { .. }",
            "3 - `idle`",
            "  (no frames)",
        ]
    );
}

#[test]
fn showing_the_call_stack_may_fail() {
    let expanded: HashSet<i64> = [1].into_iter().collect();
    let none = HashSet::new();
    assert!(matches!(
        display_output(None, &none, false, &vec![failed()]).next,
        OutputNext::Unsuccessful
    ));
    assert!(shown(display_output(None, &none, false, &vec![good(ResponseBody::launch(None))]))
        .is_empty());
    let replies = vec![threads(&[(1, "main")]), frames(vec![frame(4, "f", 1, None)])];
    let run = display_output(None, &expanded, false, &replies);
    assert!(matches!(run.next, OutputNext::NoSource(0)));
    assert_eq!(run.frame, Some(4));
    let replies = vec![threads(&[(1, "main")]), failed()];
    assert!(matches!(
        display_output(None, &expanded, false, &replies).next,
        OutputNext::Unsuccessful
    ));
}

#[test]
fn the_variables_window_shows_the_top_frame() {
    let mut handler = DebuggerHandler::new(
        DebuggerType::CodeLLDB,
        "prog".to_string(),
        Breakpoints::new(),
    );
    handler.select_thread(1);
    handler.toggle_thread(1);
    let replies = vec![
        threads(&[(1, "main")]),
        frames(vec![frame(4, "f", 1, None)]),
        scopes(vec![]),
    ];
    let run = handler.display_output_info(VadreBufferType::Variables, &replies).unwrap();
    assert_eq!(run.variables, Some(vec![]));
    assert_eq!(shown(run), vec!["1 - `main` (*)"]);
    assert_eq!(handler.current_frame_id, Some(4));
    assert!(handler.display_output_info(VadreBufferType::Logs, &replies).is_none());
}

#[test]
fn debugpy_threads_are_named_with_their_top_frames() {
    let mut replies = vec![];
    assert!(matches!(
        process_output_info(None, &replies).next,
        OutputNext::Ask(RequestArguments::threads(None))
    ));
    replies.push(threads(&[(1, "Main"), (2, "T2")]));
    assert!(asks_frames_of(&process_output_info(None, &replies), 1));
    replies.push(frames(vec![frame(3, "f", 1, None)]));
    assert!(asks_frames_of(&process_output_info(None, &replies), 2));
    replies.push(frames(vec![frame(4, "g", 1, None), frame(5, "h", 1, None)]));
    assert_eq!(shown(process_output_info(None, &replies)), vec!["Main - f", "T2 - g"]);
}

#[test]
fn the_current_debugpy_thread_is_listed_with_its_frames() {
    let mut replies = vec![
        threads(&[(1, "Main"), (2, "T2"), (3, "T3")]),
        frames(vec![
            frame(3, "f", 7, source(Some("a.py"), Some("/a.py"))),
            frame(4, "g", 8, source(Some("b"), None)),
        ]),
    ];
    let run = process_output_info(Some(1), &replies);
    assert!(matches!(
        &run.next,
        OutputNext::Ask(RequestArguments::scopes(a)) if a.frame_id == 3
    ));
    assert_eq!(run.frame, Some(3));
    replies.push(scopes(vec![scope("Locals", 5)]));
    replies.push(variables(vec![variable("x", "1", None)]));
    let run = process_output_info(Some(1), &replies);
    assert_eq!(
        run.variables,
        Some(vec!["Locals:".to_string(), "+ x = \"1\"".to_string()])
    );
    assert!(asks_frames_of(&run, 2));
    // Another answer than frames leaves the name, and a failure not even that.
    replies.push(good(ResponseBody::launch(None)));
    replies.push(Response { success: true, ..failed() });
    assert_eq!(
        shown(process_output_info(Some(1), &replies)),
        vec!["Main (*)", "+ f", "  - a.py:7", "+ g", "  - b:8 (dissassembled)", "T2"]
    );
}

#[test]
fn debugpy_threads_without_frames_or_sources() {
    let replies = vec![threads(&[(1, "Main")]), frames(vec![])];
    assert!(matches!(process_output_info(None, &replies).next, OutputNext::NoFrames));
    assert!(matches!(process_output_info(Some(1), &replies).next, OutputNext::NoFrames));
    let replies = vec![
        threads(&[(1, "Main")]),
        frames(vec![
            frame(3, "f", 7, source(Some("a.py"), Some("/a.py"))),
            frame(4, "g", 8, None),
        ]),
        scopes(vec![]),
    ];
    let run = process_output_info(Some(1), &replies);
    assert!(matches!(run.next, OutputNext::NoSource(1)));
    assert_eq!(run.variables, Some(vec![]));
    assert!(matches!(
        process_output_info(None, &vec![failed()]).next,
        OutputNext::Unsuccessful
    ));
}
