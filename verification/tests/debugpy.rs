use nvim_vadre::debugpy::{
    adapter_arguments, debug_program_str, handle_event, handler_failure, init_process,
    launch_notice, look_again, placements, AdapterLog, DebugPyEvent, DebuggerData, FramedSession,
    InitAction, MessageKind, Placement, PlacementError, SessionAction,
};
use nvim_vadre::events::StoppedAction;
use nvim_vadre::processor::StreamItem;
use nvim_vadre::protocol::{
    Either, EventBody, ProtocolMessage, ProtocolMessageType, RequestArguments, Response,
    ResponseBody, ResponseResult,
};
use nvim_vadre::schema::{
    Breakpoint, ContinuedEventBody, OutputEventBody, StoppedEventBody,
};

fn strings(list: &[&str]) -> Vec<String> {
    list.iter().map(|s| s.to_string()).collect()
}

fn response(request_seq: u32, success: bool) -> StreamItem {
    StreamItem::Message(ProtocolMessage {
        seq: Either::First(50),
        type_: ProtocolMessageType::Response(Response {
            request_seq: Either::First(request_seq),
            success,
            result: ResponseResult::Success { body: ResponseBody::launch(None) },
        }),
    })
}

fn request() -> ProtocolMessageType {
    ProtocolMessageType::Request(RequestArguments::threads(None))
}

fn breakpoint(id: Option<i64>, line: Option<i64>) -> Breakpoint {
    Breakpoint {
        column: None,
        end_column: None,
        end_line: None,
        id,
        instruction_reference: None,
        line,
        message: None,
        offset: None,
        source: None,
        verified: true,
    }
}

#[test]
fn an_awaited_answer_is_delivered_once() {
    let mut session = FramedSession::new();
    let m = session.outgoing(request(), true);
    assert!(matches!(m.seq, Either::First(1)));
    let m = session.outgoing(request(), false);
    assert!(matches!(m.seq, Either::First(2)));
    session.outgoing(request(), true);
    // Nobody waits for this one.
    assert!(matches!(session.incoming(response(2, true)), SessionAction::Ignore));
    // A failure is never handed on, and the answer stays awaited.
    assert!(matches!(session.incoming(response(1, false)), SessionAction::Ignore));
    assert!(matches!(session.incoming(response(1, true)), SessionAction::Deliver(1, _)));
    assert!(matches!(session.incoming(response(1, true)), SessionAction::Ignore));
    assert!(matches!(session.incoming(response(3, true)), SessionAction::Deliver(3, _)));
}

#[test]
fn whatever_else_comes_is_dealt_with() {
    let mut session = FramedSession::new();
    let asked = StreamItem::Message(ProtocolMessage { seq: Either::First(8), type_: request() });
    assert!(matches!(session.incoming(asked), SessionAction::Request(8, _)));
    let event = StreamItem::Message(ProtocolMessage {
        seq: Either::First(9),
        type_: ProtocolMessageType::Event(EventBody::initialized(None)),
    });
    assert!(matches!(session.incoming(event), SessionAction::Event(_)));
    assert!(matches!(
        session.incoming(StreamItem::NotUnderstood("x".to_string())),
        SessionAction::Abort(t) if t == "An error occurred, panic: x"
    ));
    assert!(matches!(
        session.incoming(StreamItem::Broken("y".to_string())),
        SessionAction::Abort(t) if t == "Frame decoder error: y"
    ));
    assert!(matches!(session.incoming(StreamItem::Closed), SessionAction::Stop));
    assert_eq!(handler_failure(MessageKind::Request, "e"), "Debugger Request Error: e");
    assert_eq!(handler_failure(MessageKind::Response, "e"), "Debugger Response Error: e");
    assert_eq!(handler_failure(MessageKind::Event, "e"), "Debugger Event Error: e");
}

#[test]
fn events_of_debugpy_mean_something() {
    let output = EventBody::output(OutputEventBody {
        category: None,
        column: None,
        data: None,
        group: None,
        line: None,
        output: "hello \n".to_string(),
        source: None,
        variables_reference: None,
    });
    assert!(matches!(handle_event(output), DebugPyEvent::Log(t) if t == "Debugger: hello"));
    let stopped = EventBody::stopped(StoppedEventBody {
        all_threads_stopped: None,
        description: None,
        hit_breakpoint_ids: None,
        preserve_focus_hint: None,
        reason: "step".to_string(),
        text: None,
        thread_id: Some(4),
    });
    assert!(matches!(handle_event(stopped), DebugPyEvent::Stopped(Some(4))));
    let continued = EventBody::continued(ContinuedEventBody {
        all_threads_continued: None,
        thread_id: 1,
    });
    assert!(matches!(handle_event(continued), DebugPyEvent::Continued));
    assert!(matches!(handle_event(EventBody::initialized(None)), DebugPyEvent::Nothing));
}

#[test]
fn a_stop_is_shown_unless_somebody_waits_for_it() {
    let mut data = DebuggerData::new();
    assert_eq!(data.handle_event_stopped(Some(3)), StoppedAction::Show);
    assert_eq!(data.current_thread_id, Some(3));
    data.stop_awaited = true;
    assert_eq!(data.handle_event_stopped(None), StoppedAction::GoOn);
    assert_eq!(data.current_thread_id, None);
    assert!(!data.stop_awaited);
}

#[test]
fn placements_follow_the_lines() {
    let lines = vec![10, 20];
    let reports = vec![breakpoint(Some(1), Some(11)), breakpoint(Some(2), None)];
    assert_eq!(
        placements(&lines, &reports),
        Ok(vec![
            Placement { id: 1, line_number: 10, actual_line_number: Some(11) },
            Placement { id: 2, line_number: 20, actual_line_number: None },
        ])
    );
    let reports = vec![breakpoint(Some(1), None), breakpoint(None, None)];
    assert_eq!(placements(&vec![], &reports), Err(PlacementError::NoId(1)));
    assert_eq!(
        placements(&vec![], &vec![breakpoint(Some(1), None)]),
        Err(PlacementError::TooMany)
    );
    assert!(look_again(98));
    assert!(!look_again(99));
}

#[test]
fn the_adapter_of_debugpy_is_started() {
    let args = |log| adapter_arguments("/dir".to_string(), 5678, &log);
    assert_eq!(args(AdapterLog::Nowhere), strings(&["/dir", "--port", "5678"]));
    assert_eq!(
        args(AdapterLog::Directory("/tmp".to_string())),
        strings(&["/dir", "--port", "5678", "--log-dir=/tmp"])
    );
    assert_eq!(args(AdapterLog::Stderr), strings(&["/dir", "--port", "5678", "--log-stderr"]));
    assert_eq!(debug_program_str("a.py", &strings(&["x", "y"])), "a.pyx y");
    assert_eq!(
        launch_notice("a.py", &strings(&["x"])),
        "Launching process \"a.py\" with debugpy and args: [\"x\"]"
    );
}

#[test]
fn a_program_is_started_step_by_step() {
    let actions = init_process(
        strings(&["x"]),
        "/cwd".to_string(),
        "/a.py".to_string(),
        &strings(&["/a.py", "/b.py"]),
    );
    assert_eq!(actions.len(), 8);
    assert!(matches!(
        &actions[0],
        InitAction::Ask(RequestArguments::initialize(a)) if a.adapter_id == "debugpy"
    ));
    match &actions[1] {
        InitAction::Send(RequestArguments::launch(Either::Second(j))) => assert_eq!(
            j.display(),
            "{\"args\":[\"x\"],\"console\":\"integratedTerminal\",\"cwd\":\"/cwd\",\"env\":{},\
             \"name\":\"debugpy\",\"program\":\"/a.py\",\"request\":\"launch\",\
             \"stopOnEntry\":true,\"type\":\"debugpy\"}"
        ),
        other => panic!("{:?}", other),
    }
    assert!(matches!(
        &actions[2],
        InitAction::Send(RequestArguments::setFunctionBreakpoints(a)) if a.breakpoints.is_empty()
    ));
    assert!(matches!(
        &actions[3],
        InitAction::Send(RequestArguments::setExceptionBreakpoints(a)) if a.filters.is_empty()
    ));
    assert!(matches!(&actions[4], InitAction::SetBreakpoints(f) if f == "/a.py"));
    assert!(matches!(&actions[5], InitAction::SetBreakpoints(f) if f == "/b.py"));
    assert!(matches!(&actions[6], InitAction::AwaitTerminal));
    assert!(matches!(
        &actions[7],
        InitAction::Ask(RequestArguments::configurationDone(None))
    ));
}
