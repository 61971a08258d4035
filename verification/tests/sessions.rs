use nvim_vadre::joined::join;
use nvim_vadre::processor::{
    accepted, connect_failure, connection, disconnect_request, is_response_to, local_address,
    stream_action, stream_line, ConnectRun, Connection, OutputStream, RequestTimeout, SequenceIds,
    StreamAction, StreamItem,
};
use nvim_vadre::protocol::{
    Either, Empty, EventBody, ProtocolMessage, ProtocolMessageType, RequestArguments, Response,
    ResponseBody, ResponseResult,
};
use nvim_vadre::session::{
    message_failure, receive_failure, route_message, MessageRoute, SetupEvent, SetupRun,
    SetupStage, SetupStyle,
};
use nvim_vadre::value::NvimValue;

fn answer(request_seq: u32, success: bool) -> Response {
    Response {
        request_seq: Either::First(request_seq),
        success,
        result: ResponseResult::Success { body: ResponseBody::launch(Some(Empty {})) },
    }
}

fn message(type_: ProtocolMessageType) -> ProtocolMessage {
    ProtocolMessage { seq: Either::First(9), type_ }
}

#[test]
fn an_adapter_is_reached_in_one_of_three_ways() {
    assert!(matches!(connection(Some(7), Some("x".to_string())), Some(Connection::Port(7))));
    match connection(None, Some("  lldb-dap --port\t5 ".to_string())) {
        Some(Connection::Command(cmd, args)) => {
            assert_eq!(cmd, "lldb-dap");
            assert_eq!(args, vec!["--port", "5"]);
        }
        other => panic!("{:?}", other),
    }
    assert!(connection(None, Some(" \t".to_string())).is_none());
    assert!(matches!(connection(None, None), Some(Connection::Start)));
    assert_eq!(local_address(65535), "127.0.0.1:65535");
}

#[test]
fn connecting_is_given_up_after_forty_nine_attempts() {
    let mut run = ConnectRun::new();
    let mut attempts = 1;
    while let Some(next) = run.failed() {
        run = next;
        attempts += 1;
    }
    assert_eq!(attempts, 49);
    assert_eq!(connect_failure(), "Couldn't connect to server after 50 attempts, bailing");
}

#[test]
fn the_streams_of_an_adapter_are_logged() {
    assert_eq!(stream_line(OutputStream::Stdout, "hi"), "Debugger stdout: hi");
    assert_eq!(stream_line(OutputStream::Stderr, "oh"), "Debugger stderr: oh");
}

#[test]
fn requests_are_numbered_one_after_the_other() {
    let mut ids = SequenceIds::new();
    for expected in 1..4 {
        let (id, m) = ids.request(disconnect_request());
        assert_eq!(id, expected);
        assert!(matches!(m.seq, Either::First(n) if n == expected));
        assert!(matches!(
            m.type_,
            ProtocolMessageType::Request(RequestArguments::disconnect(ref a))
                if a.restart == Some(false)
                    && a.suspend_debuggee.is_none()
                    && a.terminate_debuggee == Some(true)
        ));
    }
    let mut last = SequenceIds { next: u32::MAX };
    let m = last.message(ProtocolMessageType::Response(answer(1, true)));
    assert!(matches!(m.seq, Either::First(u32::MAX)));
    assert_eq!(last.next, 0);
}

#[test]
fn answers_are_told_apart_by_numbers() {
    let m = message(ProtocolMessageType::Response(answer(4, true)));
    assert!(is_response_to(&m, 4));
    assert!(!is_response_to(&m, 5));
    let event = message(ProtocolMessageType::Event(EventBody::initialized(None)));
    assert!(!is_response_to(&event, 9));
    assert!(accepted(answer(1, true)).is_ok());
    assert!(accepted(answer(1, false)).is_err());
}

#[test]
fn what_comes_over_a_connection_goes_on() {
    let m = message(ProtocolMessageType::Response(answer(4, true)));
    assert!(matches!(
        stream_action(StreamItem::Message(m)),
        StreamAction::Broadcast(m) if is_response_to(&m, 4)
    ));
    assert!(matches!(
        stream_action(StreamItem::NotUnderstood("x".to_string())),
        StreamAction::Report(t) if t == "An decoder error occurred: x"
    ));
    assert!(matches!(
        stream_action(StreamItem::Broken("y".to_string())),
        StreamAction::Report(t) if t == "Frame decoder error: y"
    ));
    assert!(matches!(stream_action(StreamItem::Closed), StreamAction::Stop));
}

#[test]
fn the_time_for_an_answer_is_looked_up_every_minute() {
    let minute = 60_000_000_000;
    let mut t = RequestTimeout::new(5);
    assert_eq!(t.seconds, 30);
    assert!(!t.is_stale(5 + minute));
    assert!(t.is_stale(6 + minute));
    t.set(6 + minute, &Some(NvimValue::Unsigned(12)));
    assert_eq!(t.seconds, 12);
    assert!(!t.is_stale(7 + minute));
    for unusable in [None, Some(NvimValue::Negative(-1)), Some(NvimValue::Str("9".to_string()))] {
        t.set(0, &unusable);
        assert_eq!(t.seconds, 30);
    }
}

fn run_through(run: SetupRun, events: Vec<SetupEvent>) -> Result<SetupRun, String> {
    let mut run = run;
    for e in events {
        run = run.next(e)?;
    }
    Ok(run)
}

fn done(n: usize) -> Vec<SetupEvent> {
    (0..n).map(|_| SetupEvent::Done).collect()
}

#[test]
fn a_session_in_a_terminal_is_set_up() {
    let run = run_through(SetupRun::new(SetupStyle::Watched, false), done(3)).unwrap();
    assert_eq!(run.stage, SetupStage::LaunchProgram);
    let run = run.next(SetupEvent::Launched(true)).unwrap();
    assert_eq!(run.stage, SetupStage::AwaitTerminal);
    // An answer that the launch went well is no reason to go on.
    let run = run.next(SetupEvent::LaunchAnswered(true, String::new())).unwrap();
    assert_eq!(run.stage, SetupStage::AwaitTerminal);
    let run = run.next(SetupEvent::TerminalSpawned).unwrap();
    assert_eq!(run.stage, SetupStage::SetBreakpoints);
    let run = run_through(run, done(2)).unwrap();
    assert_eq!(run.stage, SetupStage::AwaitAnswers(false, false));
    let run = run.next(SetupEvent::ConfigurationAnswered).unwrap();
    assert_eq!(run.stage, SetupStage::AwaitAnswers(false, true));
    let run = run.next(SetupEvent::LaunchAnswered(false, String::new())).unwrap();
    assert_eq!(run.stage, SetupStage::LogSuccess);
    assert_eq!(run.success_message(), "DAP Debugger and program launched successfully");
    assert_eq!(run.next(SetupEvent::Done).unwrap().stage, SetupStage::Complete);
}

#[test]
fn attaching_waits_for_no_terminal() {
    let run = run_through(SetupRun::new(SetupStyle::Plain, true), done(3)).unwrap();
    let run = run.next(SetupEvent::Launched(true)).unwrap();
    assert_eq!(run.stage, SetupStage::SetBreakpoints);
    let run = run_through(SetupRun::new(SetupStyle::Plain, false), done(3)).unwrap();
    let run = run.next(SetupEvent::Launched(false)).unwrap();
    assert_eq!(run.stage, SetupStage::AwaitTerminal);
    assert_eq!(run.success_message(), "Debugger and program launched successfully");
    let run = run_through(SetupRun::new(SetupStyle::Watched, false), done(3)).unwrap();
    let run = run.next(SetupEvent::Launched(false)).unwrap();
    assert_eq!(run.stage, SetupStage::SetBreakpoints);
}

#[test]
fn setting_up_fails_for_a_reason() {
    let start = SetupRun::new(SetupStyle::Watched, false);
    assert_eq!(start.next(SetupEvent::Failed("no".to_string())), Err("no".to_string()));
    let mut events = done(3);
    events.push(SetupEvent::Launched(true));
    let waiting = run_through(start, events).unwrap();
    assert_eq!(
        waiting.next(SetupEvent::LaunchAnswered(false, "bad".to_string())),
        Err("Error launching program: bad".to_string())
    );
    assert_eq!(
        waiting.next(SetupEvent::LaunchLost("gone".to_string())),
        Err("Error launching program: gone".to_string())
    );
    assert_eq!(
        waiting.next(SetupEvent::TerminalLost("late".to_string())),
        Err("late".to_string())
    );
    let mut events = done(2);
    events.insert(0, SetupEvent::TerminalSpawned);
    let answers = run_through(waiting, events).unwrap();
    assert_eq!(
        answers.next(SetupEvent::ConfigurationLost("c".to_string())),
        Err("c".to_string())
    );
    assert_eq!(answers.next(SetupEvent::LaunchLost("l".to_string())), Err("l".to_string()));
    // What nothing waits for changes nothing.
    assert_eq!(start.next(SetupEvent::TerminalSpawned), Ok(start));
}

#[test]
fn messages_of_the_adapter_go_where_they_belong() {
    let request = message(ProtocolMessageType::Request(RequestArguments::threads(None)));
    assert!(matches!(
        route_message(request),
        MessageRoute::Request(9, RequestArguments::threads(None))
    ));
    let response = message(ProtocolMessageType::Response(answer(4, true)));
    assert!(matches!(route_message(response), MessageRoute::Awaited));
    let event = message(ProtocolMessageType::Event(EventBody::initialized(None)));
    assert!(matches!(
        route_message(event),
        MessageRoute::Event(EventBody::initialized(None))
    ));
    assert_eq!(receive_failure("x"), "Error receiving message: x");
    assert_eq!(message_failure("x"), "Error handling message: x");
}

#[test]
fn one_of_two_things() {
    let a: Either<u32, String> = Either::First(3);
    assert_eq!(*a.first(), 3);
    let b: Either<u32, String> = Either::Second("x".to_string());
    assert_eq!(b.second(), "x");
}

#[test]
fn a_reader_and_a_writer_are_one() {
    let mut joined = join(vec![1u8], String::new());
    joined.reader_mut().push(2);
    joined.writer_mut().push('w');
    assert_eq!(joined.reader_mut(), &vec![1, 2]);
    assert_eq!(joined.writer_mut(), "w");
}
