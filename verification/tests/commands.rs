use nvim_vadre::breakpoints::Breakpoints;
use nvim_vadre::commands::{
    breakpoint_answer, handle_request, launch, note_breakpoint, stop_answer, Command, FailedStep,
    InstanceIds, Launch, LaunchError, StopOutcome, DEFAULT_DEBUGGER, PONG,
};
use nvim_vadre::handler::DebuggerStepType;
use nvim_vadre::number::IntError;
use nvim_vadre::value::NvimValue;

fn text(s: &str) -> NvimValue {
    NvimValue::Str(s.to_string())
}

fn list(items: &[&str]) -> Vec<NvimValue> {
    items.iter().map(|s| text(s)).collect()
}

fn variables(l: &Launch) -> Vec<(&str, &str)> {
    l.environment_variables
        .entries
        .iter()
        .map(|(k, v)| (k.as_str(), v.as_str()))
        .collect()
}

#[test]
fn options_come_before_the_command() {
    let l = launch(&list(&[
        "-t=python",
        "--debugger-port=5678",
        "-e",
        "B=2=3",
        "--env",
        "A=",
        "prog",
        "x",
        "-v",
    ]))
    .unwrap();
    assert_eq!(l.debugger_name(), "python");
    assert_eq!(l.debugger_port.as_deref(), Some("5678"));
    assert_eq!(l.port(), Ok(Some(5678)));
    assert_eq!(variables(&l), vec![("A", ""), ("B", "2")]);
    assert_eq!(l.command, "prog");
    assert_eq!(l.command_args, vec!["x", "-v"]);
    assert_eq!(l.debug_program_string(), "prog x -v");
    assert_eq!(
        l.history_command(),
        "let g:vadre_last_command[\"python\"] = \"prog x -v\""
    );
    assert_eq!(l.program_not_found(), "ERROR: Program not found prog");
}

#[test]
fn ports_are_sixteen_bits_wide() {
    let port = |arg: &str| launch(&list(&[arg])).unwrap().port();
    assert_eq!(port("prog"), Ok(None));
    assert_eq!(port("--debugger-port=+65535"), Ok(Some(65535)));
    assert_eq!(port("--debugger-port=65536"), Err(IntError::PosOverflow));
    assert_eq!(port("--debugger-port=x"), Err(IntError::InvalidDigit));
    assert_eq!(PONG, "pong");
}

#[test]
fn after_the_dashes_nothing_is_an_option() {
    let l = launch(&list(&["--", "-t=go", "--debugger-port=1", "-e", "a=b"])).unwrap();
    assert_eq!(l.command, "-t=go");
    assert_eq!(l.command_args, vec!["--debugger-port=1", "-e", "a=b"]);
    assert_eq!(l.debugger_type, None);
    assert_eq!(l.debugger_name(), DEFAULT_DEBUGGER);
    assert!(variables(&l).is_empty());
}

#[test]
fn options_without_a_value_are_part_of_the_command() {
    let l = launch(&list(&["-t=", "--debugger-port="])).unwrap();
    assert_eq!(l.command, "-t=");
    assert_eq!(l.command_args, vec!["--debugger-port="]);
    assert_eq!(l.debug_program_string(), "-t= --debugger-port=");
    // Anything that starts like the short option for variables is that option.
    let l = launch(&list(&["-every", "K=V", "prog"])).unwrap();
    assert_eq!(variables(&l), vec![("K", "V")]);
    assert_eq!(l.command, "prog");
    // A variable may stand behind the dashes.
    let l = launch(&list(&["-e", "--", "K=V", "prog"])).unwrap();
    assert_eq!(variables(&l), vec![("K", "V")]);
    // Options are taken behind the command too.
    let l = launch(&list(&["prog", "-t=go", "x"])).unwrap();
    assert_eq!(l.debugger_name(), "go");
    assert_eq!(l.command_args, vec!["x"]);
    // An empty text is no command.
    let l = launch(&list(&["", "prog"])).unwrap();
    assert_eq!(l.command, "prog");
    assert_eq!(launch(&vec![]).unwrap().command, "");
}

#[test]
fn arguments_that_cannot_be_launched() {
    let mut args = list(&["prog"]);
    args.push(NvimValue::Unsigned(1));
    args.push(text("-e"));
    args.push(text("novalue"));
    assert_eq!(launch(&args).unwrap_err(), LaunchError::NotAString);
    assert_eq!(LaunchError::NotAString.message(), "Argument must be a string");
    assert_eq!(launch(&list(&["-e", "novalue"])).unwrap_err(), LaunchError::NoValue);
    assert_eq!(LaunchError::NoValue.message(), "Key not found for environment variable");
    assert_eq!(launch(&vec![NvimValue::BrokenStr]).unwrap_err(), LaunchError::NotAString);
}

#[test]
fn sessions_are_numbered_from_one() {
    let mut ids = InstanceIds::new();
    assert_eq!((ids.take(), ids.take(), ids.take()), (1, 2, 3));
}

fn refused(name: &str, args: Vec<NvimValue>) -> String {
    handle_request(name, args).unwrap_err()
}

#[test]
fn requests_are_understood() {
    assert!(matches!(handle_request("ping", vec![]), Ok(Command::Ping)));
    assert!(matches!(handle_request("breakpoint", vec![]), Ok(Command::Breakpoint)));
    match handle_request("launch", vec![NvimValue::Array(list(&["a", "b"]))]) {
        Ok(Command::Launch(args)) => assert_eq!(args.len(), 2),
        other => panic!("{:?}", other),
    }
    let step = |args| match handle_request("step_in", vec![NvimValue::Array(args)]) {
        Ok(Command::Step(DebuggerStepType::In, id, count)) => (id, count),
        other => panic!("{:?}", other),
    };
    assert_eq!(step(list(&["\"12\""])), (12, 1));
    assert_eq!(step(vec![text("3"), NvimValue::Unsigned(7)]), (3, 7));
    assert!(matches!(
        handle_request("step_over", vec![NvimValue::Array(list(&["1"]))]),
        Ok(Command::Step(DebuggerStepType::Over, 1, 1))
    ));
    assert!(matches!(
        handle_request("continue", list(&["2"])),
        Ok(Command::Step(DebuggerStepType::Continue, 2, 1))
    ));
    assert!(matches!(
        handle_request("output_window", vec![NvimValue::Array(list(&["4", ">"]))]),
        Ok(Command::OutputWindow(4, t)) if t == ">"
    ));
    assert!(matches!(
        handle_request("stop_debugger", list(&["5"])),
        Ok(Command::StopDebugger(5))
    ));
}

#[test]
fn requests_that_are_refused() {
    assert_eq!(refused("launch", vec![]), "Launch args must be supplied");
    assert_eq!(refused("launch", list(&["x"])), "Launch args must be an array");
    assert_eq!(refused("step_in", vec![]), "Step args must be supplied");
    assert_eq!(refused("step_over", vec![NvimValue::Nil]), "Step args must be an array");
    assert_eq!(
        refused("step_in", vec![NvimValue::Array(vec![])]),
        "Instance id must be supplied"
    );
    assert_eq!(
        refused("step_in", vec![NvimValue::Array(vec![NvimValue::Unsigned(1)])]),
        "Instance id must be a string"
    );
    assert_eq!(
        refused("step_in", vec![NvimValue::Array(list(&["x"]))]),
        "Instance id must be usize: invalid digit found in string"
    );
    assert_eq!(
        refused("step_over", vec![NvimValue::Array(list(&["\"\""]))]),
        "Instance id is usize: cannot parse integer from empty string"
    );
    assert_eq!(
        refused("step_in", vec![NvimValue::Array(list(&["1", "2"]))]),
        "Count must be u64"
    );
    assert_eq!(
        refused("step_over", vec![NvimValue::Array(vec![text("1"), NvimValue::Negative(-1)])]),
        "Count is u64"
    );
    assert_eq!(refused("continue", vec![]), "Instance id must be supplied");
    assert_eq!(
        refused("continue", list(&["\"1\""])),
        "Instance id is usize: invalid digit found in string"
    );
    assert_eq!(refused("output_window", vec![]), "Launch args must be supplied");
    assert_eq!(
        refused("output_window", vec![NvimValue::Array(list(&["1"]))]),
        "Type must be supplied"
    );
    assert_eq!(
        refused("output_window", vec![NvimValue::Array(vec![text("1"), NvimValue::Boolean(true)])]),
        "Type must be a string"
    );
    assert_eq!(refused("stop_debugger", vec![NvimValue::Other]), "Instance id must be a string");
    assert_eq!(refused("fly", vec![]), "Unimplemented fly");
}

#[test]
fn stopping_is_answered() {
    let answered = stop_answer(3, &StopOutcome::Answered);
    assert!(answered.gone);
    assert_eq!(answered.answer, Ok("Debugger instance 3 failed to stop".to_string()));
    let refused = stop_answer(3, &StopOutcome::Refused);
    assert!(refused.gone);
    assert_eq!(refused.answer, Err("Debugger instance 3 stopped".to_string()));
    let late = stop_answer(3, &StopOutcome::TimedOut("deadline has elapsed".to_string()));
    assert!(!late.gone);
    assert_eq!(late.answer, Err("Couldn't stop debugger: deadline has elapsed".to_string()));
}

#[test]
fn breakpoints_are_noted_for_sessions_to_come() {
    let mut pending = Breakpoints::new();
    assert!(note_breakpoint(&mut pending, true, "/a.rs".to_string(), 4).is_ok());
    assert_eq!(pending.get_all_files(), vec!["/a.rs"]);
    assert!(note_breakpoint(&mut pending, false, "/a.rs".to_string(), 4).is_ok());
    assert_eq!(
        note_breakpoint(&mut pending, false, "/b.rs".to_string(), 4),
        Err("Couldn't remove breakpoint from pending breakpoints: \
             Can't find existing breakpoints for file /b.rs"
            .to_string())
    );
    assert_eq!(breakpoint_answer(true), "breakpoint set");
    assert_eq!(breakpoint_answer(false), "breakpoint removed");
}

#[test]
fn failed_steps_are_told() {
    let all = [
        (FailedStep::Lua, "Lua error: e"),
        (FailedStep::NewDebugger, "Can't setup debugger: e"),
        (FailedStep::Setup, "Critical error setting up debugger: e"),
        (FailedStep::Window, "Couldn't get current window: e"),
        (FailedStep::Cursor, "Couldn't get current cursor position: e"),
        (FailedStep::Buffer, "Couldn't get current buffer: e"),
        (FailedStep::BufferName, "Couldn't get current cursor position: e"),
        (FailedStep::NoSuchFile, "Requested to set breakpoints in non-existent file: e"),
        (FailedStep::PathText, "Couldn't get file path as string: e"),
        (FailedStep::Sign, "Breakpoint sign didn't place: e"),
        (FailedStep::AddBreakpoint, "Couldn't set breakpoints: e"),
        (FailedStep::RemoveBreakpoint, "Couldn't remove breakpoints: e"),
        (FailedStep::CodeStep, "Couldn't do code step: e"),
        (FailedStep::OutputWindow, "Couldn't show output window: e"),
    ];
    for (step, words) in all {
        assert_eq!(step.message("e"), words);
    }
}
