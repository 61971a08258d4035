use nvim_vadre::buffers::{
    code_is_replaced, file_code, file_type, log_cursor, log_lines, log_setting, sent_code,
    set_file_type_command, set_vadre_buffer_options, setup_signs, terminal_command, write_range,
    OptionValue, SignDefinition,
};
use nvim_vadre::neovim::{
    SelectorError, VadreBufferType, VadreLogLevel, VadreOutputBufferSelector, VadreWindowType,
};
use nvim_vadre::number::IntError;
use nvim_vadre::signs::{
    line_is_breakpoint, list_signs_command, place_command, toggle_breakpoint_sign, unplace_command,
    SignAction, SignError,
};
use nvim_vadre::value::NvimValue;
use nvim_vadre::window::{create_ui, NeovimVadreWindow, SignIds, UiAction};

const OUTPUTS: [VadreBufferType; 5] = [
    VadreBufferType::Terminal,
    VadreBufferType::Logs,
    VadreBufferType::CallStack,
    VadreBufferType::Variables,
    VadreBufferType::Breakpoints,
];

fn text(s: &str) -> NvimValue {
    NvimValue::Str(s.to_string())
}

fn window() -> NeovimVadreWindow {
    NeovimVadreWindow::new(3, &mut SignIds::new())
}

#[test]
fn lines_are_logged_up_to_a_level() {
    let levels = [
        VadreLogLevel::CRITICAL,
        VadreLogLevel::ERROR,
        VadreLogLevel::WARN,
        VadreLogLevel::INFO,
        VadreLogLevel::DEBUG,
    ];
    let logged = |setting: &str| levels.iter().filter(|l| l.should_log(setting)).count();
    assert_eq!(logged("critical"), 1);
    assert_eq!(logged("Info"), 4);
    assert_eq!(logged("DEBUG"), 5);
    assert_eq!(logged("2"), 2);
    assert_eq!(logged("0"), 0);
    assert_eq!(logged("255"), 5);
    assert_eq!(logged("256"), 5);
    assert_eq!(logged("warn"), 5);
    assert_eq!(VadreLogLevel::WARN.display(), "WARN");
    assert_eq!(VadreLogLevel::WARN.log_level(), 3);
}

#[test]
fn every_line_of_a_message_is_logged() {
    assert_eq!(
        log_lines("Mon 10:00:00.000001", VadreLogLevel::INFO, "a\nb"),
        vec!["Mon 10:00:00.000001 [INFO] a", "Mon 10:00:00.000001 [INFO] b"]
    );
    assert_eq!(log_setting(&None).as_deref(), Some("INFO"));
    assert_eq!(log_setting(&Some(NvimValue::Unsigned(4))).as_deref(), Some("4"));
    assert_eq!(log_setting(&Some(NvimValue::Negative(-4))).as_deref(), Some("-4"));
    assert_eq!(log_setting(&Some(text("debug"))).as_deref(), Some("debug"));
    assert_eq!(log_setting(&Some(NvimValue::BrokenStr)), None);
    assert_eq!(log_setting(&Some(NvimValue::Nil)).as_deref(), Some("INFO"));
    assert_eq!(log_cursor(5, 5), Some(6));
    assert_eq!(log_cursor(5, 4), None);
    assert_eq!(log_cursor(1, 1), None);
}

#[test]
fn outputs_are_gone_through_in_a_circle() {
    let mut t = VadreBufferType::Terminal;
    let mut seen = vec![];
    for _ in 0..5 {
        seen.push(t);
        assert_eq!(t.next_output_type().previous_output_type(), t);
        assert_eq!(t.previous_output_type().next_output_type(), t);
        t = t.next_output_type();
    }
    assert_eq!(t, VadreBufferType::Terminal);
    assert_eq!(seen, OUTPUTS);
    let names: Vec<&str> = OUTPUTS.iter().map(|t| t.lua_name()).collect();
    assert_eq!(names, vec!["terminal", "logs", "callstack", "variables", "breakpoints"]);
}

#[test]
fn outputs_are_selected_by_their_first_letter() {
    let select = |s: &str| VadreOutputBufferSelector::get_type(s);
    assert_eq!(select("Next"), Ok(VadreOutputBufferSelector::Next));
    assert_eq!(select("PREVIOUS"), Ok(VadreOutputBufferSelector::Previous));
    assert_eq!(select("l"), Ok(VadreOutputBufferSelector::Logs));
    assert_eq!(select("stack"), Ok(VadreOutputBufferSelector::CallStack));
    assert_eq!(select("v"), Ok(VadreOutputBufferSelector::Variables));
    assert_eq!(select("Breakpoints"), Ok(VadreOutputBufferSelector::Breakpoints));
    assert_eq!(select(""), Err(SelectorError::Empty));
    assert_eq!(select("CallStack"), Err(SelectorError::Unknown));
    assert_eq!(select("Ö"), Err(SelectorError::Unknown));
    assert_eq!(SelectorError::Empty.message(""), "Empty type");
    assert_eq!(SelectorError::Unknown.message("CallStack"), "Can't understand type CallStack");
    assert_eq!(VadreOutputBufferSelector::CallStack.display(), "CallStack");
}

#[test]
fn buffers_are_found_by_the_end_of_their_names() {
    let from = |name: &str, s| VadreBufferType::get_output_buffer(name, s);
    let name = "Vadre Program (1) - Logs";
    assert_eq!(from(name, VadreOutputBufferSelector::Next), Ok(VadreBufferType::CallStack));
    assert_eq!(
        from(name, VadreOutputBufferSelector::Previous),
        Ok(VadreBufferType::Breakpoints)
    );
    assert_eq!(
        from("Vadre Program (1) - Breakpoints", VadreOutputBufferSelector::Next),
        Ok(VadreBufferType::Logs)
    );
    assert_eq!(
        from("x - Terminal", VadreOutputBufferSelector::Next),
        Err("Can't find buffer for Terminal".to_string())
    );
    assert_eq!(
        from("Code", VadreOutputBufferSelector::Logs),
        Err("Can't find buffer for Code".to_string())
    );
    for t in OUTPUTS {
        assert_eq!(VadreBufferType::get_buffer_type_from_str(t.buffer_type_name()), t);
    }
}

#[test]
fn buffers_have_names_and_options() {
    let w = window();
    assert_eq!(w.get_buffer_name(&VadreBufferType::Code, None), "Vadre Code (3)");
    assert_eq!(
        w.get_buffer_name(&VadreBufferType::Code, Some("/a.rs")),
        "Vadre Code (3) - /a.rs"
    );
    assert_eq!(w.get_buffer_name(&VadreBufferType::Logs, None), "Vadre Program (3) - Logs");
    assert_eq!(VadreBufferType::Logs.window_type(), VadreWindowType::Output);
    assert_eq!(VadreBufferType::Code.window_type(), VadreWindowType::Code);
    assert!(VadreBufferType::Code.buffer_post_display().is_none());
    let options = set_vadre_buffer_options(&VadreBufferType::Logs);
    let names: Vec<&str> = options.iter().map(|o| o.0.as_str()).collect();
    assert_eq!(names, vec!["swapfile", "buftype", "filetype", "buflisted", "modifiable"]);
    assert!(matches!(&options[1].1, OptionValue::Text(t) if t == "nofile"));
    assert!(matches!(&options[2].1, OptionValue::Text(t) if t == VadreBufferType::Logs.buffer_type_name()));
    assert!(matches!(&options[4].1, OptionValue::Flag(false)));
}

#[test]
fn the_output_window_changes() {
    let mut w = window();
    assert_eq!(w.get_output_window_type(), VadreBufferType::Terminal);
    let next = w.requested_output("next").unwrap();
    assert_eq!(next, VadreBufferType::Logs);
    assert_eq!(
        w.display_output_command(&next),
        "require('vadre.ui').display_output_window(3, 'logs')"
    );
    w.change_output_window(next);
    assert_eq!(w.get_output_window_type(), VadreBufferType::Logs);
    assert_eq!(w.requested_output("p"), Ok(VadreBufferType::Terminal));
    assert_eq!(w.requested_output("b"), Ok(VadreBufferType::Breakpoints));
    assert_eq!(w.requested_output("?"), Err(SelectorError::Unknown));
}

#[test]
fn commands_for_neovim_are_spelled_out() {
    let w = window();
    assert_eq!(
        w.set_popup_command(&VadreBufferType::Logs, 12),
        "require('vadre.ui').set_popup(3, 'logs', 12)"
    );
    assert_eq!(w.augroup_name(), "vadre_3");
    assert_eq!(
        w.on_close_code_command(12).split('\n').collect::<Vec<&str>>(),
        vec![
            "vim.api.nvim_create_autocmd(",
            "                        {\"BufHidden\"},",
            "                        {",
            "                             callback = require(\"vadre.autocmds\").on_close_vadre_window,",
            "                             group = \"vadre_3\",",
            "                             buffer = 12,",
            "                         }",
            "                    )",
        ]
    );
    assert_eq!(
        w.on_close_command(12).split('\n').collect::<Vec<&str>>(),
        vec![
            "vim.api.nvim_create_autocmd(",
            "                        {\"BufHidden\"},",
            "                        {",
            "                            callback = require(\"vadre.autocmds\").on_close_vadre_window,",
            "                            group = \"vadre_3\",",
            "                            buffer = 12,",
            "                        }",
            "                    )",
        ]
    );
    assert_eq!(
        w.on_enter_command(12).split('\n').collect::<Vec<&str>>(),
        vec![
            "vim.api.nvim_create_autocmd(",
            "                        {\"BufEnter\"},",
            "                        {",
            "                            callback = require(\"vadre.autocmds\").on_enter_vadre_output_window,",
            "                            group = \"vadre_3\",",
            "                            buffer = 12,",
            "                        }",
            "                    )",
        ]
    );
    assert_eq!(w.terminal_name("prog x"), "Vadre Program (3) - prog x");
    assert_eq!(w.unplace_pointer_command(), "sign unplace 1157831");
    assert_eq!(
        w.place_pointer_command(4, 12),
        "sign place 1157831 line=4 name=VadreDebugPointer buffer=12"
    );
    assert_eq!(set_file_type_command("rust"), "set filetype=rust");
    assert_eq!(terminal_command("ls"), "terminal! ls");
}

#[test]
fn keys_are_mapped_in_the_code() {
    let keys = window().set_vadre_debugger_keys_for_buffer();
    assert_eq!(keys.len(), 12);
    assert_eq!(
        keys[0],
        (
            "S".to_string(),
            ":<C-U>execute v:count1 . \" VadreStepIn \\\"3\\\"\"<CR>".to_string()
        )
    );
    assert_eq!(keys[4], ("<C-c>".to_string(), ":VadreInterrupt 3<CR>".to_string()));
    assert_eq!(
        keys[11],
        (
            "<".to_string(),
            "<cmd>lua require('vadre.setup').output_window(3, 'Previous')<CR>".to_string()
        )
    );
}

#[test]
fn the_windows_of_a_session_are_made_in_order() {
    let plan = create_ui();
    assert_eq!(plan.first(), Some(&UiAction::IgnoreEvents));
    assert_eq!(plan.last(), Some(&UiAction::Announce));
    let position = |a: UiAction| plan.iter().position(|x| *x == a).unwrap();
    assert!(position(UiAction::MakeBuffer(VadreBufferType::Logs)) < position(UiAction::LogFirstLine));
    for t in OUTPUTS {
        assert!(plan.contains(&UiAction::TakeBuffer(t)) || plan.contains(&UiAction::MakeBuffer(t)));
    }
}

#[test]
fn what_is_written_replaces_what_was_there() {
    assert_eq!(write_range(0, 0, 7, false), (0, 7));
    assert_eq!(write_range(-1, -1, 7, false), (-1, -1));
    assert_eq!(write_range(-1, -1, 1, true), (0, 1));
    assert_eq!(write_range(-1, -1, 1, false), (-1, -1));
    assert!(code_is_replaced("/x/Vadre Code (3) - a", "Vadre Code (3) - b", false));
    assert!(!code_is_replaced("/x/Vadre Code (3) - a", "Vadre Code (3) - a", false));
    assert!(code_is_replaced("/x/Vadre Code (3) - a", "Vadre Code (3) - a", true));
    assert_eq!(file_code("a  \nb\r\n"), vec!["a", "b", ""]);
    assert_eq!(sent_code("a \r\nb\nc"), vec!["a", "b\nc"]);
    assert_eq!(sent_code("a\n b "), vec!["a", " b"]);
    let types = ["rs", "c", "js", "ts", "go", "cpp", "py", "txt"];
    let found: Vec<Option<&str>> = types.iter().map(|e| file_type(e)).collect();
    assert_eq!(
        found,
        vec![
            Some("rust"),
            Some("c"),
            Some("javascript"),
            Some("typescript"),
            Some("go"),
            Some("cpp"),
            Some("python"),
            None,
        ]
    );
}

#[test]
fn signs_take_the_colour_of_their_column() {
    let option_names = |s: &SignDefinition| -> Vec<String> {
        s.options.iter().map(|o| o.0.clone()).collect()
    };
    let plain = setup_signs(&vec![]);
    let names: Vec<(&str, &str, &str)> = plain
        .iter()
        .map(|s| (s.name.as_str(), s.text.as_str(), s.group.as_str()))
        .collect();
    assert_eq!(
        names,
        vec![
            ("VadreSourceBreakpoint", "○", "VadreSourceBreakpointHighlight"),
            ("VadreEnabledBreakpoint", "⬤", "VadreEnabledBreakpointHighlight"),
            ("VadreDebugPointer", "->", "VadreDebugPointerHighlight"),
        ]
    );
    assert_eq!(option_names(&plain[0]), vec!["fg", "ctermfg", "bold"]);
    let column = vec![
        (text("ctermbg"), NvimValue::Unsigned(0)),
        (text("bg"), NvimValue::Unsigned(1)),
        (text("bg"), NvimValue::Unsigned(2)),
    ];
    for s in setup_signs(&column) {
        assert_eq!(option_names(&s), vec!["fg", "ctermfg", "bold", "bg", "ctermbg"]);
        assert!(matches!(s.options[3].1, OptionValue::Given(2)));
        assert!(matches!(s.options[4].1, OptionValue::Given(0)));
    }
    // Nothing is no colour.
    let column = vec![(text("bg"), NvimValue::Nil)];
    assert_eq!(option_names(&setup_signs(&column)[0]), vec!["fg", "ctermfg", "bold"]);
}

#[test]
fn the_sign_on_a_line_is_found() {
    let signs = "--- Signs ---\nSigns for a:\n\
                 \x20   line=3  id=1157833  name=VadreSourceBreakpoint  priority=10\n\
                 \x20   line=4  id=1157834  name=VadreDebugPointer  priority=10\n";
    assert_eq!(line_is_breakpoint(signs, 3), Ok(Some(1157833)));
    assert_eq!(line_is_breakpoint(signs, 4), Ok(None));
    // A line whose number starts alike is taken for the line.
    assert_eq!(
        line_is_breakpoint("line=31 id=5 name=VadreSourceBreakpoint", 3),
        Ok(Some(5))
    );
    let twice = "line=3 id=1 name=VadreSourceBreakpoint\nline=3 id=2 name=VadreSourceBreakpoint";
    assert_eq!(line_is_breakpoint(twice, 3), Err(SignError::Several));
    assert_eq!(
        line_is_breakpoint("line=3 name=VadreSourceBreakpoint", 3),
        Err(SignError::NoId)
    );
    assert_eq!(
        line_is_breakpoint("line=3 id=x name=VadreSourceBreakpoint", 3),
        Err(SignError::NotANumber(IntError::InvalidDigit))
    );
    assert_eq!(list_signs_command("7"), "sign place buffer=7");
    assert_eq!(unplace_command(5, "7"), "sign unplace 5 buffer=7");
    assert_eq!(
        place_command(5, 3, "7"),
        "sign place 5 line=3 name=VadreSourceBreakpoint buffer=7"
    );
    let mut ids = SignIds::new();
    assert_eq!((ids.take(), ids.take()), (1157831, 1157832));
    assert!(matches!(
        toggle_breakpoint_sign(signs, 3, "7", &mut ids),
        Ok(SignAction::Unplace(c)) if c == "sign unplace 1157833 buffer=7"
    ));
    assert!(matches!(
        toggle_breakpoint_sign(signs, 4, "7", &mut ids),
        Ok(SignAction::Place(c))
            if c == "sign place 1157833 line=4 name=VadreSourceBreakpoint buffer=7"
    ));
    assert!(matches!(
        toggle_breakpoint_sign(twice, 3, "7", &mut ids),
        Err(SignError::Several)
    ));
    assert_eq!(ids.next, 1157834);
}
