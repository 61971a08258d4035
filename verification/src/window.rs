//! The windows of one session in Neovim: the texts of names, commands and keys,
//! and what is done to the buffers.

use crate::neovim::{
    next_of, previous_of, selector_for, SelectorError, VadreBufferType, VadreOutputBufferSelector,
    VadreWindowType,
};
use crate::number::{decimal, decimal_int, signed_text, unsigned_text};
use vstd::prelude::*;

verus! {

/// The first number for a sign. It is large so that it meets no other plugin's.
pub const FIRST_SIGN_ID: usize = 1157831;

/// Hands out numbers for signs.
#[derive(Debug)]
pub struct SignIds {
    pub next: usize,
}

impl SignIds {
    /// Numbers from the first one on.
    pub fn new() -> (r: SignIds)
        ensures
            r.next == FIRST_SIGN_ID,
    {
        SignIds { next: FIRST_SIGN_ID }
    }

    /// The next number.
    pub fn take(&mut self) -> (r: usize)
        ensures
            r == old(self).next,
            final(self).next == old(self).next.wrapping_add(1),
    {
        let id: usize = self.next;
        self.next = id.wrapping_add(1);
        id
    }
}

/// The windows of one session.
#[derive(Debug)]
pub struct NeovimVadreWindow {
    pub instance_id: usize,
    pub current_output: VadreBufferType,
    pub pointer_sign_id: usize,
}

/// The name of a buffer: how it starts, the number of the session, and how it
/// ends, if it does.
pub open spec fn buffer_name(
    prefix: Seq<char>,
    id: usize,
    post: Option<Seq<char>>,
) -> Seq<char> {
    let start = prefix + " ("@ + decimal(id as nat) + ")"@;
    match post {
        Some(s) => start + " - "@ + s,
        None => start,
    }
}

/// How the name of a buffer ends: as it was asked for, or else by its type.
pub open spec fn name_end(t: VadreBufferType, post: Option<Seq<char>>) -> Option<Seq<char>> {
    match post {
        Some(s) => Some(s),
        None => if t == VadreBufferType::Code {
            None
        } else {
            Some(t.name())
        },
    }
}

/// The output that comes of a selection.
pub open spec fn selected_output(
    current: VadreBufferType,
    s: VadreOutputBufferSelector,
) -> VadreBufferType {
    match s {
        VadreOutputBufferSelector::Next => next_of(current),
        VadreOutputBufferSelector::Previous => previous_of(current),
        VadreOutputBufferSelector::Logs => VadreBufferType::Logs,
        VadreOutputBufferSelector::CallStack => VadreBufferType::CallStack,
        VadreOutputBufferSelector::Variables => VadreBufferType::Variables,
        VadreOutputBufferSelector::Breakpoints => VadreBufferType::Breakpoints,
    }
}

/// A mapping of a key that shows an output.
pub open spec fn output_key(id: Seq<char>, name: Seq<char>) -> Seq<char> {
    "<cmd>lua require('vadre.setup').output_window("@ + id + ", '"@ + name + "')<CR>"@
}

/// The keys in the code buffer, with what each does.
pub open spec fn debugger_keys(instance_id: usize) -> Seq<(Seq<char>, Seq<char>)> {
    let id = decimal(instance_id as nat);
    seq![
        ("S"@, ":<C-U>execute v:count1 . \" VadreStepIn \\\""@ + id + "\\\"\"<CR>"@),
        ("s"@, ":<C-U>execute v:count1 . \" VadreStepOver \\\""@ + id + "\\\"\"<CR>"@),
        ("c"@, ":VadreContinue "@ + id + "<CR>"@),
        ("C"@, ":VadreContinue "@ + id + "<CR>"@),
        ("<C-c>"@, ":VadreInterrupt "@ + id + "<CR>"@),
        ("<localleader>tt"@, "<cmd>lua require('vadre.setup').toggle_single_thread()<CR>"@),
        ("<localleader>l"@, output_key(id, "Logs"@)),
        ("<localleader>s"@, output_key(id, "CallStack"@)),
        ("<localleader>v"@, output_key(id, "Variables"@)),
        ("<localleader>b"@, output_key(id, "Breakpoints"@)),
        (">"@, output_key(id, "Next"@)),
        ("<"@, output_key(id, "Previous"@)),
    ]
}

/// Pairs of texts, as sequences of characters.
pub open spec fn text_pairs(list: Seq<(String, String)>) -> Seq<(Seq<char>, Seq<char>)> {
    list.map_values(|p: (String, String)| (p.0@, p.1@))
}

impl NeovimVadreWindow {
    /// The output is never the code.
    pub open spec fn wf(self) -> bool {
        self.current_output != VadreBufferType::Code
    }

    /// The windows of a session, which show the terminal first.
    pub fn new(instance_id: usize, sign_ids: &mut SignIds) -> (r: NeovimVadreWindow)
        ensures
            r.wf(),
            r.instance_id == instance_id,
            r.current_output == VadreBufferType::Terminal,
            r.pointer_sign_id == old(sign_ids).next,
            final(sign_ids).next == old(sign_ids).next.wrapping_add(1),
    {
        NeovimVadreWindow {
            instance_id,
            current_output: VadreBufferType::Terminal,
            pointer_sign_id: sign_ids.take(),
        }
    }

    /// The number of the session.
    fn id_text(&self) -> (r: String)
        ensures
            r@ == decimal(self.instance_id as nat),
    {
        unsigned_text(self.instance_id as u64)
    }

    /// The name of a buffer.
    pub fn get_buffer_name(&self, buffer_type: &VadreBufferType, post_display: Option<&str>) -> (r:
        String)
        ensures
            r@ == buffer_name(
                buffer_type.prefix(),
                self.instance_id,
                name_end(
                    *buffer_type,
                    match post_display {
                        Some(s) => Some(s@),
                        None => None,
                    },
                ),
            ),
    {
        let id = self.id_text();
        let start = buffer_type.buffer_name_prefix().concat(" (").concat(id.as_str()).concat(")");
        let end = match post_display {
            Some(s) => Some(s),
            None => buffer_type.buffer_post_display(),
        };
        match end {
            Some(s) => start.concat(" - ").concat(s),
            None => start,
        }
    }

    /// The output that is shown.
    pub fn get_output_window_type(&self) -> (r: VadreBufferType)
        ensures
            r == self.current_output,
    {
        self.current_output
    }

    /// The output that a text asks for.
    pub fn requested_output(&self, type_: &str) -> (r: Result<VadreBufferType, SelectorError>)
        requires
            self.wf(),
        ensures
            match r {
                Ok(t) => selector_for(type_@) matches Ok(s) && t == selected_output(
                    self.current_output,
                    s,
                ) && t != VadreBufferType::Code,
                Err(e) => selector_for(type_@) == Err::<VadreOutputBufferSelector, SelectorError>(
                    e,
                ),
            },
    {
        match VadreOutputBufferSelector::get_type(type_) {
            Ok(VadreOutputBufferSelector::Next) => Ok(self.current_output.next_output_type()),
            Ok(VadreOutputBufferSelector::Previous) => Ok(
                self.current_output.previous_output_type(),
            ),
            Ok(VadreOutputBufferSelector::Logs) => Ok(VadreBufferType::Logs),
            Ok(VadreOutputBufferSelector::CallStack) => Ok(VadreBufferType::CallStack),
            Ok(VadreOutputBufferSelector::Variables) => Ok(VadreBufferType::Variables),
            Ok(VadreOutputBufferSelector::Breakpoints) => Ok(VadreBufferType::Breakpoints),
            Err(e) => Err(e),
        }
    }

    /// Notes that another output is shown.
    pub fn change_output_window(&mut self, output: VadreBufferType)
        requires
            output != VadreBufferType::Code,
        ensures
            final(self).wf(),
            final(self).current_output == output,
            final(self).instance_id == old(self).instance_id,
            final(self).pointer_sign_id == old(self).pointer_sign_id,
    {
        self.current_output = output;
    }

    /// The Lua code that shows an output.
    pub fn display_output_command(&self, output: &VadreBufferType) -> (r: String)
        requires
            *output != VadreBufferType::Code,
        ensures
            r@ == "require('vadre.ui').display_output_window("@ + decimal(self.instance_id as nat)
                + ", '"@ + output.lua() + "')"@,
    {
        let id = self.id_text();
        "require('vadre.ui').display_output_window(".to_string().concat(id.as_str()).concat(
            ", '",
        ).concat(output.lua_name()).concat("')")
    }

    /// The Lua code that makes a buffer the one for an output.
    pub fn set_popup_command(&self, output: &VadreBufferType, buffer_number: i64) -> (r: String)
        requires
            *output != VadreBufferType::Code,
        ensures
            r@ == "require('vadre.ui').set_popup("@ + decimal(self.instance_id as nat) + ", '"@
                + output.lua() + "', "@ + decimal_int(buffer_number as int) + ")"@,
    {
        let id = self.id_text();
        let number = signed_text(buffer_number);
        "require('vadre.ui').set_popup(".to_string().concat(id.as_str()).concat(", '").concat(
            output.lua_name(),
        ).concat("', ").concat(number.as_str()).concat(")")
    }

    /// The name of the group of automatic commands.
    pub fn augroup_name(&self) -> (r: String)
        ensures
            r@ == "vadre_"@ + decimal(self.instance_id as nat),
    {
        let id = self.id_text();
        "vadre_".to_string().concat(id.as_str())
    }

    /// The Lua code that has something called when an event meets a buffer.
    fn autocmd(&self, margin: &str, event: &str, callback: &str, buffer_number: i64) -> (r: String)
        ensures
            r@ == autocmd_lua(self.instance_id, margin@, event@, callback@, buffer_number),
    {
        let group = self.augroup_name();
        let number = signed_text(buffer_number);
        "vim.api.nvim_create_autocmd(\n                        {\"".to_string().concat(event).concat(
            "\"},\n                        {\n",
        ).concat(margin).concat(
            "                            callback = require(\"vadre.autocmds\").",
        ).concat(callback).concat(",\n").concat(margin).concat(
            "                            group = \"",
        ).concat(group.as_str()).concat("\",\n").concat(margin).concat(
            "                            buffer = ",
        ).concat(number.as_str()).concat(",\n").concat(margin).concat(
            "                        }\n                    )",
        )
    }

    /// The Lua code that ends the session when the buffer for the code is hidden.
    pub fn on_close_code_command(&self, buffer_number: i64) -> (r: String)
        ensures
            r@ == autocmd_lua(
                self.instance_id,
                " "@,
                "BufHidden"@,
                "on_close_vadre_window"@,
                buffer_number,
            ),
    {
        self.autocmd(" ", "BufHidden", "on_close_vadre_window", buffer_number)
    }

    /// The Lua code that ends the session when the buffer in which the program runs
    /// is hidden.
    pub fn on_close_command(&self, buffer_number: i64) -> (r: String)
        ensures
            r@ == autocmd_lua(
                self.instance_id,
                ""@,
                "BufHidden"@,
                "on_close_vadre_window"@,
                buffer_number,
            ),
    {
        self.autocmd("", "BufHidden", "on_close_vadre_window", buffer_number)
    }

    /// The Lua code that is called when the output window is entered.
    pub fn on_enter_command(&self, buffer_number: i64) -> (r: String)
        ensures
            r@ == autocmd_lua(
                self.instance_id,
                ""@,
                "BufEnter"@,
                "on_enter_vadre_output_window"@,
                buffer_number,
            ),
    {
        self.autocmd("", "BufEnter", "on_enter_vadre_output_window", buffer_number)
    }

    /// The name of the buffer in which the program runs.
    pub fn terminal_name(&self, debug_program_str: &str) -> (r: String)
        ensures
            r@ == "Vadre Program ("@ + decimal(self.instance_id as nat) + ") - "@
                + debug_program_str@,
    {
        let id = self.id_text();
        "Vadre Program (".to_string().concat(id.as_str()).concat(") - ").concat(debug_program_str)
    }

    /// The command that takes the pointer away.
    pub fn unplace_pointer_command(&self) -> (r: String)
        ensures
            r@ == "sign unplace "@ + decimal(self.pointer_sign_id as nat),
    {
        let id = unsigned_text(self.pointer_sign_id as u64);
        "sign unplace ".to_string().concat(id.as_str())
    }

    /// The command that points at a line.
    pub fn place_pointer_command(&self, line_number: i64, buffer_number: i64) -> (r: String)
        ensures
            r@ == "sign place "@ + decimal(self.pointer_sign_id as nat) + " line="@ + decimal_int(
                line_number as int,
            ) + " name=VadreDebugPointer buffer="@ + decimal_int(buffer_number as int),
    {
        let id = unsigned_text(self.pointer_sign_id as u64);
        let line = signed_text(line_number);
        let buffer = signed_text(buffer_number);
        "sign place ".to_string().concat(id.as_str()).concat(" line=").concat(
            line.as_str(),
        ).concat(" name=VadreDebugPointer buffer=").concat(buffer.as_str())
    }

    /// The keys in the code buffer, with what each does.
    pub fn set_vadre_debugger_keys_for_buffer(&self) -> (r: Vec<(String, String)>)
        ensures
            text_pairs(r@) == debugger_keys(self.instance_id),
    {
        let id = self.id_text();
        let mut r: Vec<(String, String)> = Vec::new();
        let step_in = ":<C-U>execute v:count1 . \" VadreStepIn \\\"".to_string().concat(
            id.as_str(),
        ).concat("\\\"\"<CR>");
        let step_over = ":<C-U>execute v:count1 . \" VadreStepOver \\\"".to_string().concat(
            id.as_str(),
        ).concat("\\\"\"<CR>");
        let go_on = ":VadreContinue ".to_string().concat(id.as_str()).concat("<CR>");
        let interrupt = ":VadreInterrupt ".to_string().concat(id.as_str()).concat("<CR>");
        r.push(("S".to_string(), step_in));
        r.push(("s".to_string(), step_over));
        r.push(("c".to_string(), go_on.clone()));
        r.push(("C".to_string(), go_on));
        r.push(("<C-c>".to_string(), interrupt));
        r.push(
            (
                "<localleader>tt".to_string(),
                "<cmd>lua require('vadre.setup').toggle_single_thread()<CR>".to_string(),
            ),
        );
        r.push(("<localleader>l".to_string(), output_mapping(id.as_str(), "Logs")));
        r.push(("<localleader>s".to_string(), output_mapping(id.as_str(), "CallStack")));
        r.push(("<localleader>v".to_string(), output_mapping(id.as_str(), "Variables")));
        r.push(("<localleader>b".to_string(), output_mapping(id.as_str(), "Breakpoints")));
        r.push(
            (
                ">".to_string(),
                output_mapping(id.as_str(), VadreOutputBufferSelector::Next.display()),
            ),
        );
        r.push(
            (
                "<".to_string(),
                output_mapping(id.as_str(), VadreOutputBufferSelector::Previous.display()),
            ),
        );
        assert(text_pairs(r@) =~= debugger_keys(self.instance_id));
        r
    }
}

/// One thing to do in order to show a session.
#[derive(Clone, Copy, Debug, PartialEq, Eq, Structural)]
pub enum UiAction {
    /// Remember which events Neovim ignores, and have it ignore all.
    IgnoreEvents,
    /// Open a tab page, and split its window in two: the first of them is for the
    /// code, the second for the output.
    OpenWindows,
    /// Go to a window.
    Enter(VadreWindowType),
    /// Name the buffer that a window shows, and set its options.
    TakeBuffer(VadreBufferType),
    /// Map the keys in the buffer for the code.
    MapKeys,
    /// Make a buffer for an output, name it, set its options, and tell the Lua part
    /// of the plugin.
    MakeBuffer(VadreBufferType),
    /// Write the first line of the log.
    LogFirstLine,
    /// Have the session end when the buffer for the code is hidden.
    WatchCode,
    /// Have Neovim ignore the events again that it ignored before.
    RestoreEvents,
    /// Tell everybody that the windows are there.
    Announce,
}

/// The first line of the log.
pub const FIRST_LOG_LINE: &'static str = "Vadre Setup UI";

/// The command that tells everybody that the windows are there.
pub const ANNOUNCE_COMMAND: &'static str = "doautocmd User VadreUICreated";

/// What is to be done to show a session, in this order.
pub open spec fn ui_plan() -> Seq<UiAction> {
    seq![
        UiAction::IgnoreEvents,
        UiAction::OpenWindows,
        UiAction::Enter(VadreWindowType::Code),
        UiAction::TakeBuffer(VadreBufferType::Code),
        UiAction::MapKeys,
        UiAction::TakeBuffer(VadreBufferType::Terminal),
        UiAction::Enter(VadreWindowType::Output),
        UiAction::MakeBuffer(VadreBufferType::Logs),
        UiAction::MakeBuffer(VadreBufferType::CallStack),
        UiAction::MakeBuffer(VadreBufferType::Variables),
        UiAction::MakeBuffer(VadreBufferType::Breakpoints),
        UiAction::Enter(VadreWindowType::Code),
        UiAction::LogFirstLine,
        UiAction::WatchCode,
        UiAction::RestoreEvents,
        UiAction::Announce,
    ]
}

/// What is to be done to show a session.
pub fn create_ui() -> (r: Vec<UiAction>)
    ensures
        r@ == ui_plan(),
{
    let r = vec![
        UiAction::IgnoreEvents,
        UiAction::OpenWindows,
        UiAction::Enter(VadreWindowType::Code),
        UiAction::TakeBuffer(VadreBufferType::Code),
        UiAction::MapKeys,
        UiAction::TakeBuffer(VadreBufferType::Terminal),
        UiAction::Enter(VadreWindowType::Output),
        UiAction::MakeBuffer(VadreBufferType::Logs),
        UiAction::MakeBuffer(VadreBufferType::CallStack),
        UiAction::MakeBuffer(VadreBufferType::Variables),
        UiAction::MakeBuffer(VadreBufferType::Breakpoints),
        UiAction::Enter(VadreWindowType::Code),
        UiAction::LogFirstLine,
        UiAction::WatchCode,
        UiAction::RestoreEvents,
        UiAction::Announce,
    ];
    r
}

/// Every buffer of a session is taken or made.
pub proof fn every_buffer_is_there(t: VadreBufferType)
    ensures
        ui_plan().contains(UiAction::TakeBuffer(t)) || ui_plan().contains(UiAction::MakeBuffer(t)),
{
    let plan = ui_plan();
    match t {
        VadreBufferType::Code => assert(plan[3] == UiAction::TakeBuffer(t)),
        VadreBufferType::Terminal => assert(plan[5] == UiAction::TakeBuffer(t)),
        VadreBufferType::Logs => assert(plan[7] == UiAction::MakeBuffer(t)),
        VadreBufferType::CallStack => assert(plan[8] == UiAction::MakeBuffer(t)),
        VadreBufferType::Variables => assert(plan[9] == UiAction::MakeBuffer(t)),
        VadreBufferType::Breakpoints => assert(plan[10] == UiAction::MakeBuffer(t)),
    }
}

/// The Lua code that has something called when an event meets a buffer. The lines
/// of the options start with a margin.
pub open spec fn autocmd_lua(
    instance_id: usize,
    margin: Seq<char>,
    event: Seq<char>,
    callback: Seq<char>,
    buffer_number: i64,
) -> Seq<char> {
    "vim.api.nvim_create_autocmd(\n                        {\""@ + event
        + "\"},\n                        {\n"@ + margin
        + "                            callback = require(\"vadre.autocmds\")."@ + callback + ",\n"@
        + margin + "                            group = \""@ + ("vadre_"@ + decimal(
        instance_id as nat,
    )) + "\",\n"@ + margin + "                            buffer = "@ + decimal_int(
        buffer_number as int,
    ) + ",\n"@ + margin + "                        }\n                    )"@
}

/// A mapping of a key that shows an output.
fn output_mapping(id: &str, name: &str) -> (r: String)
    ensures
        r@ == output_key(id@, name@),
{
    "<cmd>lua require('vadre.setup').output_window(".to_string().concat(id).concat(", '").concat(
        name,
    ).concat("')<CR>")
}

/// Two sessions never share the name of a buffer.
pub proof fn names_of_sessions_differ(
    a: &NeovimVadreWindow,
    b: &NeovimVadreWindow,
    t: &VadreBufferType,
    post: Option<&str>,
    r: String,
    s: String,
)
    requires
        a.instance_id != b.instance_id,
        call_ensures(NeovimVadreWindow::get_buffer_name, (a, t, post), r),
        call_ensures(NeovimVadreWindow::get_buffer_name, (b, t, post), s),
    ensures
        r@ != s@,
{
    reveal_strlit(" (");
    reveal_strlit(")");
    let p = t.prefix() + " ("@;
    let x = decimal(a.instance_id as nat);
    let y = decimal(b.instance_id as nat);
    crate::number::decimal_is_digits(a.instance_id as nat);
    crate::number::decimal_is_digits(b.instance_id as nat);
    if r@ == s@ {
        let n = p.len() as int;
        assert(")"@[0] == ')');
        assert forall|i: int| 0 <= i < x.len() implies r@[n + i] == x[i] by {}
        assert forall|i: int| 0 <= i < y.len() implies s@[n + i] == y[i] by {}
        assert(r@[n + x.len()] == ')');
        assert(s@[n + y.len()] == ')');
        if x.len() < y.len() {
            assert(crate::number::is_digit(y[x.len() as int]));
            assert(s@[n + x.len()] == y[x.len() as int]);
        } else if y.len() < x.len() {
            assert(crate::number::is_digit(x[y.len() as int]));
            assert(r@[n + y.len()] == x[y.len() as int]);
        } else {
            assert forall|i: int| 0 <= i < x.len() implies x[i] == y[i] by {
                assert(r@[n + i] == s@[n + i]);
            }
            assert(x =~= y);
            crate::number::decimal_is_injective(a.instance_id as nat, b.instance_id as nat);
        }
    }
}

/// What a text asks for is shown: the output after or before the one that is shown, or the
/// one that its first letter names. The window then shows that one.
pub proof fn asked_output_is_shown(
    window: &NeovimVadreWindow,
    text: &str,
    shown: VadreBufferType,
    before: NeovimVadreWindow,
    after: NeovimVadreWindow,
    held: &NeovimVadreWindow,
    r: VadreBufferType,
)
    requires
        window.wf(),
        *window == before,
        vstd::utf8::is_ascii_chars(text@),
        call_ensures(NeovimVadreWindow::requested_output, (window, text), Ok(shown)),
        exists|w: &mut NeovimVadreWindow|
            *w == before && *final(w) == after && #[trigger] call_ensures(
                NeovimVadreWindow::change_output_window,
                (w, shown),
                (),
            ),
        *held == after,
        call_ensures(NeovimVadreWindow::get_output_window_type, (held,), r),
    ensures
        r == shown,
        after.instance_id == before.instance_id,
        text@.len() > 0,
        text@[0] == 'l' || text@[0] == 'L' ==> shown is Logs,
        text@[0] == 's' || text@[0] == 'S' ==> shown is CallStack,
        text@[0] == 'v' || text@[0] == 'V' ==> shown is Variables,
        text@[0] == 'b' || text@[0] == 'B' ==> shown is Breakpoints,
        text@[0] == 'n' || text@[0] == 'N' ==> match before.current_output {
            VadreBufferType::Terminal => shown is Logs,
            VadreBufferType::Logs => shown is CallStack,
            VadreBufferType::CallStack => shown is Variables,
            VadreBufferType::Variables => shown is Breakpoints,
            _ => shown is Terminal,
        },
        text@[0] == 'p' || text@[0] == 'P' ==> match before.current_output {
            VadreBufferType::Terminal => shown is Breakpoints,
            VadreBufferType::Logs => shown is Terminal,
            VadreBufferType::CallStack => shown is Logs,
            VadreBufferType::Variables => shown is CallStack,
            _ => shown is Variables,
        },
{
    let low = crate::text::lowercased(text@);
    if text@.len() > 0 {
        assert(low[0] == crate::text::ascii_lower(text@[0]));
    }
}

/// The pointer of a session has a sign of its own: the next number is taken for it, and no
/// session that comes after gets the same.
pub proof fn pointer_has_its_own_sign(
    id: usize,
    before: SignIds,
    after: SignIds,
    r: NeovimVadreWindow,
)
    requires
        exists|ids: &mut SignIds|
            *ids == before && *final(ids) == after && #[trigger] call_ensures(
                NeovimVadreWindow::new,
                (id, ids),
                r,
            ),
    ensures
        r.instance_id == id,
        r.current_output is Terminal,
        r.pointer_sign_id == before.next,
        before.next < usize::MAX ==> after.next == before.next + 1,
        after.next != r.pointer_sign_id,
{
}

/// The pointer is placed at its line in its buffer, and taken away by the number that it
/// was placed with.
pub proof fn pointer_points_at_its_line(
    window: &NeovimVadreWindow,
    line: i64,
    buffer: i64,
    line_text: String,
    buffer_text: String,
    sign_text: String,
    placed: String,
    taken: String,
)
    requires
        call_ensures(signed_text, (line,), line_text),
        call_ensures(signed_text, (buffer,), buffer_text),
        call_ensures(unsigned_text, (window.pointer_sign_id as u64,), sign_text),
        call_ensures(NeovimVadreWindow::place_pointer_command, (window, line, buffer), placed),
        call_ensures(NeovimVadreWindow::unplace_pointer_command, (window,), taken),
    ensures
        placed@ == "sign place "@ + sign_text@ + " line="@ + line_text@
            + " name=VadreDebugPointer buffer="@ + buffer_text@,
        taken@ == "sign unplace "@ + sign_text@,
{
}

/// What is asked of the editor names the session, the output and the buffer that it is
/// about.
pub proof fn commands_name_what_they_are_about(
    window: &NeovimVadreWindow,
    t: &VadreBufferType,
    buffer: i64,
    name: &str,
    id: String,
    number: String,
    shown: String,
    popup: String,
    group: String,
    program: &str,
    terminal: String,
)
    requires
        !(t is Code),
        call_ensures(unsigned_text, (window.instance_id as u64,), id),
        call_ensures(signed_text, (buffer,), number),
        call_ensures(VadreBufferType::lua_name, (t,), name),
        call_ensures(NeovimVadreWindow::display_output_command, (window, t), shown),
        call_ensures(NeovimVadreWindow::set_popup_command, (window, t, buffer), popup),
        call_ensures(NeovimVadreWindow::augroup_name, (window,), group),
        call_ensures(NeovimVadreWindow::terminal_name, (window, program), terminal),
    ensures
        shown@ == "require('vadre.ui').display_output_window("@ + id@ + ", '"@ + name@ + "')"@,
        popup@ == "require('vadre.ui').set_popup("@ + id@ + ", '"@ + name@ + "', "@ + number@
            + ")"@,
        group@ == "vadre_"@ + id@,
        terminal@ == "Vadre Program ("@ + id@ + ") - "@ + program@,
{
}

/// The Lua code by which an event in a buffer has something called, in a group of events.
pub open spec fn watching(
    event: Seq<char>,
    called: Seq<char>,
    group: Seq<char>,
    buffer: Seq<char>,
    margin: Seq<char>,
) -> Seq<char> {
    "vim.api.nvim_create_autocmd(\n                        {\""@ + event
        + "\"},\n                        {\n"@ + margin
        + "                            callback = require(\"vadre.autocmds\")."@ + called + ",\n"@
        + margin + "                            group = \""@ + group + "\",\n"@ + margin
        + "                            buffer = "@ + buffer + ",\n"@ + margin
        + "                        }\n                    )"@
}

/// The automatic commands of a session are in its group and about the buffer that is given:
/// hiding a buffer ends the session, and entering one tells which output is entered.
pub proof fn events_meet_their_buffer(
    window: &NeovimVadreWindow,
    buffer: i64,
    group: String,
    number: String,
    hidden: String,
    code_hidden: String,
    entered: String,
)
    requires
        call_ensures(signed_text, (buffer,), number),
        call_ensures(NeovimVadreWindow::augroup_name, (window,), group),
        call_ensures(NeovimVadreWindow::on_close_command, (window, buffer), hidden),
        call_ensures(NeovimVadreWindow::on_close_code_command, (window, buffer), code_hidden),
        call_ensures(NeovimVadreWindow::on_enter_command, (window, buffer), entered),
    ensures
        hidden@ == watching("BufHidden"@, "on_close_vadre_window"@, group@, number@, ""@),
        code_hidden@ == watching("BufHidden"@, "on_close_vadre_window"@, group@, number@, " "@),
        entered@ == watching("BufEnter"@, "on_enter_vadre_output_window"@, group@, number@, ""@),
{
}

/// The keys of the code act on the session: each output has a key that asks for it, steps
/// go in and over, and the program is continued and interrupted.
pub proof fn keys_act_on_the_session(
    window: &NeovimVadreWindow,
    id: String,
    r: Vec<(String, String)>,
)
    requires
        call_ensures(unsigned_text, (window.instance_id as u64,), id),
        call_ensures(NeovimVadreWindow::set_vadre_debugger_keys_for_buffer, (window,), r),
    ensures
        r@.len() == 12,
        r@[0].0@ == "S"@ && r@[0].1@ == ":<C-U>execute v:count1 . \" VadreStepIn \\\""@ + id@
            + "\\\"\"<CR>"@,
        r@[1].0@ == "s"@ && r@[1].1@ == ":<C-U>execute v:count1 . \" VadreStepOver \\\""@ + id@
            + "\\\"\"<CR>"@,
        r@[2].0@ == "c"@ && r@[2].1@ == ":VadreContinue "@ + id@ + "<CR>"@,
        r@[3].0@ == "C"@ && r@[3].1@ == r@[2].1@,
        r@[4].0@ == "<C-c>"@ && r@[4].1@ == ":VadreInterrupt "@ + id@ + "<CR>"@,
        r@[5].0@ == "<localleader>tt"@,
        r@[6].0@ == "<localleader>l"@ && r@[6].1@ == output_key(id@, "Logs"@),
        r@[7].0@ == "<localleader>s"@ && r@[7].1@ == output_key(id@, "CallStack"@),
        r@[8].0@ == "<localleader>v"@ && r@[8].1@ == output_key(id@, "Variables"@),
        r@[9].0@ == "<localleader>b"@ && r@[9].1@ == output_key(id@, "Breakpoints"@),
        r@[10].0@ == ">"@ && r@[10].1@ == output_key(id@, "Next"@),
        r@[11].0@ == "<"@ && r@[11].1@ == output_key(id@, "Previous"@),
{
    let v = text_pairs(r@);
    assert(v.len() == 12);
    assert forall|i: int| 0 <= i < 12 implies (#[trigger] v[i]).0 == r@[i].0@ && v[i].1
        == r@[i].1@ by {}
    assert(v[0] == debugger_keys(window.instance_id)[0]);
    assert(v[1].0 == "s"@ && v[2].0 == "c"@ && v[3].0 == "C"@ && v[4].0 == "<C-c>"@ && v[5].0
        == "<localleader>tt"@ && v[6].0 == "<localleader>l"@ && v[7].0 == "<localleader>s"@
        && v[8].0 == "<localleader>v"@ && v[9].0 == "<localleader>b"@ && v[10].0 == ">"@ && v[11].0
        == "<"@);
}

proof fn undisturbed(plan: Seq<UiAction>, output: VadreBufferType)
    requires
        !(output is Code),
        plan.len() == 16,
        plan[0] is IgnoreEvents && plan[1] is OpenWindows && plan[2] is Enter && plan[4] is MapKeys
            && plan[6] is Enter && plan[11] is Enter && plan[12] is LogFirstLine
            && plan[13] is WatchCode && plan[14] is RestoreEvents && plan[15] is Announce,
        plan[3] == UiAction::TakeBuffer(VadreBufferType::Code),
        plan[5] == UiAction::TakeBuffer(VadreBufferType::Terminal),
        plan[7] == UiAction::MakeBuffer(VadreBufferType::Logs),
        plan[8] == UiAction::MakeBuffer(VadreBufferType::CallStack),
        plan[9] == UiAction::MakeBuffer(VadreBufferType::Variables),
        plan[10] == UiAction::MakeBuffer(VadreBufferType::Breakpoints),
    ensures
        forall|i: int|
            0 < i < 14 ==> !(#[trigger] plan[i] is IgnoreEvents) && !(plan[i] is RestoreEvents)
                && !(plan[i] is Announce),
        exists|i: int|
            0 <= i < 16 && (#[trigger] plan[i] == UiAction::MakeBuffer(output) || plan[i]
                == UiAction::TakeBuffer(output)) && (forall|j: int|
                0 <= j < 16 && j != i ==> #[trigger] plan[j] != UiAction::MakeBuffer(output)
                    && plan[j] != UiAction::TakeBuffer(output)),
{
    let at: int = match output {
        VadreBufferType::Terminal => 5,
        VadreBufferType::Logs => 7,
        VadreBufferType::CallStack => 8,
        VadreBufferType::Variables => 9,
        _ => 10,
    };
    assert(plan[at] == UiAction::MakeBuffer(output) || plan[at] == UiAction::TakeBuffer(output));
    assert forall|j: int| 0 <= j < 16 && j != at implies #[trigger] plan[j] != UiAction::MakeBuffer(
        output,
    ) && plan[j] != UiAction::TakeBuffer(output) by {
        assert(j == 0 || j == 1 || j == 2 || j == 3 || j == 4 || j == 5 || j == 6 || j == 7 || j == 8
            || j == 9 || j == 10 || j == 11 || j == 12 || j == 13 || j == 14 || j == 15);
    }
    assert forall|i: int| 0 < i < 14 implies !(#[trigger] plan[i] is IgnoreEvents) && !(
    plan[i] is RestoreEvents) && !(plan[i] is Announce) by {
        assert(i == 1 || i == 2 || i == 3 || i == 4 || i == 5 || i == 6 || i == 7 || i == 8 || i == 9
            || i == 10 || i == 11 || i == 12 || i == 13);
    }
}

/// While the windows of a session are made no event is heeded, and afterwards they are
/// again. Each output gets its buffer once, and the session is announced last.
pub proof fn windows_are_made_undisturbed(r: Vec<UiAction>, output: VadreBufferType)
    requires
        call_ensures(create_ui, (), r),
        !(output is Code),
    ensures
        r@.len() > 3,
        r@.first() is IgnoreEvents,
        r@[r@.len() - 2] is RestoreEvents,
        r@.last() is Announce,
        forall|i: int|
            0 < i < r@.len() - 2 ==> !(#[trigger] r@[i] is IgnoreEvents) && !(r@[i] is RestoreEvents)
                && !(r@[i] is Announce),
        exists|i: int|
            0 <= i < r@.len() && (#[trigger] r@[i] == UiAction::MakeBuffer(output) || r@[i]
                == UiAction::TakeBuffer(output)) && (forall|j: int|
                0 <= j < r@.len() && j != i ==> #[trigger] r@[j] != UiAction::MakeBuffer(output)
                    && r@[j] != UiAction::TakeBuffer(output)),
        exists|i: int, j: int|
            0 <= i < j < r@.len() && #[trigger] r@[i] == UiAction::TakeBuffer(
                VadreBufferType::Code,
            ) && #[trigger] r@[j] is MapKeys,
{
    let plan = ui_plan();
    assert(plan.len() == 16);
    assert(plan[0] is IgnoreEvents && plan[1] is OpenWindows && plan[2] is Enter && plan[4] is MapKeys
        && plan[6] is Enter && plan[11] is Enter && plan[12] is LogFirstLine && plan[13] is WatchCode
        && plan[14] is RestoreEvents && plan[15] is Announce);
    assert(plan[3] == UiAction::TakeBuffer(VadreBufferType::Code));
    assert(plan[5] == UiAction::TakeBuffer(VadreBufferType::Terminal));
    assert(plan[7] == UiAction::MakeBuffer(VadreBufferType::Logs));
    assert(plan[8] == UiAction::MakeBuffer(VadreBufferType::CallStack));
    assert(plan[9] == UiAction::MakeBuffer(VadreBufferType::Variables));
    assert(plan[10] == UiAction::MakeBuffer(VadreBufferType::Breakpoints));
    assert(r@ == plan);
    undisturbed(r@, output);
}

/// A buffer is named by its window, the session and, behind a dash, by what was asked for
/// or else by its type. The buffer for the code has no such end of its own.
pub proof fn buffer_is_named_by_its_type(
    window: &NeovimVadreWindow,
    t: &VadreBufferType,
    id: String,
    front: String,
    name: &str,
    end: &str,
    asked: String,
    r: String,
)
    requires
        call_ensures(unsigned_text, (window.instance_id as u64,), id),
        call_ensures(VadreBufferType::buffer_name_prefix, (t,), front),
        call_ensures(VadreBufferType::buffer_type_name, (t,), name),
        call_ensures(NeovimVadreWindow::get_buffer_name, (window, t, Some(end)), asked),
        call_ensures(NeovimVadreWindow::get_buffer_name, (window, t, None), r),
    ensures
        asked@ == front@ + " ("@ + id@ + ")"@ + " - "@ + end@,
        t is Code ==> r@ == front@ + " ("@ + id@ + ")"@,
        !(t is Code) ==> r@ == front@ + " ("@ + id@ + ")"@ + " - "@ + name@,
        front@ == if t is Code {
            "Vadre Code"@
        } else {
            "Vadre Program"@
        },
{
}

} // verus!
