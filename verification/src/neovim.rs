//! What is shown in Neovim, and how: the windows and buffers, their names and
//! keys, what goes into the log, and the code that is displayed.

use crate::number::{parse_unsigned, read_unsigned};
use crate::text::{after_last, ascii_uppered, lowercased, same, text_after_last, to_ascii_uppercase};
use vstd::prelude::*;

verus! {

/// How grave a line of the log is.
#[derive(Clone, Copy, Debug, PartialEq, Eq, Structural)]
pub enum VadreLogLevel {
    CRITICAL,
    ERROR,
    WARN,
    INFO,
    DEBUG,
}

/// The level that a setting stands for: the name of one of three levels, in any
/// case, or a number; anything else lets everything through.
pub open spec fn threshold(setting: Seq<char>) -> nat {
    let name = ascii_uppered(setting);
    if name == "CRITICAL"@ {
        1
    } else if name == "INFO"@ {
        4
    } else if name == "DEBUG"@ {
        5
    } else {
        match read_unsigned(setting, 255) {
            Ok(n) => n,
            Err(_) => 5,
        }
    }
}

impl VadreLogLevel {
    /// The number of the level, from the gravest on.
    pub open spec fn rank(self) -> nat {
        match self {
            VadreLogLevel::CRITICAL => 1,
            VadreLogLevel::ERROR => 2,
            VadreLogLevel::WARN => 3,
            VadreLogLevel::INFO => 4,
            VadreLogLevel::DEBUG => 5,
        }
    }

    /// The name of the level.
    pub open spec fn name(self) -> Seq<char> {
        match self {
            VadreLogLevel::CRITICAL => "CRITICAL"@,
            VadreLogLevel::ERROR => "ERROR"@,
            VadreLogLevel::WARN => "WARN"@,
            VadreLogLevel::INFO => "INFO"@,
            VadreLogLevel::DEBUG => "DEBUG"@,
        }
    }

    /// The number of the level.
    pub fn log_level(&self) -> (r: u8)
        ensures
            r == self.rank(),
    {
        match self {
            VadreLogLevel::CRITICAL => 1,
            VadreLogLevel::ERROR => 2,
            VadreLogLevel::WARN => 3,
            VadreLogLevel::INFO => 4,
            VadreLogLevel::DEBUG => 5,
        }
    }

    /// The name of the level.
    pub fn display(&self) -> (r: String)
        ensures
            r@ == self.name(),
    {
        match self {
            VadreLogLevel::CRITICAL => "CRITICAL".to_string(),
            VadreLogLevel::ERROR => "ERROR".to_string(),
            VadreLogLevel::WARN => "WARN".to_string(),
            VadreLogLevel::INFO => "INFO".to_string(),
            VadreLogLevel::DEBUG => "DEBUG".to_string(),
        }
    }

    /// Whether a line of this level is logged under a setting.
    pub fn should_log(&self, level: &str) -> (r: bool)
        ensures
            r == (self.rank() <= threshold(level@)),
    {
        let name = to_ascii_uppercase(level);
        let limit: u64 = if same(name.as_str(), "CRITICAL") {
            1
        } else if same(name.as_str(), "INFO") {
            4
        } else if same(name.as_str(), "DEBUG") {
            5
        } else {
            match parse_unsigned(level, 255) {
                Ok(n) => n,
                Err(_) => 5,
            }
        };
        self.log_level() as u64 <= limit
    }
}

/// The two windows of a session.
#[derive(Clone, Copy, Debug, PartialEq, Eq, Structural)]
pub enum VadreWindowType {
    Code,
    Output,
}

impl VadreWindowType {
    /// How the names of the buffers in the window start.
    pub open spec fn prefix(self) -> Seq<char> {
        match self {
            VadreWindowType::Code => "Vadre Code"@,
            VadreWindowType::Output => "Vadre Program"@,
        }
    }

    /// How the names of the buffers in the window start.
    pub fn window_name_prefix(&self) -> (r: &str)
        ensures
            r@ == self.prefix(),
    {
        match self {
            VadreWindowType::Code => "Vadre Code",
            VadreWindowType::Output => "Vadre Program",
        }
    }
}

/// The buffers of a session.
#[derive(Clone, Copy, Debug, PartialEq, Eq, Structural)]
pub enum VadreBufferType {
    Code,
    Logs,
    Terminal,
    CallStack,
    Variables,
    Breakpoints,
}

/// Which output is asked for.
#[derive(Clone, Copy, Debug, PartialEq, Eq, Structural)]
pub enum VadreOutputBufferSelector {
    Next,
    Previous,
    Logs,
    CallStack,
    Variables,
    Breakpoints,
}

/// The buffer of that name.
pub open spec fn buffer_named(s: Seq<char>) -> Option<VadreBufferType> {
    if s == "Code"@ {
        Some(VadreBufferType::Code)
    } else if s == "Logs"@ {
        Some(VadreBufferType::Logs)
    } else if s == "Terminal"@ {
        Some(VadreBufferType::Terminal)
    } else if s == "CallStack"@ {
        Some(VadreBufferType::CallStack)
    } else if s == "Variables"@ {
        Some(VadreBufferType::Variables)
    } else if s == "Breakpoints"@ {
        Some(VadreBufferType::Breakpoints)
    } else {
        None
    }
}

/// The buffers that are gone through by their names, in order.
pub open spec fn buffer_order() -> Seq<VadreBufferType> {
    seq![
        VadreBufferType::Logs,
        VadreBufferType::CallStack,
        VadreBufferType::Variables,
        VadreBufferType::Breakpoints,
    ]
}

/// The place of a buffer among those that are gone through by their names.
pub open spec fn buffer_rank(t: VadreBufferType) -> Option<int> {
    match t {
        VadreBufferType::Logs => Some(0),
        VadreBufferType::CallStack => Some(1),
        VadreBufferType::Variables => Some(2),
        VadreBufferType::Breakpoints => Some(3),
        _ => None,
    }
}

/// The place that is selected, from the one where one is.
pub open spec fn selected_rank(from: int, s: VadreOutputBufferSelector) -> int {
    match s {
        VadreOutputBufferSelector::Next => (from + 1) % 4,
        VadreOutputBufferSelector::Previous => (from + 3) % 4,
        VadreOutputBufferSelector::Logs => 0,
        VadreOutputBufferSelector::CallStack => 1,
        VadreOutputBufferSelector::Variables => 2,
        VadreOutputBufferSelector::Breakpoints => 3,
    }
}

/// The output after this one.
pub open spec fn next_of(t: VadreBufferType) -> VadreBufferType {
    match t {
        VadreBufferType::Terminal => VadreBufferType::Logs,
        VadreBufferType::Logs => VadreBufferType::CallStack,
        VadreBufferType::CallStack => VadreBufferType::Variables,
        VadreBufferType::Variables => VadreBufferType::Breakpoints,
        VadreBufferType::Breakpoints => VadreBufferType::Terminal,
        VadreBufferType::Code => VadreBufferType::Code,
    }
}

/// The output before this one.
pub open spec fn previous_of(t: VadreBufferType) -> VadreBufferType {
    match t {
        VadreBufferType::Terminal => VadreBufferType::Breakpoints,
        VadreBufferType::Logs => VadreBufferType::Terminal,
        VadreBufferType::CallStack => VadreBufferType::Logs,
        VadreBufferType::Variables => VadreBufferType::CallStack,
        VadreBufferType::Breakpoints => VadreBufferType::Variables,
        VadreBufferType::Code => VadreBufferType::Code,
    }
}

impl VadreBufferType {
    /// The window that a buffer is shown in.
    pub fn window_type(&self) -> (r: VadreWindowType)
        ensures
            r == (if *self == VadreBufferType::Code {
                VadreWindowType::Code
            } else {
                VadreWindowType::Output
            }),
    {
        match self {
            VadreBufferType::Code => VadreWindowType::Code,
            _ => VadreWindowType::Output,
        }
    }

    /// How the name of the buffer starts.
    pub open spec fn prefix(self) -> Seq<char> {
        if self == VadreBufferType::Code {
            VadreWindowType::Code.prefix()
        } else {
            VadreWindowType::Output.prefix()
        }
    }

    /// How the name of the buffer starts.
    pub fn buffer_name_prefix(&self) -> (r: String)
        ensures
            r@ == self.prefix(),
    {
        self.window_type().window_name_prefix().to_string()
    }

    /// The name of the type.
    pub open spec fn name(self) -> Seq<char> {
        match self {
            VadreBufferType::Code => "Code"@,
            VadreBufferType::Logs => "Logs"@,
            VadreBufferType::Terminal => "Terminal"@,
            VadreBufferType::CallStack => "CallStack"@,
            VadreBufferType::Variables => "Variables"@,
            VadreBufferType::Breakpoints => "Breakpoints"@,
        }
    }

    /// The name of the type.
    pub fn buffer_type_name(&self) -> (r: &str)
        ensures
            r@ == self.name(),
    {
        match self {
            VadreBufferType::Code => "Code",
            VadreBufferType::Logs => "Logs",
            VadreBufferType::Terminal => "Terminal",
            VadreBufferType::CallStack => "CallStack",
            VadreBufferType::Variables => "Variables",
            VadreBufferType::Breakpoints => "Breakpoints",
        }
    }

    /// How the name of the buffer ends, if nothing else is given.
    pub fn buffer_post_display(&self) -> (r: Option<&str>)
        ensures
            match r {
                Some(s) => *self != VadreBufferType::Code && s@ == self.name(),
                None => *self == VadreBufferType::Code,
            },
    {
        match self {
            VadreBufferType::Code => None,
            _ => Some(self.buffer_type_name()),
        }
    }

    /// Whether long lines are wrapped.
    pub fn buffer_should_wrap(&self) -> (r: bool)
        ensures
            r == (*self != VadreBufferType::CallStack && *self != VadreBufferType::Variables),
    {
        match self {
            VadreBufferType::CallStack => false,
            VadreBufferType::Variables => false,
            _ => true,
        }
    }

    /// The buffer of that name, which there must be.
    pub fn get_buffer_type_from_str(s: &str) -> (r: VadreBufferType)
        requires
            buffer_named(s@) is Some,
        ensures
            buffer_named(s@) == Some(r),
    {
        if same(s, "Code") {
            VadreBufferType::Code
        } else if same(s, "Logs") {
            VadreBufferType::Logs
        } else if same(s, "Terminal") {
            VadreBufferType::Terminal
        } else if same(s, "CallStack") {
            VadreBufferType::CallStack
        } else if same(s, "Variables") {
            VadreBufferType::Variables
        } else {
            VadreBufferType::Breakpoints
        }
    }

    /// The buffer that is selected, from the one whose name ends in the name of
    /// its type. From a buffer that is not gone through there is none, and the
    /// error says so.
    pub fn get_output_buffer(current_buf_name: &str, type_: VadreOutputBufferSelector) -> (r: Result<
        VadreBufferType,
        String,
    >)
        requires
            buffer_named(after_last(current_buf_name@, " - "@)) is Some,
        ensures
            ({
                let name = after_last(current_buf_name@, " - "@);
                let from = buffer_rank(buffer_named(name)->0);
                match r {
                    Ok(t) => from is Some && t == buffer_order()[selected_rank(from->0, type_)],
                    Err(e) => from is None && e@ == "Can't find buffer for "@ + name,
                }
            }),
    {
        let name = text_after_last(current_buf_name, " - ");
        let index: u8 = match VadreBufferType::get_buffer_type_from_str(name.as_str()) {
            VadreBufferType::Logs => 0,
            VadreBufferType::CallStack => 1,
            VadreBufferType::Variables => 2,
            VadreBufferType::Breakpoints => 3,
            _ => {
                return Err("Can't find buffer for ".to_string().concat(name.as_str()));
            },
        };
        let selected: u8 = match type_ {
            VadreOutputBufferSelector::Next => (index + 1) % 4,
            VadreOutputBufferSelector::Previous => if index == 0 {
                3
            } else {
                index - 1
            },
            VadreOutputBufferSelector::Logs => 0,
            VadreOutputBufferSelector::CallStack => 1,
            VadreOutputBufferSelector::Variables => 2,
            VadreOutputBufferSelector::Breakpoints => 3,
        };
        assert(selected as int == selected_rank(index as int, type_));
        if selected == 0 {
            Ok(VadreBufferType::Logs)
        } else if selected == 1 {
            Ok(VadreBufferType::CallStack)
        } else if selected == 2 {
            Ok(VadreBufferType::Variables)
        } else {
            Ok(VadreBufferType::Breakpoints)
        }
    }

    /// The output after this one.
    pub fn next_output_type(&self) -> (r: VadreBufferType)
        requires
            *self != VadreBufferType::Code,
        ensures
            r == next_of(*self),
    {
        match self {
            VadreBufferType::Terminal => VadreBufferType::Logs,
            VadreBufferType::Logs => VadreBufferType::CallStack,
            VadreBufferType::CallStack => VadreBufferType::Variables,
            VadreBufferType::Variables => VadreBufferType::Breakpoints,
            VadreBufferType::Breakpoints => VadreBufferType::Terminal,
            VadreBufferType::Code => VadreBufferType::Code,
        }
    }

    /// The output before this one.
    pub fn previous_output_type(&self) -> (r: VadreBufferType)
        requires
            *self != VadreBufferType::Code,
        ensures
            r == previous_of(*self),
    {
        match self {
            VadreBufferType::Terminal => VadreBufferType::Breakpoints,
            VadreBufferType::Logs => VadreBufferType::Terminal,
            VadreBufferType::CallStack => VadreBufferType::Logs,
            VadreBufferType::Variables => VadreBufferType::CallStack,
            VadreBufferType::Breakpoints => VadreBufferType::Variables,
            VadreBufferType::Code => VadreBufferType::Code,
        }
    }

    /// The name of an output in the Lua part of the plugin.
    pub open spec fn lua(self) -> Seq<char> {
        match self {
            VadreBufferType::Terminal => "terminal"@,
            VadreBufferType::Logs => "logs"@,
            VadreBufferType::CallStack => "callstack"@,
            VadreBufferType::Variables => "variables"@,
            VadreBufferType::Breakpoints => "breakpoints"@,
            VadreBufferType::Code => "code"@,
        }
    }

    /// The name of an output in the Lua part of the plugin.
    pub fn lua_name(&self) -> (r: &str)
        requires
            *self != VadreBufferType::Code,
        ensures
            r@ == self.lua(),
    {
        match self {
            VadreBufferType::Terminal => "terminal",
            VadreBufferType::Logs => "logs",
            VadreBufferType::CallStack => "callstack",
            VadreBufferType::Variables => "variables",
            VadreBufferType::Breakpoints => "breakpoints",
            VadreBufferType::Code => "code",
        }
    }
}

/// Going to the next output and back to the previous one, or the other way
/// round, leads to where one was, and five steps on lead all the way round.
pub proof fn outputs_are_a_cycle(t: VadreBufferType)
    requires
        t != VadreBufferType::Code,
    ensures
        next_of(t) != VadreBufferType::Code,
        previous_of(t) != VadreBufferType::Code,
        previous_of(next_of(t)) == t,
        next_of(previous_of(t)) == t,
        next_of(next_of(next_of(next_of(next_of(t))))) == t,
{
}

/// Selecting the next buffer and then the previous one leads to where one was.
pub proof fn selecting_next_then_previous(from: int)
    requires
        0 <= from < 4,
    ensures
        selected_rank(
            selected_rank(from, VadreOutputBufferSelector::Next),
            VadreOutputBufferSelector::Previous,
        ) == from,
{
}

/// A buffer whose name ends in the name of its type is found by that name.
pub proof fn name_names_the_type(t: VadreBufferType)
    ensures
        buffer_named(t.name()) == Some(t),
{
    reveal_strlit("Code");
    reveal_strlit("Logs");
    reveal_strlit("Terminal");
    reveal_strlit("CallStack");
    reveal_strlit("Variables");
    reveal_strlit("Breakpoints");
    assert("Code"@[0] == 'C' && "Logs"@[0] == 'L' && "Terminal"@[0] == 'T' && "CallStack"@[0]
        == 'C' && "Variables"@[0] == 'V' && "Breakpoints"@[0] == 'B');
    assert("Code"@.len() == 4 && "CallStack"@.len() == 9);
}

/// Why a text selects no output.
#[derive(Clone, Copy, Debug, PartialEq, Eq, Structural)]
pub enum SelectorError {
    Empty,
    Unknown,
}

/// The output that a text selects: its first letter decides, in any case.
pub open spec fn selector_for(s: Seq<char>) -> Result<VadreOutputBufferSelector, SelectorError> {
    let low = lowercased(s);
    if low.len() == 0 {
        Err(SelectorError::Empty)
    } else if low[0] == 'n' {
        Ok(VadreOutputBufferSelector::Next)
    } else if low[0] == 'p' {
        Ok(VadreOutputBufferSelector::Previous)
    } else if low[0] == 'l' {
        Ok(VadreOutputBufferSelector::Logs)
    } else if low[0] == 's' {
        Ok(VadreOutputBufferSelector::CallStack)
    } else if low[0] == 'v' {
        Ok(VadreOutputBufferSelector::Variables)
    } else if low[0] == 'b' {
        Ok(VadreOutputBufferSelector::Breakpoints)
    } else {
        Err(SelectorError::Unknown)
    }
}

impl SelectorError {
    /// The error in words, where it is about this text.
    pub fn message(&self, type_: &str) -> (r: String)
        ensures
            r@ == (match *self {
                SelectorError::Empty => "Empty type"@,
                SelectorError::Unknown => "Can't understand type "@ + type_@,
            }),
    {
        match self {
            SelectorError::Empty => "Empty type".to_string(),
            SelectorError::Unknown => "Can't understand type ".to_string().concat(type_),
        }
    }
}

impl VadreOutputBufferSelector {
    /// The output that a text selects.
    pub fn get_type(type_: &str) -> (r: Result<VadreOutputBufferSelector, SelectorError>)
        ensures
            r == selector_for(type_@),
    {
        let low = type_.to_lowercase();
        if low.as_str().is_empty() {
            return Err(SelectorError::Empty);
        }
        let c = low.as_str().get_char(0);
        if c == 'n' {
            Ok(VadreOutputBufferSelector::Next)
        } else if c == 'p' {
            Ok(VadreOutputBufferSelector::Previous)
        } else if c == 'l' {
            Ok(VadreOutputBufferSelector::Logs)
        } else if c == 's' {
            Ok(VadreOutputBufferSelector::CallStack)
        } else if c == 'v' {
            Ok(VadreOutputBufferSelector::Variables)
        } else if c == 'b' {
            Ok(VadreOutputBufferSelector::Breakpoints)
        } else {
            Err(SelectorError::Unknown)
        }
    }

    /// The name of the selector.
    pub open spec fn name(self) -> Seq<char> {
        match self {
            VadreOutputBufferSelector::Next => "Next"@,
            VadreOutputBufferSelector::Previous => "Previous"@,
            VadreOutputBufferSelector::Logs => "Logs"@,
            VadreOutputBufferSelector::CallStack => "CallStack"@,
            VadreOutputBufferSelector::Variables => "Variables"@,
            VadreOutputBufferSelector::Breakpoints => "Breakpoints"@,
        }
    }

    /// The name of the selector.
    pub fn display(&self) -> (r: &str)
        ensures
            r@ == self.name(),
    {
        match self {
            VadreOutputBufferSelector::Next => "Next",
            VadreOutputBufferSelector::Previous => "Previous",
            VadreOutputBufferSelector::Logs => "Logs",
            VadreOutputBufferSelector::CallStack => "CallStack",
            VadreOutputBufferSelector::Variables => "Variables",
            VadreOutputBufferSelector::Breakpoints => "Breakpoints",
        }
    }
}

/// The name of a selector selects it. The call stack alone goes by another
/// letter than that of its name.
pub proof fn selector_name_selects(s: VadreOutputBufferSelector)
    requires
        s != VadreOutputBufferSelector::CallStack,
    ensures
        selector_for(s.name()) == Ok::<VadreOutputBufferSelector, SelectorError>(s),
{
    reveal_strlit("Next");
    reveal_strlit("Previous");
    reveal_strlit("Logs");
    reveal_strlit("Variables");
    reveal_strlit("Breakpoints");
    let name = s.name();
    assert(vstd::utf8::is_ascii_chars(name));
    assert(lowercased(name)[0] == crate::text::ascii_lower(name[0]));
}

/// Where a line is logged, a graver one is too. Under a setting that is a number, exactly
/// the levels up to that number are logged, and under the name of a level those up to it.
pub proof fn graver_lines_are_logged(
    level: &VadreLogLevel,
    graver: &VadreLogLevel,
    setting: &str,
    n: u8,
    rank: u8,
    graver_rank: u8,
    logged: bool,
    graver_logged: bool,
)
    requires
        call_ensures(VadreLogLevel::log_level, (level,), rank),
        call_ensures(VadreLogLevel::log_level, (graver,), graver_rank),
        graver_rank <= rank,
        call_ensures(VadreLogLevel::should_log, (level, setting), logged),
        call_ensures(VadreLogLevel::should_log, (graver, setting), graver_logged),
    ensures
        logged ==> graver_logged,
        setting@ == crate::number::decimal(n as nat) ==> logged == (rank <= n),
        setting@ == "CRITICAL"@ ==> logged == (level is CRITICAL),
        setting@ == "INFO"@ ==> logged == !(level is DEBUG),
        setting@ == "DEBUG"@ ==> logged,
{
    reveal_strlit("CRITICAL");
    reveal_strlit("INFO");
    reveal_strlit("DEBUG");
    let name = ascii_uppered(setting@);
    if setting@ == crate::number::decimal(n as nat) {
        crate::number::decimal_is_digits(n as nat);
        crate::number::decimal_read_back(n as nat, 255);
        assert(setting@.len() > 0);
        assert(crate::number::is_digit(setting@[0]));
        assert(name[0] == setting@[0]);
        assert("CRITICAL"@[0] == 'C' && "INFO"@[0] == 'I' && "DEBUG"@[0] == 'D');
    }
    if setting@ == "CRITICAL"@ {
        assert(name =~= "CRITICAL"@);
    }
    if setting@ == "INFO"@ {
        assert(name =~= "INFO"@);
        assert("INFO"@.len() != "CRITICAL"@.len());
    }
    if setting@ == "DEBUG"@ {
        assert(name =~= "DEBUG"@);
        assert("DEBUG"@.len() != "CRITICAL"@.len() && "DEBUG"@.len() != "INFO"@.len());
    }
}

/// The levels are ranked from the gravest on, one after the other.
pub proof fn levels_are_ranked(level: &VadreLogLevel, r: u8)
    requires
        call_ensures(VadreLogLevel::log_level, (level,), r),
    ensures
        r == (match *level {
            VadreLogLevel::CRITICAL => 1u8,
            VadreLogLevel::ERROR => 2u8,
            VadreLogLevel::WARN => 3u8,
            VadreLogLevel::INFO => 4u8,
            VadreLogLevel::DEBUG => 5u8,
        }),
{
}

/// The outputs follow one another: after the terminal the log, the call stack, the
/// variables and the breakpoints, and then the terminal again. What comes before is what
/// this one comes after.
pub proof fn outputs_follow_one_another(
    t: &VadreBufferType,
    u: &VadreBufferType,
    next: VadreBufferType,
    previous: VadreBufferType,
)
    requires
        !(t is Code),
        call_ensures(VadreBufferType::next_output_type, (t,), next),
        *u == next,
        call_ensures(VadreBufferType::previous_output_type, (u,), previous),
    ensures
        previous == *t,
        t is Terminal ==> next is Logs,
        t is Logs ==> next is CallStack,
        t is CallStack ==> next is Variables,
        t is Variables ==> next is Breakpoints,
        t is Breakpoints ==> next is Terminal,
{
}

/// From a buffer that is gone through by its name, the next and the previous one are those
/// beside it, all the way round, and every other selection is the buffer that it names.
pub proof fn selection_from_a_buffer(
    name: &str,
    t: VadreBufferType,
    s: VadreOutputBufferSelector,
    r: Result<VadreBufferType, String>,
)
    requires
        after_last(name@, " - "@) == t.name(),
        call_ensures(VadreBufferType::get_output_buffer, (name, s), r),
    ensures
        r is Err <==> t is Code || t is Terminal,
        r matches Ok(to) ==> match s {
            VadreOutputBufferSelector::Next => match t {
                VadreBufferType::Logs => to is CallStack,
                VadreBufferType::CallStack => to is Variables,
                VadreBufferType::Variables => to is Breakpoints,
                _ => to is Logs,
            },
            VadreOutputBufferSelector::Previous => match t {
                VadreBufferType::Logs => to is Breakpoints,
                VadreBufferType::CallStack => to is Logs,
                VadreBufferType::Variables => to is CallStack,
                _ => to is Variables,
            },
            VadreOutputBufferSelector::Logs => to is Logs,
            VadreOutputBufferSelector::CallStack => to is CallStack,
            VadreOutputBufferSelector::Variables => to is Variables,
            VadreOutputBufferSelector::Breakpoints => to is Breakpoints,
        },
{
    name_names_the_type(t);
}

/// A buffer is known again by the name of its type, and its window is the one for the code
/// exactly where it holds the code. Only what stands in columns is not wrapped.
pub proof fn buffer_is_known_by_its_name(
    t: &VadreBufferType,
    name: &str,
    known: VadreBufferType,
    window: VadreWindowType,
    wraps: bool,
    end: Option<&str>,
)
    requires
        call_ensures(VadreBufferType::buffer_type_name, (t,), name),
        call_ensures(VadreBufferType::get_buffer_type_from_str, (name,), known),
        call_ensures(VadreBufferType::window_type, (t,), window),
        call_ensures(VadreBufferType::buffer_should_wrap, (t,), wraps),
        call_ensures(VadreBufferType::buffer_post_display, (t,), end),
    ensures
        known == *t,
        window is Code <==> t is Code,
        wraps == !(t is CallStack || t is Variables),
        end is None <==> t is Code,
        end matches Some(e) ==> e@ == name@,
{
    name_names_the_type(*t);
}

/// What is asked for is told by the first letter, in capitals or small letters: the next
/// and the previous output, or one by its name. Nothing else is understood.
pub proof fn first_letter_selects(
    text: &str,
    r: Result<VadreOutputBufferSelector, SelectorError>,
)
    requires
        vstd::utf8::is_ascii_chars(text@),
        call_ensures(VadreOutputBufferSelector::get_type, (text,), r),
    ensures
        text@.len() == 0 <==> r == Err::<VadreOutputBufferSelector, SelectorError>(
            SelectorError::Empty,
        ),
        r matches Ok(s) ==> match s {
            VadreOutputBufferSelector::Next => text@[0] == 'n' || text@[0] == 'N',
            VadreOutputBufferSelector::Previous => text@[0] == 'p' || text@[0] == 'P',
            VadreOutputBufferSelector::Logs => text@[0] == 'l' || text@[0] == 'L',
            VadreOutputBufferSelector::CallStack => text@[0] == 's' || text@[0] == 'S',
            VadreOutputBufferSelector::Variables => text@[0] == 'v' || text@[0] == 'V',
            VadreOutputBufferSelector::Breakpoints => text@[0] == 'b' || text@[0] == 'B',
        },
        text@.len() > 0 && (text@[0] == 'n' || text@[0] == 'N' || text@[0] == 'p' || text@[0] == 'P'
            || text@[0] == 'l' || text@[0] == 'L' || text@[0] == 's' || text@[0] == 'S' || text@[0]
            == 'v' || text@[0] == 'V' || text@[0] == 'b' || text@[0] == 'B') ==> r is Ok,
{
    let low = crate::text::lowercased(text@);
    if text@.len() > 0 {
        assert(low[0] == crate::text::ascii_lower(text@[0]));
    }
}

} // verus!
