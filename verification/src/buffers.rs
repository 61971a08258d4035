//! What is written into the buffers of a session: lines of the log, code, and
//! the signs that mark breakpoints.

use crate::neovim::{VadreBufferType, VadreLogLevel};
use crate::number::{decimal, decimal_int, signed_text, unsigned_text};
use crate::text::{contains_text, has_part, has_suffix, same, split, split_text, texts};
use crate::value::NvimValue;
use crate::whitespace::{trim_end, trimmed_end};
use vstd::prelude::*;

verus! {

/// How the time stands in front of a line of the log.
pub const LOG_TIME_FORMAT: &'static str = "%a %H:%M:%S%.6f";

/// A line of the log.
pub open spec fn log_line(time: Seq<char>, level: VadreLogLevel, text: Seq<char>) -> Seq<char> {
    time + " ["@ + level.name() + "] "@ + text
}

/// The lines of the log for a message: one for each line of the message.
pub fn log_lines(time: &str, level: VadreLogLevel, msg: &str) -> (r: Vec<String>)
    ensures
        texts(r@) == split(msg@, "\n"@).map_values(|t: Seq<char>| log_line(time@, level, t)),
{
    proof {
        reveal_strlit("\n");
    }
    let parts = split_text(msg, "\n");
    let name = level.display();
    let ghost f = |t: Seq<char>| log_line(time@, level, t);
    let mut r: Vec<String> = Vec::new();
    let mut i: usize = 0;
    assert(texts(r@) =~= texts(parts@).take(0).map_values(f));
    while i < parts.len()
        invariant
            i <= parts@.len(),
            name@ == level.name(),
            f == (|t: Seq<char>| log_line(time@, level, t)),
            texts(r@) == texts(parts@).take(i as int).map_values(f),
        decreases parts@.len() - i,
    {
        let ghost before = texts(r@);
        r.push(
            time.to_string().concat(" [").concat(name.as_str()).concat("] ").concat(
                parts[i].as_str(),
            ),
        );
        assert(texts(r@) =~= before.push(f(parts@[i as int]@)));
        assert(texts(parts@).take(i + 1).map_values(f) =~= texts(parts@).take(i as int).map_values(
            f,
        ).push(f(parts@[i as int]@)));
        i = i + 1;
    }
    assert(texts(parts@).take(i as int) =~= texts(parts@));
    r
}

/// The setting for the log that a variable of Neovim holds. Where it is neither
/// a number nor a text, or not set, the setting is `INFO`. There is none where
/// it is a text that is not UTF-8.
pub open spec fn log_setting_of(variable: Option<NvimValue>) -> Option<Seq<char>> {
    match variable {
        Some(NvimValue::Unsigned(n)) => Some(decimal(n as nat)),
        Some(NvimValue::Negative(n)) => Some(decimal_int(n as int)),
        Some(NvimValue::Str(s)) => Some(s@),
        Some(NvimValue::BrokenStr) => None,
        _ => Some("INFO"@),
    }
}

/// The setting for the log that a variable of Neovim holds.
pub fn log_setting(variable: &Option<NvimValue>) -> (r: Option<String>)
    ensures
        match r {
            Some(s) => log_setting_of(*variable) == Some(s@),
            None => log_setting_of(*variable) is None,
        },
{
    match variable {
        Some(NvimValue::Unsigned(n)) => Some(unsigned_text(*n)),
        Some(NvimValue::Negative(n)) => Some(signed_text(*n)),
        Some(NvimValue::Str(s)) => Some(s.clone()),
        Some(NvimValue::BrokenStr) => None,
        _ => Some("INFO".to_string()),
    }
}

/// Where the cursor of the log window goes after a message is written: on the
/// line after the old end, if it stood at the end of more than one line.
pub fn log_cursor(line_count: i64, cursor_line: i64) -> (r: Option<i64>)
    requires
        line_count < i64::MAX,
    ensures
        r == (if cursor_line >= line_count && line_count > 1 {
            Some((line_count + 1) as i64)
        } else {
            None
        }),
{
    if cursor_line >= line_count && line_count > 1 {
        Some(line_count + 1)
    } else {
        None
    }
}

/// The lines of a buffer that are replaced by what is written. A buffer with
/// nothing but one empty line is filled; else what is asked for is replaced,
/// where nought and nought stand for the whole buffer.
pub fn write_range(start_line: i64, end_line: i64, line_count: i64, only_empty_line: bool) -> (r: (
    i64,
    i64,
))
    ensures
        r == (if line_count == 1 && only_empty_line {
            (0i64, 1i64)
        } else if start_line == 0 && end_line == 0 {
            (start_line, line_count)
        } else {
            (start_line, end_line)
        }),
{
    if line_count == 1 && only_empty_line {
        (0, 1)
    } else if start_line == 0 && end_line == 0 {
        (start_line, line_count)
    } else {
        (start_line, end_line)
    }
}

/// Whether the code buffer has to be filled anew: it shows something else, or it
/// is asked for.
pub fn code_is_replaced(old_buffer_name: &str, buffer_name: &str, force_replace: bool) -> (r: bool)
    ensures
        r == (!buffer_name@.is_suffix_of(old_buffer_name@) || force_replace),
{
    !has_suffix(old_buffer_name, buffer_name) || force_replace
}

/// The lines of a text without the whitespace at their ends.
pub open spec fn code_lines(content: Seq<char>, line_break: Seq<char>) -> Seq<Seq<char>> {
    split(content, line_break).map_values(|t: Seq<char>| trimmed_end(t))
}

/// The lines of a text, without the whitespace at their ends.
fn split_code(content: &str, line_break: &str) -> (r: Vec<String>)
    requires
        line_break@.len() > 0,
    ensures
        texts(r@) == code_lines(content@, line_break@),
{
    let parts = split_text(content, line_break);
    let ghost f = |t: Seq<char>| trimmed_end(t);
    let mut r: Vec<String> = Vec::new();
    let mut i: usize = 0;
    assert(texts(r@) =~= texts(parts@).take(0).map_values(f));
    while i < parts.len()
        invariant
            i <= parts@.len(),
            f == (|t: Seq<char>| trimmed_end(t)),
            texts(r@) == texts(parts@).take(i as int).map_values(f),
        decreases parts@.len() - i,
    {
        let ghost before = texts(r@);
        r.push(trim_end(parts[i].as_str()));
        assert(texts(r@) =~= before.push(f(parts@[i as int]@)));
        assert(texts(parts@).take(i + 1).map_values(f) =~= texts(parts@).take(i as int).map_values(
            f,
        ).push(f(parts@[i as int]@)));
        i = i + 1;
    }
    assert(texts(parts@).take(i as int) =~= texts(parts@));
    r
}

/// The lines to show of a file.
pub fn file_code(content: &str) -> (r: Vec<String>)
    ensures
        texts(r@) == code_lines(content@, "\n"@),
{
    proof {
        reveal_strlit("\n");
    }
    split_code(content, "\n")
}

/// The lines to show of code that the adapter sent. It is split at the line
/// breaks of Windows if it has one.
pub fn sent_code(content: &str) -> (r: Vec<String>)
    ensures
        texts(r@) == code_lines(
            content@,
            if contains_text(content@, "\r\n"@) {
                "\r\n"@
            } else {
                "\n"@
            },
        ),
{
    proof {
        reveal_strlit("\n");
        reveal_strlit("\r\n");
    }
    if has_part(content, "\r\n") {
        split_code(content, "\r\n")
    } else {
        split_code(content, "\n")
    }
}

/// The type of a file for Neovim, by the extension of its name.
pub open spec fn file_type_for(extension: Seq<char>) -> Option<Seq<char>> {
    if extension == "rs"@ {
        Some("rust"@)
    } else if extension == "c"@ {
        Some("c"@)
    } else if extension == "js"@ {
        Some("javascript"@)
    } else if extension == "ts"@ {
        Some("typescript"@)
    } else if extension == "go"@ {
        Some("go"@)
    } else if extension == "cpp"@ {
        Some("cpp"@)
    } else if extension == "py"@ {
        Some("python"@)
    } else {
        None
    }
}

/// The type of a file for Neovim.
pub fn file_type(extension: &str) -> (r: Option<&'static str>)
    ensures
        match r {
            Some(t) => file_type_for(extension@) == Some(t@),
            None => file_type_for(extension@) is None,
        },
{
    if same(extension, "rs") {
        Some("rust")
    } else if same(extension, "c") {
        Some("c")
    } else if same(extension, "js") {
        Some("javascript")
    } else if same(extension, "ts") {
        Some("typescript")
    } else if same(extension, "go") {
        Some("go")
    } else if same(extension, "cpp") {
        Some("cpp")
    } else if same(extension, "py") {
        Some("python")
    } else {
        None
    }
}

/// The command that sets the type of the file in the current buffer.
pub fn set_file_type_command(file_type: &str) -> (r: String)
    ensures
        r@ == "set filetype="@ + file_type@,
{
    "set filetype=".to_string().concat(file_type)
}

/// The command that runs something in a terminal.
pub fn terminal_command(command: &str) -> (r: String)
    ensures
        r@ == "terminal! "@ + command@,
{
    "terminal! ".to_string().concat(command)
}

/// What an option of Neovim is set to.
#[derive(Debug)]
pub enum OptionValue {
    Flag(bool),
    Text(String),
    /// The value at this position of what Neovim answered.
    Given(usize),
}

/// What an option of Neovim is set to.
#[verifier::ext_equal]
pub enum OptionView {
    Flag(bool),
    Text(Seq<char>),
    Given(int),
}

impl OptionValue {
    /// The value as mathematics.
    pub open spec fn view(&self) -> OptionView {
        match self {
            OptionValue::Flag(b) => OptionView::Flag(*b),
            OptionValue::Text(t) => OptionView::Text(t@),
            OptionValue::Given(i) => OptionView::Given(*i as int),
        }
    }
}

/// Options with their values, as mathematics.
pub open spec fn options_view(list: Seq<(String, OptionValue)>) -> Seq<(Seq<char>, OptionView)> {
    list.map_values(|p: (String, OptionValue)| (p.0@, p.1.view()))
}

/// The options of a buffer.
pub open spec fn buffer_option_list(t: VadreBufferType) -> Seq<(Seq<char>, OptionView)> {
    seq![
        ("swapfile"@, OptionView::Flag(false)),
        ("buftype"@, OptionView::Text("nofile"@)),
        ("filetype"@, OptionView::Text(t.name())),
        ("buflisted"@, OptionView::Flag(false)),
        ("modifiable"@, OptionView::Flag(false)),
    ]
}

/// The options of a buffer, in the order in which they are set.
pub fn set_vadre_buffer_options(buffer_type: &VadreBufferType) -> (r: Vec<(String, OptionValue)>)
    ensures
        options_view(r@) == buffer_option_list(*buffer_type),
{
    let mut r: Vec<(String, OptionValue)> = Vec::new();
    r.push(("swapfile".to_string(), OptionValue::Flag(false)));
    r.push(("buftype".to_string(), OptionValue::Text("nofile".to_string())));
    r.push(
        ("filetype".to_string(), OptionValue::Text(buffer_type.buffer_type_name().to_string())),
    );
    r.push(("buflisted".to_string(), OptionValue::Flag(false)));
    r.push(("modifiable".to_string(), OptionValue::Flag(false)));
    assert(options_view(r@) =~= buffer_option_list(*buffer_type));
    r
}

/// The position of the last entry under a name, and none where its value is nil
/// or there is no such entry.
pub open spec fn last_named(
    entries: Seq<(NvimValue, NvimValue)>,
    name: Seq<char>,
) -> Option<int>
    decreases entries.len(),
{
    if entries.len() == 0 {
        None
    } else if entries.last().0.is_text(name) {
        if entries.last().1 is Nil {
            None
        } else {
            Some(entries.len() - 1)
        }
    } else {
        last_named(entries.drop_last(), name)
    }
}

/// The position of the last entry under a name, if its value is not nil.
fn find_named(entries: &Vec<(NvimValue, NvimValue)>, name: &str) -> (r: Option<usize>)
    ensures
        match r {
            Some(i) => last_named(entries@, name@) == Some(i as int),
            None => last_named(entries@, name@) is None,
        },
{
    let mut i: usize = entries.len();
    assert(entries@.take(i as int) =~= entries@);
    while i > 0
        invariant
            i <= entries@.len(),
            last_named(entries@, name@) == last_named(entries@.take(i as int), name@),
        decreases i,
    {
        let ghost part = entries@.take(i as int);
        assert(part.last() == entries@[i - 1]);
        assert(part.drop_last() =~= entries@.take(i - 1));
        if entries[i - 1].0.equals(name) {
            return match entries[i - 1].1 {
                NvimValue::Nil => None,
                _ => Some(i - 1),
            };
        }
        i = i - 1;
    }
    None
}

/// The highlighting of a sign: its colours in front, and behind it those of the
/// column for signs, where they are known.
pub open spec fn sign_highlight(
    colour: Seq<char>,
    name: Seq<char>,
    bg: Option<int>,
    ctermbg: Option<int>,
) -> Seq<(Seq<char>, OptionView)> {
    let front = seq![
        ("fg"@, OptionView::Text(colour)),
        ("ctermfg"@, OptionView::Text(name)),
        ("bold"@, OptionView::Flag(true)),
    ];
    let with_bg = match bg {
        Some(i) => front.push(("bg"@, OptionView::Given(i))),
        None => front,
    };
    match ctermbg {
        Some(i) => with_bg.push(("ctermbg"@, OptionView::Given(i))),
        None => with_bg,
    }
}

/// The highlighting of a sign.
fn highlight(colour: &str, name: &str, bg: Option<usize>, ctermbg: Option<usize>) -> (r: Vec<
    (String, OptionValue),
>)
    ensures
        options_view(r@) == sign_highlight(
            colour@,
            name@,
            match bg {
                Some(i) => Some(i as int),
                None => None,
            },
            match ctermbg {
                Some(i) => Some(i as int),
                None => None,
            },
        ),
{
    let mut r: Vec<(String, OptionValue)> = Vec::new();
    r.push(("fg".to_string(), OptionValue::Text(colour.to_string())));
    r.push(("ctermfg".to_string(), OptionValue::Text(name.to_string())));
    r.push(("bold".to_string(), OptionValue::Flag(true)));
    if let Some(i) = bg {
        r.push(("bg".to_string(), OptionValue::Given(i)));
    }
    if let Some(i) = ctermbg {
        r.push(("ctermbg".to_string(), OptionValue::Given(i)));
    }
    assert(options_view(r@) =~= sign_highlight(
        colour@,
        name@,
        match bg {
            Some(i) => Some(i as int),
            None => None,
        },
        match ctermbg {
            Some(i) => Some(i as int),
            None => None,
        },
    ));
    r
}

/// A sign: its name, what it shows, and the group that highlights it with the
/// options of the group.
#[derive(Debug)]
pub struct SignDefinition {
    pub name: String,
    pub text: String,
    pub group: String,
    pub options: Vec<(String, OptionValue)>,
}

/// A sign, as mathematics.
#[verifier::ext_equal]
pub struct SignView {
    pub name: Seq<char>,
    pub text: Seq<char>,
    pub group: Seq<char>,
    pub options: Seq<(Seq<char>, OptionView)>,
}

impl SignDefinition {
    /// The sign as mathematics.
    pub open spec fn view(&self) -> SignView {
        SignView {
            name: self.name@,
            text: self.text@,
            group: self.group@,
            options: options_view(self.options@),
        }
    }
}

/// The signs for a breakpoint that is asked for, one that is enabled, and the
/// line where the program stopped.
pub open spec fn sign_list(bg: Option<int>, ctermbg: Option<int>) -> Seq<SignView> {
    seq![
        SignView {
            name: "VadreSourceBreakpoint"@,
            text: "○"@,
            group: "VadreSourceBreakpointHighlight"@,
            options: sign_highlight("#ff0000"@, "red"@, bg, ctermbg),
        },
        SignView {
            name: "VadreEnabledBreakpoint"@,
            text: "⬤"@,
            group: "VadreEnabledBreakpointHighlight"@,
            options: sign_highlight("#ff0000"@, "red"@, bg, ctermbg),
        },
        SignView {
            name: "VadreDebugPointer"@,
            text: "->"@,
            group: "VadreDebugPointerHighlight"@,
            options: sign_highlight("#00ff00"@, "green"@, bg, ctermbg),
        },
    ]
}

/// The signs to define, where the column for signs is highlighted like that.
pub fn setup_signs(sign_column: &Vec<(NvimValue, NvimValue)>) -> (r: Vec<SignDefinition>)
    ensures
        r@.map_values(|s: SignDefinition| s.view()) == sign_list(
            last_named(sign_column@, "bg"@),
            last_named(sign_column@, "ctermbg"@),
        ),
{
    let bg = find_named(sign_column, "bg");
    let ctermbg = find_named(sign_column, "ctermbg");
    let mut r: Vec<SignDefinition> = Vec::new();
    r.push(
        SignDefinition {
            name: "VadreSourceBreakpoint".to_string(),
            text: "○".to_string(),
            group: "VadreSourceBreakpointHighlight".to_string(),
            options: highlight("#ff0000", "red", bg, ctermbg),
        },
    );
    r.push(
        SignDefinition {
            name: "VadreEnabledBreakpoint".to_string(),
            text: "⬤".to_string(),
            group: "VadreEnabledBreakpointHighlight".to_string(),
            options: highlight("#ff0000", "red", bg, ctermbg),
        },
    );
    r.push(
        SignDefinition {
            name: "VadreDebugPointer".to_string(),
            text: "->".to_string(),
            group: "VadreDebugPointerHighlight".to_string(),
            options: highlight("#00ff00", "green", bg, ctermbg),
        },
    );
    assert(r@.map_values(|s: SignDefinition| s.view()) =~= sign_list(
        last_named(sign_column@, "bg"@),
        last_named(sign_column@, "ctermbg"@),
    ));
    r
}

/// The log has one line for each line of a message, in order, each with the time and the
/// level in front.
pub proof fn every_line_is_logged(
    time: &str,
    level: VadreLogLevel,
    msg: &str,
    lines: Vec<String>,
    r: Vec<String>,
    name: String,
    held: &VadreLogLevel,
    line_break: &str,
)
    requires
        call_ensures(log_lines, (time, level, msg), r),
        line_break@ == "\n"@,
        call_ensures(split_text, (msg, line_break), lines),
        *held == level,
        call_ensures(VadreLogLevel::display, (held,), name),
    ensures
        r@.len() == lines@.len(),
        forall|i: int|
            #![trigger r@[i]]
            0 <= i < r@.len() ==> r@[i]@ == time@ + " ["@ + name@ + "] "@ + lines@[i]@,
{
    let parts = split(msg@, "\n"@);
    assert(texts(r@).len() == r@.len());
    assert(texts(lines@).len() == lines@.len());
    assert forall|i: int|
        #![trigger r@[i]]
        0 <= i < r@.len() implies r@[i]@ == time@ + " ["@ + name@ + "] "@ + lines@[i]@ by {
        assert(texts(r@)[i] == r@[i]@);
        assert(texts(lines@)[i] == lines@[i]@);
        assert(texts(r@)[i] == log_line(time@, level, parts[i]));
    }
}

/// The code that is shown has one line for each line of the file, in order, without the
/// white space at its end.
pub proof fn every_line_of_code_is_shown(
    content: &str,
    line_break: &str,
    windows_break: &str,
    lines: Vec<String>,
    r: Vec<String>,
    sent: Vec<String>,
    sent_lines: Vec<String>,
)
    requires
        line_break@ == "\n"@,
        windows_break@ == "\r\n"@,
        call_ensures(file_code, (content,), r),
        call_ensures(split_text, (content, line_break), lines),
        call_ensures(sent_code, (content,), sent),
        call_ensures(
            split_text,
            (content, if contains_text(content@, "\r\n"@) {
                windows_break
            } else {
                line_break
            }),
            sent_lines,
        ),
    ensures
        r@.len() == lines@.len(),
        forall|i: int|
            #![trigger r@[i]]
            0 <= i < r@.len() ==> r@[i]@ == trimmed_end(lines@[i]@),
        sent@.len() == sent_lines@.len(),
        forall|i: int|
            #![trigger sent@[i]]
            0 <= i < sent@.len() ==> sent@[i]@ == trimmed_end(sent_lines@[i]@),
{
    assert(texts(r@).len() == r@.len());
    assert(texts(lines@).len() == lines@.len());
    assert(texts(sent@).len() == sent@.len());
    assert(texts(sent_lines@).len() == sent_lines@.len());
    assert forall|i: int|
        #![trigger r@[i]]
        0 <= i < r@.len() implies r@[i]@ == trimmed_end(lines@[i]@) by {
        assert(texts(r@)[i] == r@[i]@);
        assert(texts(lines@)[i] == lines@[i]@);
    }
    assert forall|i: int|
        #![trigger sent@[i]]
        0 <= i < sent@.len() implies sent@[i]@ == trimmed_end(sent_lines@[i]@) by {
        assert(texts(sent@)[i] == sent@[i]@);
        assert(texts(sent_lines@)[i] == sent_lines@[i]@);
    }
}

/// The cursor of the log follows the end where it stood at the end of more than one line,
/// and stays elsewhere.
pub proof fn cursor_follows_the_end(line_count: i64, cursor_line: i64, r: Option<i64>)
    requires
        line_count < i64::MAX,
        call_ensures(log_cursor, (line_count, cursor_line), r),
    ensures
        r is Some <==> 1 < line_count <= cursor_line,
        r matches Some(n) ==> n == line_count + 1,
{
}

/// What is written goes where it is asked for, the whole buffer where nought and nought
/// are, and takes the place of the only line of a buffer where that is empty.
pub proof fn written_lines_take_their_place(
    start: i64,
    end: i64,
    line_count: i64,
    only_empty_line: bool,
    r: (i64, i64),
)
    requires
        call_ensures(write_range, (start, end, line_count, only_empty_line), r),
    ensures
        line_count == 1 && only_empty_line ==> r.0 == 0 && r.1 == 1,
        !(line_count == 1 && only_empty_line) ==> r.0 == start && r.1 == (if start == 0 && end == 0 {
            line_count
        } else {
            end
        }),
{
}

/// The code is filled anew where the buffer shows something else or it is asked for.
pub proof fn other_code_is_replaced(old_name: &str, name: &str, force: bool, r: bool)
    requires
        call_ensures(code_is_replaced, (old_name, name, force), r),
    ensures
        force ==> r,
        !force ==> r == !name@.is_suffix_of(old_name@),
{
}

/// The setting of the log is the text or the number that the variable holds, and the name
/// of the level of information where it holds nothing of the kind.
pub proof fn log_setting_is_what_is_set(
    n: u64,
    s: String,
    r: Option<String>,
    t: Option<String>,
    none: Option<String>,
)
    requires
        call_ensures(log_setting, (&Some(NvimValue::Unsigned(n)),), r),
        call_ensures(log_setting, (&Some(NvimValue::Str(s)),), t),
        call_ensures(log_setting, (&None::<NvimValue>,), none),
    ensures
        r matches Some(x) && x@ == decimal(n as nat),
        t matches Some(x) && x@ == s@,
        none matches Some(x) && x@ == "INFO"@,
{
}

/// A file is shown in its language: the type of a file is set by the ending of its name,
/// and two files of different types have different endings.
pub proof fn type_follows_the_ending(
    a: &str,
    b: &str,
    r: Option<&'static str>,
    s: Option<&'static str>,
)
    requires
        call_ensures(file_type, (a,), r),
        call_ensures(file_type, (b,), s),
    ensures
        a@ == b@ ==> (r is Some == s is Some),
        r matches Some(x) ==> (s matches Some(y) ==> (x@ == y@ <==> a@ == b@)),
        a@ == "rs"@ ==> (r matches Some(x) && x@ == "rust"@),
        a@ == "js"@ ==> (r matches Some(x) && x@ == "javascript"@),
        a@ == "ts"@ ==> (r matches Some(x) && x@ == "typescript"@),
        a@ == "py"@ ==> (r matches Some(x) && x@ == "python"@),
        (a@ == "c"@ || a@ == "go"@ || a@ == "cpp"@) ==> (r matches Some(x) && x@ == a@),
        r is Some <==> a@ == "rs"@ || a@ == "js"@ || a@ == "ts"@ || a@ == "py"@ || a@ == "c"@
            || a@ == "go"@ || a@ == "cpp"@,
{
    reveal_strlit("rs");
    reveal_strlit("c");
    reveal_strlit("js");
    reveal_strlit("ts");
    reveal_strlit("go");
    reveal_strlit("cpp");
    reveal_strlit("py");
    reveal_strlit("rust");
    reveal_strlit("javascript");
    reveal_strlit("typescript");
    reveal_strlit("python");
    assert("rs"@[0] == 'r' && "js"@[0] == 'j' && "ts"@[0] == 't' && "go"@[0] == 'g' && "py"@[0]
        == 'p' && "c"@.len() == 1 && "cpp"@.len() == 3);
    assert("rust"@[0] == 'r' && "javascript"@[0] == 'j' && "typescript"@[0] == 't' && "python"@[0]
        == 'p' && "rust"@.len() == 4 && "javascript"@.len() == 10 && "typescript"@.len() == 10
        && "python"@.len() == 6 && "go"@.len() == 2);
}

/// A buffer of a session is kept in memory and not changed by hand, and has the type of
/// its name.
pub proof fn buffer_is_kept_as_it_is(
    t: &VadreBufferType,
    name: &str,
    r: Vec<(String, OptionValue)>,
)
    requires
        call_ensures(VadreBufferType::buffer_type_name, (t,), name),
        call_ensures(set_vadre_buffer_options, (t,), r),
    ensures
        r@.len() == 5,
        r@[0].0@ == "swapfile"@ && (r@[0].1 matches OptionValue::Flag(f) && !f),
        r@[1].0@ == "buftype"@ && (r@[1].1 matches OptionValue::Text(x) && x@ == "nofile"@),
        r@[2].0@ == "filetype"@ && (r@[2].1 matches OptionValue::Text(x) && x@ == name@),
        r@[3].0@ == "buflisted"@ && (r@[3].1 matches OptionValue::Flag(f) && !f),
        r@[4].0@ == "modifiable"@ && (r@[4].1 matches OptionValue::Flag(f) && !f),
{
    let v = options_view(r@);
    assert(v.len() == 5);
    assert forall|i: int| 0 <= i < 5 implies (#[trigger] v[i]).0 == r@[i].0@ && v[i].1
        == r@[i].1.view() by {}
    assert(v[0].0 == "swapfile"@ && v[1].0 == "buftype"@ && v[2].0 == "filetype"@ && v[3].0
        == "buflisted"@ && v[4].0 == "modifiable"@);
}

proof fn last_named_is_last(entries: Seq<(NvimValue, NvimValue)>, name: Seq<char>, at: int)
    requires
        0 <= at < entries.len(),
        entries[at].0.is_text(name),
        forall|j: int| at < j < entries.len() ==> !(#[trigger] entries[j]).0.is_text(name),
    ensures
        last_named(entries, name) == if entries[at].1 is Nil {
            None::<int>
        } else {
            Some(at)
        },
    decreases entries.len(),
{
    if at < entries.len() - 1 {
        let fewer = entries.drop_last();
        assert(!entries[entries.len() - 1].0.is_text(name));
        assert forall|j: int| at < j < fewer.len() implies !(#[trigger] fewer[j]).0.is_text(
            name,
        ) by {
            assert(fewer[j] == entries[j]);
        }
        last_named_is_last(fewer, name, at);
    }
}

proof fn unnamed_is_none(entries: Seq<(NvimValue, NvimValue)>, name: Seq<char>)
    requires
        forall|j: int| 0 <= j < entries.len() ==> !(#[trigger] entries[j]).0.is_text(name),
    ensures
        last_named(entries, name) is None,
    decreases entries.len(),
{
    if entries.len() > 0 {
        let fewer = entries.drop_last();
        assert(!entries[entries.len() - 1].0.is_text(name));
        assert forall|j: int| 0 <= j < fewer.len() implies !(#[trigger] fewer[j]).0.is_text(
            name,
        ) by {
            assert(fewer[j] == entries[j]);
        }
        unnamed_is_none(fewer, name);
    }
}

/// The signs stand on the colour of their column: where the column has a background, it is
/// taken over into each of the signs, from where it was told last, and where it has none,
/// no sign has one.
pub proof fn signs_have_the_background_of_their_column(
    column: &Vec<(NvimValue, NvimValue)>,
    at: int,
    r: Vec<SignDefinition>,
    i: int,
)
    requires
        call_ensures(setup_signs, (column,), r),
        0 <= i < 3,
    ensures
        r@.len() == 3,
        0 <= at < column@.len() && column@[at].0.is_text("bg"@) && !(column@[at].1 is Nil) && (
        forall|j: int| at < j < column@.len() ==> !(#[trigger] column@[j]).0.is_text("bg"@)) ==> {
            &&& r@[i].options@.len() > 3
            &&& r@[i].options@[3].0@ == "bg"@
            &&& r@[i].options@[3].1 matches OptionValue::Given(p) && p == at
        },
        (forall|j: int|
            0 <= j < column@.len() ==> !(#[trigger] column@[j]).0.is_text("bg"@)
                && !column@[j].0.is_text("ctermbg"@)) ==> r@[i].options@.len() == 3,
        0 <= at < column@.len() && column@[at].0.is_text("ctermbg"@) && !(column@[at].1 is Nil) && (
        forall|j: int| at < j < column@.len() ==> !(#[trigger] column@[j]).0.is_text("ctermbg"@))
            ==> {
            &&& r@[i].options@.len() > 3
            &&& r@[i].options@.last().0@ == "ctermbg"@
            &&& r@[i].options@.last().1 matches OptionValue::Given(p) && p == at
        },
{
    let bg = last_named(column@, "bg"@);
    let ctermbg = last_named(column@, "ctermbg"@);
    let v = r@.map_values(|s: SignDefinition| s.view());
    assert(v.len() == 3);
    assert(v[i] == r@[i].view());
    let o = options_view(r@[i].options@);
    assert(v[i].options == o);
    assert(o.len() == r@[i].options@.len());
    assert forall|k: int| 0 <= k < o.len() implies (#[trigger] o[k]).0 == r@[i].options@[k].0@
        && o[k].1 == r@[i].options@[k].1.view() by {}
    assert(i == 0 || i == 1 || i == 2);
    if 0 <= at < column@.len() && column@[at].0.is_text("bg"@) && !(column@[at].1 is Nil) && (
    forall|j: int| at < j < column@.len() ==> !(#[trigger] column@[j]).0.is_text("bg"@)) {
        last_named_is_last(column@, "bg"@, at);
        assert(o[3].0 == "bg"@ && o[3].1 == OptionView::Given(at));
    }
    if 0 <= at < column@.len() && column@[at].0.is_text("ctermbg"@) && !(column@[at].1 is Nil) && (
    forall|j: int| at < j < column@.len() ==> !(#[trigger] column@[j]).0.is_text("ctermbg"@)) {
        last_named_is_last(column@, "ctermbg"@, at);
        assert(o.last().0 == "ctermbg"@ && o.last().1 == OptionView::Given(at));
    }
    if forall|j: int|
        0 <= j < column@.len() ==> !(#[trigger] column@[j]).0.is_text("bg"@)
            && !column@[j].0.is_text("ctermbg"@) {
        unnamed_is_none(column@, "bg"@);
        unnamed_is_none(column@, "ctermbg"@);
    }
}

} // verus!
