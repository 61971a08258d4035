//! What Neovim can ask for.

use crate::breakpoints::{with_pending, without_breakpoint, BreakpointError, Breakpoints};
use crate::handler::DebuggerStepType;
use crate::number::{
    decimal, decimal_is_digits, decimal_read_back, is_digit, parse_unsigned, parse_usize,
    read_unsigned, unsigned_text, IntError,
};
use crate::str_map::StrMap;
use crate::text::{
    has_prefix, join, join_texts, same, split, split_text, text_if_any, texts, without_char,
    without_first,
};
use crate::value::NvimValue;
use vstd::prelude::*;

verus! {

/// The adapter that is used if none is named.
pub const DEFAULT_DEBUGGER: &'static str = "codelldb";

/// Why a program cannot be launched with some arguments.
#[derive(Clone, Copy, Debug, PartialEq, Eq, Structural)]
pub enum LaunchError {
    NotAString,
    /// An environment variable stands there without a value.
    NoValue,
}

impl LaunchError {
    /// What the user is told.
    pub fn message(&self) -> (r: String)
        ensures
            r@ == (match self {
                LaunchError::NotAString => "Argument must be a string"@,
                LaunchError::NoValue => "Key not found for environment variable"@,
            }),
    {
        match self {
            LaunchError::NotAString => "Argument must be a string".to_string(),
            LaunchError::NoValue => "Key not found for environment variable".to_string(),
        }
    }
}

/// What some arguments say of a launch.
#[verifier::ext_equal]
pub struct LaunchView {
    pub debugger_type: Option<Seq<char>>,
    pub debugger_port: Option<Seq<char>>,
    /// No `--` was met yet.
    pub own_options: bool,
    /// The next argument is an environment variable.
    pub variable_next: bool,
    pub command: Seq<char>,
    pub command_args: Seq<Seq<char>>,
    pub environment_variables: Map<Seq<char>, Seq<char>>,
}

/// What no arguments say.
pub open spec fn nothing_said() -> LaunchView {
    LaunchView {
        debugger_type: None,
        debugger_port: None,
        own_options: true,
        variable_next: false,
        command: Seq::empty(),
        command_args: Seq::empty(),
        environment_variables: Map::empty(),
    }
}

/// Whether an argument is an option that has more behind its name.
pub open spec fn option_with(arg: Seq<char>, name: Seq<char>) -> bool {
    name.is_prefix_of(arg) && arg.len() > name.len()
}

/// What is said with one text more.
pub open spec fn with_text(said: LaunchView, arg: Seq<char>) -> Result<LaunchView, LaunchError> {
    if arg == "--"@ {
        Ok(LaunchView { own_options: false, ..said })
    } else if said.own_options && option_with(arg, "-t="@) {
        Ok(LaunchView { debugger_type: Some(arg.skip("-t="@.len() as int)), ..said })
    } else if said.own_options && option_with(arg, "--debugger-port="@) {
        Ok(LaunchView { debugger_port: Some(arg.skip("--debugger-port="@.len() as int)), ..said })
    } else if said.own_options && ("-e"@.is_prefix_of(arg) || arg == "--env"@) {
        Ok(LaunchView { variable_next: true, ..said })
    } else if said.variable_next {
        let parts = split(arg, "="@);
        if parts.len() < 2 {
            Err(LaunchError::NoValue)
        } else {
            Ok(
                LaunchView {
                    variable_next: false,
                    environment_variables: said.environment_variables.insert(parts[0], parts[1]),
                    ..said
                },
            )
        }
    } else if said.command.len() == 0 {
        Ok(LaunchView { command: arg, ..said })
    } else {
        Ok(LaunchView { command_args: said.command_args.push(arg), ..said })
    }
}

/// What some arguments say, one after the other.
pub open spec fn said_by(args: Seq<NvimValue>) -> Result<LaunchView, LaunchError>
    decreases args.len(),
{
    if args.len() == 0 {
        Ok(nothing_said())
    } else {
        match said_by(args.drop_last()) {
            Err(e) => Err(e),
            Ok(said) => match args.last() {
                NvimValue::Str(s) => with_text(said, s@),
                _ => Err(LaunchError::NotAString),
            },
        }
    }
}

/// Whether all the values are texts other than `--`.
pub open spec fn plain_texts(args: Seq<NvimValue>) -> bool {
    forall|i: int| 0 <= i < args.len() ==> (#[trigger] args[i] matches NvimValue::Str(s) && s@ != "--"@)
}

/// The texts among some values.
pub open spec fn texts_in(args: Seq<NvimValue>) -> Seq<Seq<char>> {
    args.map_values(
        |v: NvimValue|
            match v {
                NvimValue::Str(s) => s@,
                _ => Seq::<char>::empty(),
            },
    )
}

/// After `--` nothing is an option: the first text is the command and the others
/// are its arguments, as they stand.
pub proof fn after_the_dashes(dashes: NvimValue, args: Seq<NvimValue>)
    requires
        dashes.is_text("--"@),
        plain_texts(args),
        args.len() > 0,
        texts_in(args)[0].len() > 0,
    ensures
        said_by(seq![dashes] + args) == Ok::<LaunchView, LaunchError>(
            LaunchView {
                own_options: false,
                command: texts_in(args)[0],
                command_args: texts_in(args).skip(1),
                ..nothing_said()
            },
        ),
    decreases args.len(),
{
    let all = seq![dashes] + args;
    assert(all.drop_last() =~= seq![dashes] + args.drop_last());
    assert(all.last() == args.last());
    assert(args.last() == args[args.len() - 1]);
    if args.len() == 1 {
        let one = seq![dashes];
        assert(all.drop_last() =~= one);
        assert(one.drop_last() =~= Seq::<NvimValue>::empty());
        assert(said_by(one.drop_last()) == Ok::<LaunchView, LaunchError>(nothing_said()));
        assert(said_by(one) == Ok::<LaunchView, LaunchError>(
            LaunchView { own_options: false, ..nothing_said() },
        ));
        assert(texts_in(args).skip(1) =~= Seq::<Seq<char>>::empty());
    } else {
        let fewer = args.drop_last();
        assert forall|i: int| 0 <= i < fewer.len() implies (#[trigger] fewer[i] matches NvimValue::Str(
            s,
        ) && s@ != "--"@) by {
            assert(fewer[i] == args[i]);
        }
        assert(texts_in(fewer) =~= texts_in(args).drop_last());
        after_the_dashes(dashes, fewer);
        assert(texts_in(fewer).skip(1).push(texts_in(args).last()) =~= texts_in(args).skip(1));
    }
}

/// What was said goes on being wrong, whatever follows.
proof fn faults_stay(args: Seq<NvimValue>, n: int)
    requires
        0 <= n <= args.len(),
        said_by(args.take(n)) is Err,
    ensures
        said_by(args) == said_by(args.take(n)),
    decreases args.len() - n,
{
    if n == args.len() {
        assert(args.take(n) =~= args);
    } else {
        assert(args.take(n + 1).drop_last() =~= args.take(n));
        faults_stay(args, n + 1);
    }
}

/// The values of a map, as texts.
pub open spec fn text_values(m: Map<Seq<char>, String>) -> Map<Seq<char>, Seq<char>> {
    m.map_values(|s: String| s@)
}

/// What to launch.
#[derive(Debug)]
pub struct Launch {
    pub debugger_type: Option<String>,
    pub debugger_port: Option<String>,
    pub own_options: bool,
    pub variable_next: bool,
    pub command: String,
    pub command_args: Vec<String>,
    pub environment_variables: StrMap<String>,
}

impl Launch {
    /// The environment is kept in order.
    pub open spec fn wf(self) -> bool {
        self.environment_variables.wf()
    }

    /// What is to be launched.
    pub open spec fn view(&self) -> LaunchView {
        LaunchView {
            debugger_type: text_if_any(self.debugger_type),
            debugger_port: text_if_any(self.debugger_port),
            own_options: self.own_options,
            variable_next: self.variable_next,
            command: self.command@,
            command_args: texts(self.command_args@),
            environment_variables: text_values(self.environment_variables@),
        }
    }

    /// Nothing is said yet.
    fn new() -> (r: Launch)
        ensures
            r.wf(),
            r.view() == nothing_said(),
    {
        let r = Launch {
            debugger_type: None,
            debugger_port: None,
            own_options: true,
            variable_next: false,
            command: String::new(),
            command_args: Vec::new(),
            environment_variables: StrMap::new(),
        };
        assert(r.view() =~= nothing_said());
        r
    }

    /// Takes one text more into account.
    fn take_text(&mut self, arg: &str) -> (r: Result<(), LaunchError>)
        requires
            old(self).wf(),
        ensures
            final(self).wf(),
            match r {
                Ok(_) => with_text(old(self).view(), arg@) == Ok::<LaunchView, LaunchError>(
                    final(self).view(),
                ),
                Err(e) => with_text(old(self).view(), arg@) == Err::<LaunchView, LaunchError>(e),
            },
    {
        proof {
            reveal_strlit("-t=");
            reveal_strlit("--debugger-port=");
            reveal_strlit("=");
        }
        let ghost before = self.view();
        if same(arg, "--") {
            self.own_options = false;
            return Ok(());
        }
        let count: usize = chars_count(arg);
        if self.own_options && has_prefix(arg, "-t=") && count > 3 {
            self.debugger_type = Some(without_first(arg, 3));
        } else if self.own_options && has_prefix(arg, "--debugger-port=") && count > 16 {
            self.debugger_port = Some(without_first(arg, 16));
        } else if self.own_options && (has_prefix(arg, "-e") || same(arg, "--env")) {
            self.variable_next = true;
        } else if self.variable_next {
            let mut parts = split_text(arg, "=");
            let ghost all = texts(parts@);
            if parts.len() < 2 {
                return Err(LaunchError::NoValue);
            }
            assert(all[0] == parts@[0]@ && all[1] == parts@[1]@);
            self.variable_next = false;
            let value = parts.remove(1);
            let key = parts.remove(0);
            let ghost variables = self.environment_variables@;
            self.environment_variables.insert(key, value);
            assert(text_values(self.environment_variables@) =~= text_values(variables).insert(
                key@,
                value@,
            ));
        } else if chars_count(self.command.as_str()) == 0 {
            self.command = arg.to_string();
        } else {
            self.command_args.push(arg.to_string());
            assert(texts(self.command_args@) =~= before.command_args.push(arg@));
        }
        Ok(())
    }
}

/// How many characters a text has.
fn chars_count(text: &str) -> (r: usize)
    ensures
        r == text@.len(),
{
    text.unicode_len()
}

/// What the arguments say is to be launched, or why nothing can be.
pub fn launch(args: &Vec<NvimValue>) -> (r: Result<Launch, LaunchError>)
    ensures
        match r {
            Ok(l) => l.wf() && said_by(args@) == Ok::<LaunchView, LaunchError>(l.view()),
            Err(e) => said_by(args@) == Err::<LaunchView, LaunchError>(e),
        },
{
    let mut l = Launch::new();
    let mut i: usize = 0;
    assert(args@.take(0) =~= Seq::<NvimValue>::empty());
    while i < args.len()
        invariant
            i <= args@.len(),
            l.wf(),
            said_by(args@.take(i as int)) == Ok::<LaunchView, LaunchError>(l.view()),
        decreases args@.len() - i,
    {
        assert(args@.take(i + 1).drop_last() =~= args@.take(i as int));
        match args[i].as_str() {
            None => {
                proof {
                    faults_stay(args@, i + 1);
                }
                return Err(LaunchError::NotAString);
            },
            Some(text) => match l.take_text(text) {
                Ok(_) => {},
                Err(e) => {
                    proof {
                        faults_stay(args@, i + 1);
                    }
                    return Err(e);
                },
            },
        }
        i = i + 1;
    }
    assert(args@.take(i as int) =~= args@);
    Ok(l)
}

impl Launch {
    /// The name of the adapter to use.
    pub fn debugger_name(&self) -> (r: String)
        ensures
            r@ == (match self.debugger_type {
                Some(t) => t@,
                None => DEFAULT_DEBUGGER@,
            }),
    {
        match &self.debugger_type {
            Some(t) => t.clone(),
            None => DEFAULT_DEBUGGER.to_string(),
        }
    }

    /// The port of an adapter that runs already, if one was named.
    pub fn port(&self) -> (r: Result<Option<u16>, IntError>)
        ensures
            match self.debugger_port {
                None => r == Ok::<Option<u16>, IntError>(None),
                Some(text) => match r {
                    Ok(port) => port matches Some(n) && read_unsigned(text@, u16::MAX as nat)
                        == Ok::<nat, IntError>(n as nat),
                    Err(e) => read_unsigned(text@, u16::MAX as nat) == Err::<nat, IntError>(e),
                },
            },
    {
        match &self.debugger_port {
            None => Ok(None),
            Some(text) => match parse_unsigned(text.as_str(), u16::MAX as u64) {
                Ok(n) => Ok(Some(n as u16)),
                Err(e) => Err(e),
            },
        }
    }

    /// The program and its arguments, as the user sees them.
    pub fn debug_program_string(&self) -> (r: String)
        ensures
            r@ == self.command@ + " "@ + join(texts(self.command_args@), " "@),
    {
        let args = join_texts(&self.command_args, " ");
        self.command.clone().concat(" ").concat(args.as_str())
    }

    /// The command that lets Neovim remember what was launched.
    pub fn history_command(&self) -> (r: String)
        ensures
            r@ == "let g:vadre_last_command[\""@ + (match self.debugger_type {
                Some(t) => t@,
                None => DEFAULT_DEBUGGER@,
            }) + "\"] = \""@ + self.command@ + " "@ + join(texts(self.command_args@), " "@) + "\""@,
    {
        let name = self.debugger_name();
        let args = join_texts(&self.command_args, " ");
        "let g:vadre_last_command[\"".to_string().concat(name.as_str()).concat("\"] = \"").concat(
            self.command.as_str(),
        ).concat(" ").concat(args.as_str()).concat("\"")
    }

    /// What is told when there is no such program.
    pub fn program_not_found(&self) -> (r: String)
        ensures
            r@ == "ERROR: Program not found "@ + self.command@,
    {
        "ERROR: Program not found ".to_string().concat(self.command.as_str())
    }
}

/// The numbers of the sessions, from one on.
#[derive(Debug)]
pub struct InstanceIds {
    pub next: usize,
}

impl InstanceIds {
    /// No session was started yet.
    pub fn new() -> (r: InstanceIds)
        ensures
            r.next == 1,
    {
        InstanceIds { next: 1 }
    }

    /// The number of a new session.
    pub fn take(&mut self) -> (r: usize)
        ensures
            r == old(self).next,
            final(self).next == old(self).next.wrapping_add(1),
    {
        let r: usize = self.next;
        self.next = r.wrapping_add(1);
        r
    }
}

/// What Neovim asks for.
#[derive(Debug)]
pub enum Command {
    Ping,
    Launch(Vec<NvimValue>),
    Breakpoint,
    Step(DebuggerStepType, usize, u64),
    OutputWindow(usize, String),
    StopDebugger(usize),
}

/// What Neovim asks for.
pub enum CommandView {
    Ping,
    Launch(Seq<NvimValue>),
    Breakpoint,
    Step(DebuggerStepType, nat, u64),
    OutputWindow(nat, Seq<char>),
    StopDebugger(nat),
}

impl Command {
    /// What is asked for.
    pub open spec fn view(&self) -> CommandView {
        match self {
            Command::Ping => CommandView::Ping,
            Command::Launch(args) => CommandView::Launch(args@),
            Command::Breakpoint => CommandView::Breakpoint,
            Command::Step(t, id, count) => CommandView::Step(*t, *id as nat, *count),
            Command::OutputWindow(id, t) => CommandView::OutputWindow(*id as nat, t@),
            Command::StopDebugger(id) => CommandView::StopDebugger(*id as nat),
        }
    }
}

/// The list that the arguments start with. `what` names them.
pub open spec fn listed_arguments(args: Seq<NvimValue>, what: Seq<char>) -> Result<
    Seq<NvimValue>,
    Seq<char>,
> {
    if args.len() == 0 {
        Err(what + " args must be supplied"@)
    } else {
        match args[0] {
            NvimValue::Array(list) => Ok(list@),
            _ => Err(what + " args must be an array"@),
        }
    }
}

/// The number of a session that the arguments start with. Where Neovim sends it
/// in quotes, they are left out. `must` is what is told with a number that is
/// none.
pub open spec fn instance_argument(args: Seq<NvimValue>, quoted: bool, must: Seq<char>) -> Result<
    nat,
    Seq<char>,
> {
    if args.len() == 0 {
        Err("Instance id must be supplied"@)
    } else {
        match args[0] {
            NvimValue::Str(s) => {
                let digits = if quoted {
                    s@.filter(|c: char| c != '"')
                } else {
                    s@
                };
                match read_unsigned(digits, usize::MAX as nat) {
                    Ok(n) => Ok(n),
                    Err(e) => Err(must + e.words()),
                }
            },
            _ => Err("Instance id must be a string"@),
        }
    }
}

/// A text in which every character is kept is kept as it is.
proof fn filter_keeps(s: Seq<char>, keep: spec_fn(char) -> bool)
    requires
        forall|i: int| 0 <= i < s.len() ==> keep(#[trigger] s[i]),
    ensures
        s.filter(keep) == s,
    decreases s.len(),
{
    reveal(Seq::filter);
    if s.len() > 0 {
        let fewer = s.drop_last();
        assert forall|i: int| 0 <= i < fewer.len() implies keep(#[trigger] fewer[i]) by {
            assert(fewer[i] == s[i]);
        }
        filter_keeps(fewer, keep);
        assert(keep(s[s.len() - 1]));
        assert(fewer.push(s.last()) =~= s);
    }
}

/// A number in decimal notation has no quotes in it, and is what is left of itself
/// in quotes.
proof fn without_quotes(n: nat)
    ensures
        decimal(n).filter(|c: char| c != '"') == decimal(n),
        (seq!['"'] + decimal(n) + seq!['"']).filter(|c: char| c != '"') == decimal(n),
{
    let digits = decimal(n);
    let keep = |c: char| c != '"';
    decimal_is_digits(n);
    assert forall|i: int| 0 <= i < digits.len() implies keep(#[trigger] digits[i]) by {
        assert(is_digit(digits[i]));
    }
    filter_keeps(digits, keep);
    let quote = seq!['"'];
    assert(quote.filter(keep) =~= Seq::<char>::empty()) by {
        reveal_with_fuel(Seq::filter, 2);
        assert(quote.drop_last() =~= Seq::<char>::empty());
    }
    Seq::filter_distributes_over_add(quote, digits, keep);
    Seq::filter_distributes_over_add(quote + digits, quote, keep);
    assert(Seq::<char>::empty() + digits + Seq::<char>::empty() =~= digits);
}

/// The number of a session is read back from its decimal notation, also where
/// quotes are allowed, and there with quotes around it too: the keys of the window
/// for the code send it in quotes.
pub proof fn instance_number_is_read(
    id: usize,
    arg: NvimValue,
    rest: Seq<NvimValue>,
    quoted: bool,
    must: Seq<char>,
)
    requires
        arg.is_text(decimal(id as nat)) || (quoted && arg.is_text(
            seq!['"'] + decimal(id as nat) + seq!['"'],
        )),
    ensures
        instance_argument(seq![arg] + rest, quoted, must) == Ok::<nat, Seq<char>>(id as nat),
{
    let digits = decimal(id as nat);
    decimal_read_back(id as nat, usize::MAX as nat);
    without_quotes(id as nat);
    assert((seq![arg] + rest)[0] == arg);
    if arg.is_text(digits) {
        assert(instance_argument(seq![arg] + rest, quoted, must) == Ok::<nat, Seq<char>>(id as nat));
    }
}

/// How often to go on: once, if nothing is said.
pub open spec fn count_argument(args: Seq<NvimValue>, must: Seq<char>) -> Result<u64, Seq<char>> {
    if args.len() < 2 {
        Ok(1)
    } else {
        match args[1] {
            NvimValue::Unsigned(n) => Ok(n),
            _ => Err(must),
        }
    }
}

/// A request to go on in one of two ways.
pub open spec fn step_asked(
    args: Seq<NvimValue>,
    step_type: DebuggerStepType,
    id_must: Seq<char>,
    count_must: Seq<char>,
) -> Result<CommandView, Seq<char>> {
    match listed_arguments(args, "Step"@) {
        Err(e) => Err(e),
        Ok(list) => match instance_argument(list, true, id_must) {
            Err(e) => Err(e),
            Ok(id) => match count_argument(list, count_must) {
                Err(e) => Err(e),
                Ok(count) => Ok(CommandView::Step(step_type, id, count)),
            },
        },
    }
}

/// A request to show another output window.
pub open spec fn window_asked(args: Seq<NvimValue>) -> Result<CommandView, Seq<char>> {
    match listed_arguments(args, "Launch"@) {
        Err(e) => Err(e),
        Ok(list) => match instance_argument(list, false, "Instance id is usize: "@) {
            Err(e) => Err(e),
            Ok(id) => if list.len() < 2 {
                Err("Type must be supplied"@)
            } else {
                match list[1] {
                    NvimValue::Str(t) => Ok(CommandView::OutputWindow(id, t@)),
                    _ => Err("Type must be a string"@),
                }
            },
        },
    }
}

/// What a request asks for, or what is wrong with it.
pub open spec fn asked(name: Seq<char>, args: Seq<NvimValue>) -> Result<CommandView, Seq<char>> {
    if name == "ping"@ {
        Ok(CommandView::Ping)
    } else if name == "launch"@ {
        match listed_arguments(args, "Launch"@) {
            Err(e) => Err(e),
            Ok(list) => Ok(CommandView::Launch(list)),
        }
    } else if name == "breakpoint"@ {
        Ok(CommandView::Breakpoint)
    } else if name == "step_in"@ {
        step_asked(args, DebuggerStepType::In, "Instance id must be usize: "@, "Count must be u64"@)
    } else if name == "step_over"@ {
        step_asked(args, DebuggerStepType::Over, "Instance id is usize: "@, "Count is u64"@)
    } else if name == "continue"@ {
        match instance_argument(args, false, "Instance id is usize: "@) {
            Err(e) => Err(e),
            Ok(id) => Ok(CommandView::Step(DebuggerStepType::Continue, id, 1)),
        }
    } else if name == "output_window"@ {
        window_asked(args)
    } else if name == "stop_debugger"@ {
        match instance_argument(args, false, "Instance id is usize: "@) {
            Err(e) => Err(e),
            Ok(id) => Ok(CommandView::StopDebugger(id)),
        }
    } else {
        Err("Unimplemented "@ + name)
    }
}

/// The list that the arguments start with.
fn take_list(args: Vec<NvimValue>, what: &str) -> (r: Result<Vec<NvimValue>, String>)
    ensures
        match r {
            Ok(list) => listed_arguments(args@, what@) == Ok::<Seq<NvimValue>, Seq<char>>(list@),
            Err(e) => listed_arguments(args@, what@) == Err::<Seq<NvimValue>, Seq<char>>(e@),
        },
{
    if args.len() == 0 {
        return Err(what.to_string().concat(" args must be supplied"));
    }
    let mut args = args;
    match args.remove(0) {
        NvimValue::Array(list) => Ok(list),
        _ => Err(what.to_string().concat(" args must be an array")),
    }
}

/// The number of a session that the arguments start with.
fn read_instance(args: &Vec<NvimValue>, quoted: bool, must: &str) -> (r: Result<usize, String>)
    ensures
        match r {
            Ok(id) => instance_argument(args@, quoted, must@) == Ok::<nat, Seq<char>>(id as nat),
            Err(e) => instance_argument(args@, quoted, must@) == Err::<nat, Seq<char>>(e@),
        },
{
    if args.len() == 0 {
        return Err("Instance id must be supplied".to_string());
    }
    match args[0].as_str() {
        None => Err("Instance id must be a string".to_string()),
        Some(s) => {
            let parsed = if quoted {
                let digits = without_char(s, '"');
                parse_usize(digits.as_str())
            } else {
                parse_usize(s)
            };
            match parsed {
                Ok(id) => Ok(id),
                Err(e) => {
                    let why = e.message();
                    Err(must.to_string().concat(why.as_str()))
                },
            }
        },
    }
}

/// A request to go on in one of two ways.
fn read_step(
    args: Vec<NvimValue>,
    step_type: DebuggerStepType,
    id_must: &str,
    count_must: &str,
) -> (r: Result<Command, String>)
    ensures
        match r {
            Ok(c) => step_asked(args@, step_type, id_must@, count_must@) == Ok::<
                CommandView,
                Seq<char>,
            >(c.view()),
            Err(e) => step_asked(args@, step_type, id_must@, count_must@) == Err::<
                CommandView,
                Seq<char>,
            >(e@),
        },
{
    let list = match take_list(args, "Step") {
        Ok(list) => list,
        Err(e) => return Err(e),
    };
    let id: usize = match read_instance(&list, true, id_must) {
        Ok(id) => id,
        Err(e) => return Err(e),
    };
    let count: u64 = if list.len() < 2 {
        1
    } else {
        match list[1].as_u64() {
            Some(n) => n,
            None => return Err(count_must.to_string()),
        }
    };
    Ok(Command::Step(step_type, id, count))
}

/// A request to show another output window.
fn read_window(args: Vec<NvimValue>) -> (r: Result<Command, String>)
    ensures
        match r {
            Ok(c) => window_asked(args@) == Ok::<CommandView, Seq<char>>(c.view()),
            Err(e) => window_asked(args@) == Err::<CommandView, Seq<char>>(e@),
        },
{
    let list = match take_list(args, "Launch") {
        Ok(list) => list,
        Err(e) => return Err(e),
    };
    let id: usize = match read_instance(&list, false, "Instance id is usize: ") {
        Ok(id) => id,
        Err(e) => return Err(e),
    };
    if list.len() < 2 {
        return Err("Type must be supplied".to_string());
    }
    match list[1].as_str() {
        Some(t) => Ok(Command::OutputWindow(id, t.to_string())),
        None => Err("Type must be a string".to_string()),
    }
}

/// What a request asks for, or what Neovim is told is wrong with it.
pub fn handle_request(name: &str, args: Vec<NvimValue>) -> (r: Result<Command, String>)
    ensures
        match r {
            Ok(c) => asked(name@, args@) == Ok::<CommandView, Seq<char>>(c.view()),
            Err(e) => asked(name@, args@) == Err::<CommandView, Seq<char>>(e@),
        },
{
    if same(name, "ping") {
        Ok(Command::Ping)
    } else if same(name, "launch") {
        match take_list(args, "Launch") {
            Ok(list) => Ok(Command::Launch(list)),
            Err(e) => Err(e),
        }
    } else if same(name, "breakpoint") {
        Ok(Command::Breakpoint)
    } else if same(name, "step_in") {
        read_step(args, DebuggerStepType::In, "Instance id must be usize: ", "Count must be u64")
    } else if same(name, "step_over") {
        read_step(args, DebuggerStepType::Over, "Instance id is usize: ", "Count is u64")
    } else if same(name, "continue") {
        match read_instance(&args, false, "Instance id is usize: ") {
            Ok(id) => Ok(Command::Step(DebuggerStepType::Continue, id, 1)),
            Err(e) => Err(e),
        }
    } else if same(name, "output_window") {
        read_window(args)
    } else if same(name, "stop_debugger") {
        match read_instance(&args, false, "Instance id is usize: ") {
            Ok(id) => Ok(Command::StopDebugger(id)),
            Err(e) => Err(e),
        }
    } else {
        Err("Unimplemented ".to_string().concat(name))
    }
}

/// What Neovim is told of a session that is not there.
pub const NO_DEBUGGER: &'static str = "Debugger didn't exist";

/// The answer to a ping.
pub const PONG: &'static str = "pong";

/// What Neovim is told when a program was launched.
pub const PROCESS_LAUNCHED: &'static str = "process launched";

/// What Neovim is told when the file of a breakpoint is not there.
pub const NO_PATH: &'static str = "Path not found for setting breakpoint";

/// How many seconds a session is given to stop.
pub const STOP_TIMEOUT_SECONDS: u64 = 5;

/// How stopping a session ended.
#[derive(Debug)]
pub enum StopOutcome {
    /// The session answered.
    Answered,
    /// The session could not be asked.
    Refused,
    /// It took too long, as this says.
    TimedOut(String),
}

/// What follows from how stopping a session ended: what Neovim is told, and
/// whether the session is gone.
#[derive(Debug)]
pub struct StopAnswer {
    pub answer: Result<String, String>,
    pub gone: bool,
}

/// What follows from how stopping a session ended. Only a session that took too
/// long is kept.
pub fn stop_answer(instance_id: usize, outcome: &StopOutcome) -> (r: StopAnswer)
    ensures
        r.gone == (outcome !is TimedOut),
        match outcome {
            StopOutcome::Answered => r.answer matches Ok(text) && text@ == "Debugger instance "@
                + decimal(instance_id as nat) + " failed to stop"@,
            StopOutcome::Refused => r.answer matches Err(text) && text@ == "Debugger instance "@
                + decimal(instance_id as nat) + " stopped"@,
            StopOutcome::TimedOut(why) => r.answer matches Err(text) && text@
                == "Couldn't stop debugger: "@ + why@,
        },
{
    let number = unsigned_text(instance_id as u64);
    match outcome {
        StopOutcome::Answered => StopAnswer {
            answer: Ok(
                "Debugger instance ".to_string().concat(number.as_str()).concat(" failed to stop"),
            ),
            gone: true,
        },
        StopOutcome::Refused => StopAnswer {
            answer: Err("Debugger instance ".to_string().concat(number.as_str()).concat(" stopped")),
            gone: true,
        },
        StopOutcome::TimedOut(why) => StopAnswer {
            answer: Err("Couldn't stop debugger: ".to_string().concat(why.as_str())),
            gone: false,
        },
    }
}

/// A step towards an answer that failed.
#[derive(Clone, Copy, Debug, PartialEq, Eq, Structural)]
pub enum FailedStep {
    Lua,
    NewDebugger,
    Setup,
    Window,
    Cursor,
    Buffer,
    BufferName,
    NoSuchFile,
    PathText,
    Sign,
    RemovePending,
    AddBreakpoint,
    RemoveBreakpoint,
    CodeStep,
    OutputWindow,
}

impl FailedStep {
    /// What stands before the reason.
    pub open spec fn start(self) -> Seq<char> {
        match self {
            FailedStep::Lua => "Lua error: "@,
            FailedStep::NewDebugger => "Can't setup debugger: "@,
            FailedStep::Setup => "Critical error setting up debugger: "@,
            FailedStep::Window => "Couldn't get current window: "@,
            FailedStep::Cursor => "Couldn't get current cursor position: "@,
            FailedStep::Buffer => "Couldn't get current buffer: "@,
            FailedStep::BufferName => "Couldn't get current cursor position: "@,
            FailedStep::NoSuchFile => "Requested to set breakpoints in non-existent file: "@,
            FailedStep::PathText => "Couldn't get file path as string: "@,
            FailedStep::Sign => "Breakpoint sign didn't place: "@,
            FailedStep::RemovePending => "Couldn't remove breakpoint from pending breakpoints: "@,
            FailedStep::AddBreakpoint => "Couldn't set breakpoints: "@,
            FailedStep::RemoveBreakpoint => "Couldn't remove breakpoints: "@,
            FailedStep::CodeStep => "Couldn't do code step: "@,
            FailedStep::OutputWindow => "Couldn't show output window: "@,
        }
    }

    /// What Neovim is told when the step failed for that reason.
    pub fn message(self, reason: &str) -> (r: String)
        ensures
            r@ == self.start() + reason@,
    {
        let start = match self {
            FailedStep::Lua => "Lua error: ",
            FailedStep::NewDebugger => "Can't setup debugger: ",
            FailedStep::Setup => "Critical error setting up debugger: ",
            FailedStep::Window => "Couldn't get current window: ",
            FailedStep::Cursor => "Couldn't get current cursor position: ",
            FailedStep::Buffer => "Couldn't get current buffer: ",
            FailedStep::BufferName => "Couldn't get current cursor position: ",
            FailedStep::NoSuchFile => "Requested to set breakpoints in non-existent file: ",
            FailedStep::PathText => "Couldn't get file path as string: ",
            FailedStep::Sign => "Breakpoint sign didn't place: ",
            FailedStep::RemovePending => "Couldn't remove breakpoint from pending breakpoints: ",
            FailedStep::AddBreakpoint => "Couldn't set breakpoints: ",
            FailedStep::RemoveBreakpoint => "Couldn't remove breakpoints: ",
            FailedStep::CodeStep => "Couldn't do code step: ",
            FailedStep::OutputWindow => "Couldn't show output window: ",
        };
        start.to_string().concat(reason)
    }
}

/// Notes that a breakpoint was placed or taken away, for the sessions to come.
pub fn note_breakpoint(
    pending: &mut Breakpoints,
    adding_breakpoint: bool,
    file_path: String,
    line_number: i64,
) -> (r: Result<(), String>)
    requires
        old(pending).wf(),
        !adding_breakpoint && old(pending)@.contains_key(file_path@) ==> old(
            pending,
        )@[file_path@].contains_key(line_number),
    ensures
        final(pending).wf(),
        adding_breakpoint ==> r is Ok && final(pending)@ == with_pending(
            old(pending)@,
            file_path@,
            line_number,
        ),
        !adding_breakpoint ==> match r {
            Ok(_) => old(pending)@.contains_key(file_path@) && final(pending)@
                == without_breakpoint(old(pending)@, file_path@, line_number),
            Err(e) => !old(pending)@.contains_key(file_path@) && final(pending)@ == old(pending)@
                && e@ == FailedStep::RemovePending.start() + BreakpointError::NoFile(
                file_path,
            ).words(),
        },
{
    if adding_breakpoint {
        let _ = pending.add_pending_breakpoint(file_path, line_number);
        return Ok(());
    }
    match pending.remove_breakpoint(file_path, line_number) {
        Ok(_) => Ok(()),
        Err(e) => {
            let why = e.message();
            Err(FailedStep::RemovePending.message(why.as_str()))
        },
    }
}

/// What Neovim is told when a breakpoint was placed or taken away.
pub fn breakpoint_answer(adding_breakpoint: bool) -> (r: String)
    ensures
        r@ == (if adding_breakpoint {
            "breakpoint set"@
        } else {
            "breakpoint removed"@
        }),
{
    if adding_breakpoint {
        "breakpoint set".to_string()
    } else {
        "breakpoint removed".to_string()
    }
}

/// Whether two launches have the same environment.
pub open spec fn same_environment(a: Launch, b: Launch) -> bool {
    forall|k: Seq<char>|
        #![trigger a.environment_variables@.contains_key(k)]
        #![trigger b.environment_variables@.contains_key(k)]
        a.environment_variables@.contains_key(k) == b.environment_variables@.contains_key(k) && (
        a.environment_variables@.contains_key(k) ==> a.environment_variables@[k]@
            == b.environment_variables@[k]@)
}

/// Whether two launches run the same command with the same arguments.
pub open spec fn same_command(a: Launch, b: Launch) -> bool {
    &&& a.command@ == b.command@
    &&& a.command_args@.len() == b.command_args@.len()
    &&& forall|i: int|
        0 <= i < a.command_args@.len() ==> (#[trigger] a.command_args@[i])@ == b.command_args@[i]@
}

/// Whether two launches use the same adapter, on the same port.
pub open spec fn same_adapter(a: Launch, b: Launch) -> bool {
    text_if_any(a.debugger_type) == text_if_any(b.debugger_type) && text_if_any(a.debugger_port)
        == text_if_any(b.debugger_port)
}

proof fn equal_views(a: Launch, b: Launch)
    ensures
        a.view().environment_variables == b.view().environment_variables ==> same_environment(a, b),
        a.view().command == b.view().command && a.view().command_args == b.view().command_args
            ==> same_command(a, b),
{
    let x = a.view().environment_variables;
    let y = b.view().environment_variables;
    if x == y {
        assert forall|k: Seq<char>|
            #![trigger a.environment_variables@.contains_key(k)]
            a.environment_variables@.contains_key(k) == b.environment_variables@.contains_key(k)
                && (a.environment_variables@.contains_key(k) ==> a.environment_variables@[k]@
                == b.environment_variables@[k]@) by {
            assert(x.contains_key(k) == y.contains_key(k));
            if x.contains_key(k) {
                assert(x[k] == y[k]);
            }
        }
        assert forall|k: Seq<char>|
            #![trigger b.environment_variables@.contains_key(k)]
            a.environment_variables@.contains_key(k) == b.environment_variables@.contains_key(k)
                && (a.environment_variables@.contains_key(k) ==> a.environment_variables@[k]@
                == b.environment_variables@[k]@) by {
            assert(a.environment_variables@.contains_key(k) || true);
        }
    }
    if a.view().command_args == b.view().command_args {
        assert(texts(a.command_args@).len() == texts(b.command_args@).len());
        assert forall|i: int| 0 <= i < a.command_args@.len() implies (#[trigger] a.command_args@[i])@
            == b.command_args@[i]@ by {
            assert(texts(a.command_args@)[i] == texts(b.command_args@)[i]);
        }
    }
}

/// One argument more adds what it says, and what the arguments before it said stays. Up
/// to `--` options are read: the adapter, its port, and that a variable follows. A
/// variable is set to its value. The first text that is none of these is the command, and
/// every further one is an argument of it, in order.
pub proof fn one_argument_more(
    args: &Vec<NvimValue>,
    more: &Vec<NvimValue>,
    text: String,
    before: Launch,
    r: Result<Launch, LaunchError>,
)
    requires
        call_ensures(launch, (args,), Ok(before)),
        call_ensures(launch, (more,), r),
        more@ == args@.push(NvimValue::Str(text)),
    ensures
        text@ == "--"@ ==> (r matches Ok(l) && !l.own_options && l.variable_next
            == before.variable_next && same_command(l, before) && same_environment(l, before)
            && same_adapter(l, before)),
        text@ != "--"@ ==> (r matches Ok(l) ==> l.own_options == before.own_options),
        before.own_options ==> forall|x: Seq<char>|
            #![trigger "-t="@ + x]
            x.len() > 0 && text@ == "-t="@ + x ==> (r matches Ok(l) && (l.debugger_type matches Some(
                t,
            ) && t@ == x) && text_if_any(l.debugger_port) == text_if_any(before.debugger_port)
                && same_command(l, before) && same_environment(l, before)),
        before.own_options ==> forall|x: Seq<char>|
            #![trigger "--debugger-port="@ + x]
            x.len() > 0 && text@ == "--debugger-port="@ + x ==> (r matches Ok(l) && (l.debugger_port
                matches Some(t) && t@ == x) && text_if_any(l.debugger_type) == text_if_any(
                before.debugger_type,
            ) && same_command(l, before) && same_environment(l, before)),
        before.own_options && text@ == "--env"@ ==> (r matches Ok(l) && l.variable_next
            && same_command(l, before) && same_environment(l, before) && same_adapter(l, before)),
        !before.own_options && text@ != "--"@ && !before.variable_next ==> (r matches Ok(l)
            && same_environment(l, before) && same_adapter(l, before) && !l.variable_next && (
        if before.command@.len() == 0 {
            l.command@ == text@ && l.command_args@.len() == before.command_args@.len()
        } else {
            &&& l.command@ == before.command@
            &&& l.command_args@.len() == before.command_args@.len() + 1
            &&& l.command_args@.last()@ == text@
            &&& forall|i: int|
                0 <= i < before.command_args@.len() ==> (#[trigger] l.command_args@[i])@
                    == before.command_args@[i]@
        })),
{
    assert(more@.drop_last() =~= args@);
    assert(more@.last() == NvimValue::Str(text));
    reveal_strlit("--");
    reveal_strlit("-t=");
    reveal_strlit("-e");
    reveal_strlit("--env");
    reveal_strlit("--debugger-port=");
    if let Ok(l) = r {
        equal_views(l, before);
        let a = l.view();
        let b = before.view();
        if !before.own_options && text@ != "--"@ && !before.variable_next && before.command@.len()
            != 0 {
            assert(texts(l.command_args@) == texts(before.command_args@).push(text@));
            assert(texts(l.command_args@).len() == l.command_args@.len());
            assert(texts(before.command_args@).len() == before.command_args@.len());
            assert(texts(l.command_args@)[l.command_args@.len() - 1] == l.command_args@.last()@);
            assert forall|i: int| 0 <= i < before.command_args@.len() implies (
            #[trigger] l.command_args@[i])@ == before.command_args@[i]@ by {
                assert(texts(l.command_args@)[i] == texts(before.command_args@)[i]);
            }
        }
    }
    assert forall|x: Seq<char>|
        #![trigger "-t="@ + x]
        before.own_options && x.len() > 0 && text@ == "-t="@ + x implies (r matches Ok(l) && (
    l.debugger_type matches Some(t) && t@ == x) && text_if_any(l.debugger_port) == text_if_any(
        before.debugger_port,
    ) && same_command(l, before) && same_environment(l, before)) by {
        assert("-t="@.is_prefix_of(text@)) by {
            assert(text@.subrange(0, 3) =~= "-t="@);
        }
        assert(text@.skip(3) =~= x);
        assert(text@[1] == 't');
        assert("--"@[1] == '-');
    }
    assert forall|x: Seq<char>|
        #![trigger "--debugger-port="@ + x]
        before.own_options && x.len() > 0 && text@ == "--debugger-port="@ + x implies (r matches Ok(
        l,
    ) && (l.debugger_port matches Some(t) && t@ == x) && text_if_any(l.debugger_type)
        == text_if_any(before.debugger_type) && same_command(l, before) && same_environment(
        l,
        before,
    )) by {
        assert("--debugger-port="@.is_prefix_of(text@)) by {
            assert(text@.subrange(0, 16) =~= "--debugger-port="@);
        }
        assert(text@.skip(16) =~= x);
        assert(text@[1] == '-');
        assert("-t="@[1] == 't');
        if "-t="@.is_prefix_of(text@) {
            assert(text@.subrange(0, 3)[1] == 't');
        }
    }
    if text@ == "--env"@ {
        assert(text@[1] == '-' && text@[2] == 'e');
        if "-t="@.is_prefix_of(text@) {
            assert(text@.subrange(0, 3)[1] == 't');
        }
        assert("--debugger-port="@.len() == 16);
    }
}

/// Every variable but one is as it was.
pub open spec fn other_variables_stay(l: Launch, before: Launch, key: Seq<char>) -> bool {
    forall|k: Seq<char>|
        k != key ==> #[trigger] l.environment_variables@.contains_key(k)
            == before.environment_variables@.contains_key(k) && (
        before.environment_variables@.contains_key(k) ==> l.environment_variables@[k]@
            == before.environment_variables@[k]@)
}

/// A variable that follows is set to its value, where it has one, and every other variable
/// stays. Where it has none, nothing is launched.
pub proof fn variable_is_set_to_its_value(
    args: &Vec<NvimValue>,
    more: &Vec<NvimValue>,
    text: String,
    key: Seq<char>,
    value: Seq<char>,
    before: Launch,
    r: Result<Launch, LaunchError>,
)
    requires
        call_ensures(launch, (args,), Ok(before)),
        call_ensures(launch, (more,), r),
        more@ == args@.push(NvimValue::Str(text)),
        before.variable_next,
        text@ == key + "="@ + value,
        !key.contains('='),
        !value.contains('='),
        !before.own_options || (key.len() > 0 && key[0] != '-'),
        text@ != "--"@,
    ensures
        r is Ok,
        r matches Ok(l) ==> !l.variable_next && same_command(l, before) && same_adapter(l, before),
        r matches Ok(l) ==> l.environment_variables@.contains_key(key)
            && l.environment_variables@[key]@ == value,
        r matches Ok(l) ==> other_variables_stay(l, before, key),
{
    assert(more@.drop_last() =~= args@);
    assert(more@.last() == NvimValue::Str(text));
    reveal_strlit("--");
    reveal_strlit("-t=");
    reveal_strlit("-e");
    reveal_strlit("--env");
    reveal_strlit("--debugger-port=");
    reveal_strlit("=");
    if before.own_options {
        assert(text@[0] == key[0]);
        assert("-t="@[0] == '-' && "-e"@[0] == '-' && "--debugger-port="@[0] == '-' && "--env"@[0]
            == '-');
        assert(!"-t="@.is_prefix_of(text@));
        assert(!"-e"@.is_prefix_of(text@));
        assert(!"--debugger-port="@.is_prefix_of(text@));
        assert(text@ != "--env"@);
    }
    crate::text::split_in_two(key, value, '=');
    assert(text@ =~= key + seq!['='] + value);
    assert("="@ =~= seq!['=']);
    let parts = split(text@, "="@);
    assert(parts == seq![key, value]);
    assert(parts.len() == 2 && parts[0] == key && parts[1] == value);
    assert(before.view().variable_next);
    assert(with_text(before.view(), text@) is Ok);
    assert(said_by(more@) == with_text(before.view(), text@));
    if let Err(e) = r {
        assert(said_by(more@) == Err::<LaunchView, LaunchError>(e));
        assert(said_by(more@) is Err);
    }
    assert(r is Ok);
    if let Ok(l) = r {
        equal_views(l, before);
        let x = l.view().environment_variables;
        let y = before.view().environment_variables;
        assert(x == y.insert(key, value));
        assert(x.contains_key(key) && x[key] == value);
        assert(l.environment_variables@.contains_key(key));
        assert(x[key] == l.environment_variables@[key]@);
        assert(same_command(l, before));
        assert(same_adapter(l, before));
        assert forall|k: Seq<char>| k != key implies #[trigger] l.environment_variables@
            .contains_key(k) == before.environment_variables@.contains_key(k) && (
        before.environment_variables@.contains_key(k) ==> l.environment_variables@[k]@
            == before.environment_variables@[k]@) by {
            assert(x.contains_key(k) == y.contains_key(k));
            if y.contains_key(k) {
                assert(x[k] == y[k]);
            }
        }
        assert(other_variables_stay(l, before, key));
    }
}

/// The port that is named is the one that is used, where it is a port.
pub proof fn named_port_is_used(l: &Launch, port: u16, r: Result<Option<u16>, IntError>)
    requires
        call_ensures(Launch::port, (l,), r),
    ensures
        l.debugger_port is None ==> r == Ok::<Option<u16>, IntError>(None),
        (l.debugger_port matches Some(text) && text@ == decimal(port as nat)) ==> r == Ok::<
            Option<u16>,
            IntError,
        >(Some(port)),
{
    decimal_read_back(port as nat, u16::MAX as nat);
}

/// Going on is asked for in the way that the request names, of the session that its first
/// argument names, as often as the second says, and once where nothing is said.
pub proof fn step_is_asked_of_its_session(
    name: &str,
    args: Vec<NvimValue>,
    list: Vec<NvimValue>,
    id: usize,
    r: Result<Command, String>,
)
    requires
        call_ensures(handle_request, (name, args), r),
        name@ == "step_in"@ || name@ == "step_over"@,
        args@.len() > 0,
        args@[0] == NvimValue::Array(list),
        list@.len() > 0,
        list@[0].is_text(decimal(id as nat)) || list@[0].is_text(
            seq!['"'] + decimal(id as nat) + seq!['"'],
        ),
        list@.len() > 1 ==> list@[1] is Unsigned,
    ensures
        r matches Ok(Command::Step(way, session, count)) && way == (if name@ == "step_in"@ {
            DebuggerStepType::In
        } else {
            DebuggerStepType::Over
        }) && session == id && count == (if list@.len() > 1 {
            list@[1]->Unsigned_0
        } else {
            1
        }),
{
    names_differ();
    let rest = list@.skip(1);
    assert(seq![list@[0]] + rest =~= list@);
    instance_number_is_read(id, list@[0], rest, true, "Instance id must be usize: "@);
    instance_number_is_read(id, list@[0], rest, true, "Instance id is usize: "@);
}

/// Continuing, stopping and showing a window are asked of the session that is named.
pub proof fn session_is_asked(
    name: &str,
    args: Vec<NvimValue>,
    list: Vec<NvimValue>,
    id: usize,
    r: Result<Command, String>,
)
    requires
        call_ensures(handle_request, (name, args), r),
        args@.len() > 0,
    ensures
        name@ == "continue"@ && args@[0].is_text(decimal(id as nat)) ==> (r matches Ok(
            Command::Step(way, session, count),
        ) && way == DebuggerStepType::Continue && session == id && count == 1),
        name@ == "stop_debugger"@ && args@[0].is_text(decimal(id as nat)) ==> (r matches Ok(
            Command::StopDebugger(session),
        ) && session == id),
        name@ == "output_window"@ && args@[0] == NvimValue::Array(list) && list@.len() > 1
            && list@[0].is_text(decimal(id as nat)) ==> match list@[1] {
            NvimValue::Str(t) => r matches Ok(Command::OutputWindow(session, asked)) && session == id
                && asked@ == t@,
            _ => r is Err,
        },
        name@ == "launch"@ && args@[0] == NvimValue::Array(list) ==> (r matches Ok(Command::Launch(
            all,
        )) && all@ == list@),
{
    names_differ();
    if args@[0].is_text(decimal(id as nat)) {
        let rest = args@.skip(1);
        assert(seq![args@[0]] + rest =~= args@);
        instance_number_is_read(id, args@[0], rest, false, "Instance id is usize: "@);
    }
    if list@.len() > 1 && list@[0].is_text(decimal(id as nat)) {
        let rest = list@.skip(1);
        assert(seq![list@[0]] + rest =~= list@);
        instance_number_is_read(id, list@[0], rest, false, "Instance id is usize: "@);
    }
}

/// What is asked for goes by its name: each name asks for one thing only, and other names
/// ask for nothing.
pub proof fn request_goes_by_its_name(name: &str, args: Vec<NvimValue>, c: Command)
    requires
        call_ensures(handle_request, (name, args), Ok(c)),
    ensures
        match c {
            Command::Ping => name@ == "ping"@,
            Command::Launch(_) => name@ == "launch"@,
            Command::Breakpoint => name@ == "breakpoint"@,
            Command::Step(DebuggerStepType::In, _, _) => name@ == "step_in"@,
            Command::Step(DebuggerStepType::Over, _, _) => name@ == "step_over"@,
            Command::Step(DebuggerStepType::Continue, _, _) => name@ == "continue"@,
            Command::OutputWindow(_, _) => name@ == "output_window"@,
            Command::StopDebugger(_) => name@ == "stop_debugger"@,
        },
{
    names_differ();
}

/// The names of requests are told apart.
proof fn names_differ()
    ensures
        "ping"@ != "launch"@,
        "ping"@ != "breakpoint"@,
        "launch"@ != "breakpoint"@,
        "step_in"@ != "ping"@,
        "step_in"@ != "launch"@,
        "step_in"@ != "breakpoint"@,
        "step_over"@ != "ping"@,
        "step_over"@ != "launch"@,
        "step_over"@ != "breakpoint"@,
        "step_over"@ != "step_in"@,
        "continue"@ != "ping"@,
        "continue"@ != "launch"@,
        "continue"@ != "breakpoint"@,
        "continue"@ != "step_in"@,
        "continue"@ != "step_over"@,
        "output_window"@ != "ping"@,
        "output_window"@ != "launch"@,
        "output_window"@ != "breakpoint"@,
        "output_window"@ != "step_in"@,
        "output_window"@ != "step_over"@,
        "output_window"@ != "continue"@,
        "stop_debugger"@ != "ping"@,
        "stop_debugger"@ != "launch"@,
        "stop_debugger"@ != "breakpoint"@,
        "stop_debugger"@ != "step_in"@,
        "stop_debugger"@ != "step_over"@,
        "stop_debugger"@ != "continue"@,
        "stop_debugger"@ != "output_window"@,
{
    reveal_strlit("ping");
    reveal_strlit("launch");
    reveal_strlit("breakpoint");
    reveal_strlit("step_in");
    reveal_strlit("step_over");
    reveal_strlit("continue");
    reveal_strlit("output_window");
    reveal_strlit("stop_debugger");
    assert("ping"@.len() == 4 && "launch"@.len() == 6 && "breakpoint"@.len() == 10);
    assert("step_in"@.len() == 7 && "step_over"@.len() == 9 && "continue"@.len() == 8);
    assert("output_window"@[0] == 'o' && "stop_debugger"@[0] == 's');
    assert("output_window"@.len() == 13 && "stop_debugger"@.len() == 13);
}

/// A session that stopped or could not be asked is gone; one that took too long is kept.
/// Each session gets a number of its own, one after the other.
pub proof fn sessions_are_numbered_and_kept(
    before: InstanceIds,
    after: InstanceIds,
    id: usize,
    outcome: &StopOutcome,
    r: StopAnswer,
)
    requires
        exists|ids: &mut InstanceIds|
            *ids == before && *final(ids) == after && #[trigger] call_ensures(
                InstanceIds::take,
                (ids,),
                id,
            ),
        call_ensures(stop_answer, (id, outcome), r),
    ensures
        id == before.next,
        before.next < usize::MAX ==> after.next == before.next + 1,
        r.gone <==> !(outcome is TimedOut),
        r.answer is Ok <==> outcome is Answered,
{
}

/// A breakpoint that is placed is noted for the sessions to come, and one that is taken
/// away is not noted any more. No other one changes.
pub proof fn placed_breakpoint_is_noted(
    before: Breakpoints,
    adding: bool,
    file: String,
    line: i64,
    after: Breakpoints,
    r: Result<(), String>,
)
    requires
        exists|b: &mut Breakpoints|
            *b == before && *final(b) == after && #[trigger] call_ensures(
                note_breakpoint,
                (b, adding, file, line),
                r,
            ),
    ensures
        (after@.contains_key(file@) && after@[file@].contains_key(line)) == adding,
        crate::breakpoints::others_stay(before@, after@, file@, line),
        r is Ok <==> adding || before@.contains_key(file@),
{
}

/// The program that was launched is remembered under its debugger, by what it was called
/// with: the command and its arguments, with blanks between them.
pub proof fn launched_program_is_remembered(
    launch: &Launch,
    name: String,
    program: String,
    r: String,
    args: &Vec<String>,
    blank: &str,
    joined: String,
)
    requires
        args@ == launch.command_args@,
        blank@ == " "@,
        call_ensures(join_texts, (args, blank), joined),
        call_ensures(Launch::debugger_name, (launch,), name),
        call_ensures(Launch::debug_program_string, (launch,), program),
        call_ensures(Launch::history_command, (launch,), r),
    ensures
        launch.debugger_type matches Some(t) ==> name@ == t@,
        program@ == launch.command@ + " "@ + joined@,
        r@ == "let g:vadre_last_command[\""@ + name@ + "\"] = \""@ + program@ + "\""@,
{
    let start = "let g:vadre_last_command[\""@ + name@ + "\"] = \""@;
    assert(r@ =~= start + program@ + "\""@);
}

} // verus!
