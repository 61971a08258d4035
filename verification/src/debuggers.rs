//! The debug adapters: their names, where they are kept, how they are had and
//! started, and what they are asked to launch.

use crate::json::{merge_json, merged, Json, JsonView};
use crate::number::{decimal, decimal_int, parse_i64, read_signed, unsigned_text, IntError};
use crate::protocol::{Either, RequestArguments};
use crate::str_map::StrMap;
use crate::text::{chars_of, find_last, last_position, same, string_of, texts};
use vstd::prelude::*;

verus! {

/// The adapters that this client knows how to handle.
#[derive(Clone, Copy, Debug, PartialEq, Eq, Structural)]
pub enum DebuggerType {
    CodeLLDB,
    DebugPy,
    GoDelve,
    DotNet,
    Generic,
}

/// What drives a debugging session: an adapter, or Node itself.
#[derive(Clone, Copy, Debug, PartialEq, Eq, Structural)]
pub enum DebuggerKind {
    Dap(DebuggerType),
    Node,
}

pub const CODELLDB_VERSION: &'static str = "1.10.0";

pub const DEBUGPY_VERSION: &'static str = "1.8.0";

pub const DELVE_VERSION: &'static str = "1.22.1";

pub const NETCOREDBG_VERSION: &'static str = "3.0.0-1012";

/// The adapter for a name.
pub open spec fn adapter_for(name: Seq<char>) -> Option<DebuggerType> {
    if name == "lldb"@ || name == "codelldb"@ {
        Some(DebuggerType::CodeLLDB)
    } else if name == "generic"@ {
        Some(DebuggerType::Generic)
    } else if name == "python"@ || name == "debugpy"@ {
        Some(DebuggerType::DebugPy)
    } else if name == "go"@ || name == "delve"@ {
        Some(DebuggerType::GoDelve)
    } else if name == "dotnet"@ || name == ".net"@ || name == "net"@ {
        Some(DebuggerType::DotNet)
    } else {
        None
    }
}

/// What drives the session for a name.
pub open spec fn kind_for(name: Seq<char>) -> Option<DebuggerKind> {
    match adapter_for(name) {
        Some(t) => Some(DebuggerKind::Dap(t)),
        None => if name == "node"@ || name == "nodejs"@ || name == "js"@ {
            Some(DebuggerKind::Node)
        } else {
            None
        },
    }
}

/// The words for a name that stands for no debugger.
pub open spec fn unknown_debugger(name: Seq<char>) -> Seq<char> {
    "ERROR: Debugger unknown "@ + name
}

/// The adapter for a name.
pub fn new_dap_debugger(debugger_type: &str) -> (r: Result<DebuggerType, String>)
    ensures
        match r {
            Ok(t) => adapter_for(debugger_type@) == Some(t),
            Err(e) => adapter_for(debugger_type@) is None && e@ == unknown_debugger(debugger_type@),
        },
{
    if same(debugger_type, "lldb") || same(debugger_type, "codelldb") {
        Ok(DebuggerType::CodeLLDB)
    } else if same(debugger_type, "generic") {
        Ok(DebuggerType::Generic)
    } else if same(debugger_type, "python") || same(debugger_type, "debugpy") {
        Ok(DebuggerType::DebugPy)
    } else if same(debugger_type, "go") || same(debugger_type, "delve") {
        Ok(DebuggerType::GoDelve)
    } else if same(debugger_type, "dotnet") || same(debugger_type, ".net") || same(
        debugger_type,
        "net",
    ) {
        Ok(DebuggerType::DotNet)
    } else {
        Err("ERROR: Debugger unknown ".to_string().concat(debugger_type))
    }
}

/// What drives the session for a name.
pub fn new_debugger(debugger_type: &str) -> (r: Result<DebuggerKind, String>)
    ensures
        match r {
            Ok(k) => kind_for(debugger_type@) == Some(k),
            Err(e) => kind_for(debugger_type@) is None && e@ == unknown_debugger(debugger_type@),
        },
{
    match new_dap_debugger(debugger_type) {
        Ok(t) => Ok(DebuggerKind::Dap(t)),
        Err(e) => if same(debugger_type, "node") || same(debugger_type, "nodejs") || same(
            debugger_type,
            "js",
        ) {
            Ok(DebuggerKind::Node)
        } else {
            Err(e)
        },
    }
}

/// Why it cannot be told whether a breakpoint is enabled.
#[derive(Clone, Copy, Debug, PartialEq, Eq, Structural)]
pub enum LocationsError {
    NoLocations,
    NotANumber(IntError),
}

impl LocationsError {
    /// The error in words, where it is about this message.
    pub fn message(&self, about: &str) -> (r: String)
        ensures
            r@ == (match *self {
                LocationsError::NoLocations => "Couldn't find Resolved locations message in: "@
                    + about@,
                LocationsError::NotANumber(e) => e.words(),
            }),
    {
        match self {
            LocationsError::NoLocations =>
                "Couldn't find Resolved locations message in: ".to_string().concat(about),
            LocationsError::NotANumber(e) => e.message(),
        }
    }
}

/// What a message about a breakpoint tells: whether the number after its last
/// `Resolved locations: ` is positive.
pub open spec fn locations_resolved(message: Seq<char>) -> Result<bool, LocationsError> {
    let mark = "Resolved locations: "@;
    match find_last(message, mark, message.len() as int) {
        None => Err(LocationsError::NoLocations),
        Some(at) => match read_signed(message.skip(at + mark.len())) {
            Ok(n) => Ok(n > 0),
            Err(e) => Err(LocationsError::NotANumber(e)),
        },
    }
}

/// Whether a message tells that a breakpoint was resolved.
fn check_locations(message: &str) -> (r: Result<bool, LocationsError>)
    ensures
        r == locations_resolved(message@),
{
    let chars = chars_of(message);
    let mark = chars_of("Resolved locations: ");
    match last_position(&chars, &mark) {
        Some(at) => {
            let end: usize = chars.len();
            let start: usize = at + mark.len();
            let number = string_of(&chars, start, end);
            assert(number@ =~= message@.skip(at + mark@.len()));
            match parse_i64(number.as_str()) {
                Ok(n) => Ok(n > 0),
                Err(e) => Err(LocationsError::NotANumber(e)),
            }
        },
        None => Err(LocationsError::NoLocations),
    }
}

impl DebuggerType {
    /// The name by which the adapter is told apart.
    pub open spec fn name(self) -> Seq<char> {
        match self {
            DebuggerType::CodeLLDB => "CodeLLDB"@,
            DebuggerType::DebugPy => "DebugPy"@,
            DebuggerType::GoDelve => "GoDelve"@,
            DebuggerType::DotNet => "DotNet"@,
            DebuggerType::Generic => "Generic"@,
        }
    }

    /// The name by which the adapter is told apart.
    pub fn get_debugger_type_name(&self) -> (r: String)
        ensures
            r@ == self.name(),
    {
        match self {
            DebuggerType::CodeLLDB => "CodeLLDB".to_string(),
            DebuggerType::DebugPy => "DebugPy".to_string(),
            DebuggerType::GoDelve => "GoDelve".to_string(),
            DebuggerType::DotNet => "DotNet".to_string(),
            DebuggerType::Generic => "Generic".to_string(),
        }
    }

    /// What the message about a breakpoint tells of whether it is enabled. Delve
    /// sends a message only about breakpoints that are not.
    pub open spec fn enabled_by(self, message: Seq<char>) -> Result<bool, LocationsError> {
        match self {
            DebuggerType::GoDelve => Ok(false),
            _ => locations_resolved(message),
        }
    }

    /// Whether the message about a breakpoint tells that it is enabled.
    pub fn check_breakpoint_enabled(&self, message: &str) -> (r: Result<bool, LocationsError>)
        ensures
            r == self.enabled_by(message@),
    {
        match self {
            DebuggerType::GoDelve => Ok(false),
            _ => check_locations(message),
        }
    }
}

/// A list of texts, made of the given ones.
fn list(parts: Vec<&str>) -> (r: Vec<String>)
    ensures
        texts(r@) == parts@.map_values(|s: &str| s@),
{
    let mut r: Vec<String> = Vec::new();
    let mut i: usize = 0;
    while i < parts.len()
        invariant
            i <= parts@.len(),
            texts(r@) == parts@.take(i as int).map_values(|s: &str| s@),
        decreases parts@.len() - i,
    {
        let ghost before = texts(r@);
        r.push(parts[i].to_string());
        proof {
            let f = |s: &str| s@;
            assert(texts(r@) =~= before.push(parts@[i as int]@));
            assert(parts@.take(i + 1).map_values(f) =~= parts@.take(i as int).map_values(f).push(
                parts@[i as int]@,
            ));
        }
        i = i + 1;
    }
    assert(parts@.take(i as int) =~= parts@);
    r
}

/// What `Url::parse` makes of a text: the URL in its normal form, or else why it
/// is none.
pub uninterp spec fn normal_url(text: Seq<char>) -> Result<Seq<char>, Seq<char>>;

/// `reqwest::Url::parse` reads a text as an absolute URL and brings it into its
/// normal form, or tells why it cannot, which depends on the text alone.
#[verifier::external_body]
fn parse_url(text: &str) -> (r: Result<String, String>)
    ensures
        match r {
            Ok(url) => normal_url(text@) == Ok::<Seq<char>, Seq<char>>(url@),
            Err(e) => normal_url(text@) == Err::<Seq<char>, Seq<char>>(e@),
        },
{
    match reqwest::Url::parse(text) {
        Ok(url) => Ok(url.to_string()),
        Err(e) => Err(e.to_string()),
    }
}

/// Why there is nothing to download or to start.
#[derive(Debug)]
pub enum AdapterError {
    NeedsCommand,
    NeedsPort(DebuggerType),
    PortNotSupported,
    NoProgram,
    NotAUrl(String),
}

impl AdapterError {
    /// The words for the error.
    pub open spec fn words(self) -> Seq<char> {
        match self {
            AdapterError::NeedsCommand =>
                "Need to specify the command to run generic debugger, try running with `-d=<cmd>\\ <options>` (you need to backslash escape spaces in the command)"@,
            AdapterError::NeedsPort(DebuggerType::CodeLLDB) =>
                "Need to specify a port for CodeLLDB"@,
            AdapterError::NeedsPort(DebuggerType::DebugPy) => "Need to specify a port for DebugPy"@,
            AdapterError::NeedsPort(DebuggerType::GoDelve) =>
                "Need to specify a port for Go Delve debugger"@,
            AdapterError::NeedsPort(_) => "Need to specify a port for netcoredbg"@,
            AdapterError::PortNotSupported => "Doesn't currently support attaching to a port"@,
            AdapterError::NoProgram =>
                "Expected program to have at least one element, but it was empty: []"@,
            AdapterError::NotAUrl(e) => e@,
        }
    }

    /// The error in words.
    pub fn message(&self) -> (r: String)
        ensures
            r@ == self.words(),
    {
        match self {
            AdapterError::NeedsCommand =>
                "Need to specify the command to run generic debugger, try running with `-d=<cmd>\\ <options>` (you need to backslash escape spaces in the command)".to_string(),
            AdapterError::NeedsPort(DebuggerType::CodeLLDB) =>
                "Need to specify a port for CodeLLDB".to_string(),
            AdapterError::NeedsPort(DebuggerType::DebugPy) =>
                "Need to specify a port for DebugPy".to_string(),
            AdapterError::NeedsPort(DebuggerType::GoDelve) =>
                "Need to specify a port for Go Delve debugger".to_string(),
            AdapterError::NeedsPort(_) => "Need to specify a port for netcoredbg".to_string(),
            AdapterError::PortNotSupported =>
                "Doesn't currently support attaching to a port".to_string(),
            AdapterError::NoProgram =>
                "Expected program to have at least one element, but it was empty: []".to_string(),
            AdapterError::NotAUrl(e) => e.clone(),
        }
    }
}

/// What is said to who asks for the download of an adapter of which nothing is
/// known but the command that starts it.
pub const NO_GENERIC_DOWNLOAD: &'static str =
    "Downloading plugin for generic type is not supported, please run with `-d=/path/to/debugger`";

/// Where the release of an adapter is to be had, for an operating system and an
/// architecture.
pub open spec fn release_address(
    t: DebuggerType,
    os: Seq<char>,
    arch: Seq<char>,
) -> Option<Seq<char>> {
    match t {
        DebuggerType::CodeLLDB => Some(
            "https://github.com/vadimcn/vscode-lldb/releases/download/v"@ + CODELLDB_VERSION@
                + "/codelldb-"@ + arch + "-"@ + os + ".vsix"@,
        ),
        DebuggerType::DebugPy => Some(
            "https://github.com/microsoft/debugpy/archive/v"@ + DEBUGPY_VERSION@ + ".zip"@,
        ),
        DebuggerType::GoDelve => Some(
            "https://github.com/go-delve/delve/archive/refs/tags/v"@ + DELVE_VERSION@ + ".zip"@,
        ),
        DebuggerType::DotNet => if os == "windows"@ {
            Some(
                "https://github.com/Samsung/netcoredbg/releases/download/"@ + NETCOREDBG_VERSION@
                    + "/netcoredbg-win64.zip"@,
            )
        } else {
            Some(
                "https://github.com/Samsung/netcoredbg/releases/download/"@ + NETCOREDBG_VERSION@
                    + "/netcoredbg-"@ + os + "-"@ + arch + ".zip"@,
            )
        },
        DebuggerType::Generic => None,
    }
}

/// The names of the directories, below that of all adapters, which hold an
/// adapter once it is downloaded.
pub open spec fn plugin_place(t: DebuggerType) -> Seq<Seq<char>> {
    match t {
        DebuggerType::CodeLLDB => seq!["codelldb"@, CODELLDB_VERSION@],
        DebuggerType::DebugPy => seq!["debugpy"@],
        DebuggerType::GoDelve => seq!["delve"@, "v"@ + DELVE_VERSION@],
        DebuggerType::DotNet => seq!["netcoredbg"@],
        DebuggerType::Generic => Seq::empty(),
    }
}

/// The names of the directories, below that of all adapters, in which an adapter
/// is built.
pub open spec fn build_place(t: DebuggerType) -> Seq<Seq<char>> {
    match t {
        DebuggerType::DebugPy => seq!["debugpy"@, "debugpy-"@ + DEBUGPY_VERSION@],
        DebuggerType::GoDelve => seq![
            "delve"@,
            "v"@ + DELVE_VERSION@,
            "delve-"@ + DELVE_VERSION@,
            "cmd"@,
            "dlv"@,
        ],
        _ => Seq::empty(),
    }
}

/// The names, below the directory of all adapters, that lead to what is started:
/// the program, or for Python the directory of the module.
pub open spec fn program_place(t: DebuggerType, suffix: Seq<char>) -> Seq<Seq<char>> {
    match t {
        DebuggerType::CodeLLDB => seq![
            "codelldb"@,
            CODELLDB_VERSION@,
            "extension"@,
            "adapter"@,
            "codelldb"@ + suffix,
        ],
        DebuggerType::DebugPy => seq![
            "debugpy"@,
            "debugpy-"@ + DEBUGPY_VERSION@,
            "build"@,
            "lib"@,
        ],
        DebuggerType::GoDelve => build_place(t).push("dlv"@ + suffix),
        DebuggerType::DotNet => seq!["netcoredbg"@, "netcoredbg"@ + suffix],
        DebuggerType::Generic => Seq::empty(),
    }
}

/// The arguments with which an adapter is started so that it listens on a port.
pub open spec fn start_arguments(t: DebuggerType, port: u16, log: bool) -> Seq<Seq<char>> {
    let number = decimal(port as nat);
    match t {
        DebuggerType::CodeLLDB => seq!["--port"@, number],
        DebuggerType::DebugPy => {
            let start = seq!["-m"@, "debugpy.adapter"@, "--port"@, number];
            if log {
                start.push("--log-stderr"@)
            } else {
                start
            }
        },
        DebuggerType::GoDelve => {
            let start = seq!["dap"@, "--listen"@, "127.0.0.1:"@ + number];
            if log {
                start.push("--log"@)
            } else {
                start
            }
        },
        DebuggerType::DotNet => seq!["--interpreter=vscode"@],
        DebuggerType::Generic => Seq::empty(),
    }
}

impl DebuggerType {
    /// Where the adapter is to be downloaded from.
    pub fn plugin_url(&self, os: &str, arch: &str) -> (r: Result<String, AdapterError>)
        ensures
            match release_address(*self, os@, arch@) {
                None => r == Err::<String, AdapterError>(AdapterError::NeedsCommand),
                Some(address) => match r {
                    Ok(url) => normal_url(address) == Ok::<Seq<char>, Seq<char>>(url@),
                    Err(e) => e matches AdapterError::NotAUrl(why) && normal_url(address) == Err::<
                        Seq<char>,
                        Seq<char>,
                    >(why@),
                },
            },
    {
        let address = match self {
            DebuggerType::CodeLLDB =>
                "https://github.com/vadimcn/vscode-lldb/releases/download/v".to_string().concat(
                CODELLDB_VERSION,
            ).concat("/codelldb-").concat(arch).concat("-").concat(os).concat(".vsix"),
            DebuggerType::DebugPy =>
                "https://github.com/microsoft/debugpy/archive/v".to_string().concat(
                DEBUGPY_VERSION,
            ).concat(".zip"),
            DebuggerType::GoDelve =>
                "https://github.com/go-delve/delve/archive/refs/tags/v".to_string().concat(
                DELVE_VERSION,
            ).concat(".zip"),
            DebuggerType::DotNet => {
                let start =
                    "https://github.com/Samsung/netcoredbg/releases/download/".to_string().concat(
                    NETCOREDBG_VERSION,
                );
                if same(os, "windows") {
                    start.concat("/netcoredbg-win64.zip")
                } else {
                    start.concat("/netcoredbg-").concat(os).concat("-").concat(arch).concat(".zip")
                }
            },
            DebuggerType::Generic => {
                return Err(AdapterError::NeedsCommand);
            },
        };
        match parse_url(address.as_str()) {
            Ok(url) => Ok(url),
            Err(e) => Err(AdapterError::NotAUrl(e)),
        }
    }

    /// The directories that hold the adapter once it is downloaded.
    pub fn plugin_directories(&self) -> (r: Vec<String>)
        ensures
            texts(r@) == plugin_place(*self),
    {
        let r = match self {
            DebuggerType::CodeLLDB => list(vec!["codelldb", CODELLDB_VERSION]),
            DebuggerType::DebugPy => list(vec!["debugpy"]),
            DebuggerType::GoDelve => {
                let version = "v".to_string().concat(DELVE_VERSION);
                list(vec!["delve", version.as_str()])
            },
            DebuggerType::DotNet => list(vec!["netcoredbg"]),
            DebuggerType::Generic => Vec::new(),
        };
        assert(texts(r@) =~= plugin_place(*self));
        r
    }

    /// The directories in which the adapter is built, none where it is not.
    pub fn build_directories(&self) -> (r: Vec<String>)
        ensures
            texts(r@) == build_place(*self),
    {
        let r = match self {
            DebuggerType::DebugPy => {
                let release = "debugpy-".to_string().concat(DEBUGPY_VERSION);
                list(vec!["debugpy", release.as_str()])
            },
            DebuggerType::GoDelve => {
                let version = "v".to_string().concat(DELVE_VERSION);
                let release = "delve-".to_string().concat(DELVE_VERSION);
                list(vec!["delve", version.as_str(), release.as_str(), "cmd", "dlv"])
            },
            _ => Vec::new(),
        };
        assert(texts(r@) =~= build_place(*self));
        r
    }

    /// The names that lead to what is started.
    pub fn program_path(&self, exe_suffix: &str) -> (r: Vec<String>)
        ensures
            texts(r@) == program_place(*self, exe_suffix@),
    {
        let r = match self {
            DebuggerType::CodeLLDB => {
                let binary = "codelldb".to_string().concat(exe_suffix);
                list(
                    vec!["codelldb", CODELLDB_VERSION, "extension", "adapter", binary.as_str()],
                )
            },
            DebuggerType::DebugPy => {
                let release = "debugpy-".to_string().concat(DEBUGPY_VERSION);
                list(vec!["debugpy", release.as_str(), "build", "lib"])
            },
            DebuggerType::GoDelve => {
                let mut r = self.build_directories();
                let binary = "dlv".to_string().concat(exe_suffix);
                let ghost before = texts(r@);
                r.push(binary);
                assert(texts(r@) =~= before.push("dlv"@ + exe_suffix@));
                r
            },
            DebuggerType::DotNet => {
                let binary = "netcoredbg".to_string().concat(exe_suffix);
                list(vec!["netcoredbg", binary.as_str()])
            },
            DebuggerType::Generic => Vec::new(),
        };
        assert(texts(r@) =~= program_place(*self, exe_suffix@));
        r
    }

    /// The arguments of the command that builds the adapter after the download,
    /// none where it needs no building.
    pub fn build_arguments(&self) -> (r: Vec<String>)
        ensures
            texts(r@) == match *self {
                DebuggerType::DebugPy => seq![
                    "setup.py"@,
                    "build"@,
                    "--build-platlib"@,
                    "build/lib"@,
                ],
                DebuggerType::GoDelve => seq!["build"@, "."@],
                _ => Seq::empty(),
            },
    {
        let r = match self {
            DebuggerType::DebugPy => list(
                vec!["setup.py", "build", "--build-platlib", "build/lib"],
            ),
            DebuggerType::GoDelve => list(vec!["build", "."]),
            _ => Vec::new(),
        };
        assert(texts(r@) =~= match *self {
            DebuggerType::DebugPy => seq!["setup.py"@, "build"@, "--build-platlib"@, "build/lib"@],
            DebuggerType::GoDelve => seq!["build"@, "."@],
            _ => Seq::empty(),
        });
        r
    }

    /// The arguments with which the adapter is started. A command for the generic
    /// adapter has to be given by the user.
    pub fn spawn_arguments(&self, port: Option<u16>, log: bool) -> (r: Result<
        Vec<String>,
        AdapterError,
    >)
        ensures
            match r {
                Ok(args) => *self != DebuggerType::Generic && port is Some && texts(args@)
                    == start_arguments(*self, port->0, log),
                Err(e) => if *self == DebuggerType::Generic {
                    e == AdapterError::NeedsCommand
                } else {
                    port is None && e == AdapterError::NeedsPort(*self)
                },
            },
    {
        if let DebuggerType::Generic = self {
            return Err(AdapterError::NeedsCommand);
        }
        let port: u16 = match port {
            Some(p) => p,
            None => {
                return Err(AdapterError::NeedsPort(*self));
            },
        };
        let number = unsigned_text(port as u64);
        let r = match self {
            DebuggerType::CodeLLDB => list(vec!["--port", number.as_str()]),
            DebuggerType::DebugPy => if log {
                list(vec!["-m", "debugpy.adapter", "--port", number.as_str(), "--log-stderr"])
            } else {
                list(vec!["-m", "debugpy.adapter", "--port", number.as_str()])
            },
            DebuggerType::GoDelve => {
                let address = "127.0.0.1:".to_string().concat(number.as_str());
                if log {
                    list(vec!["dap", "--listen", address.as_str(), "--log"])
                } else {
                    list(vec!["dap", "--listen", address.as_str()])
                }
            },
            DebuggerType::DotNet => list(vec!["--interpreter=vscode"]),
            DebuggerType::Generic => Vec::new(),
        };
        assert(texts(r@) =~= start_arguments(*self, port, log));
        Ok(r)
    }
}

/// The program and its arguments, for an adapter that the user names: it talks
/// over its standard streams, not over a port.
pub fn generic_program(port: Option<u16>, program: Vec<String>) -> (r: Result<
    (String, Vec<String>),
    AdapterError,
>)
    ensures
        match r {
            Ok((command, args)) => port is None && program@ == seq![command] + args@,
            Err(e) => if port is Some {
                e == AdapterError::PortNotSupported
            } else {
                program@.len() == 0 && e == AdapterError::NoProgram
            },
        },
{
    if port.is_some() {
        return Err(AdapterError::PortNotSupported);
    }
    let mut args = program;
    if args.len() == 0 {
        return Err(AdapterError::NoProgram);
    }
    let command = args.remove(0);
    assert(program@ =~= seq![command] + args@);
    Ok((command, args))
}

/// What is told when an adapter is downloaded.
pub fn download_notice(os: &str, arch: &str) -> (r: String)
    ensures
        r@ == "Downloading and extracting "@ + os@ + " plugin for "@ + arch@,
{
    "Downloading and extracting ".to_string().concat(os).concat(" plugin for ").concat(arch)
}

/// Splits what is to be run into the command and its arguments.
pub fn split_command(command_args: Vec<String>) -> (r: Option<(String, Vec<String>)>)
    ensures
        match r {
            Some((command, args)) => command_args@ == seq![command] + args@,
            None => command_args@.len() == 0,
        },
{
    let mut args = command_args;
    if args.len() == 0 {
        return None;
    }
    let command = args.remove(0);
    assert(command_args@ =~= seq![command] + args@);
    Some((command, args))
}

/// What is told when there is nothing to run.
pub const NO_COMMAND: &'static str = "No command to run";

/// What is known of the program to launch: its arguments, the working directory,
/// its environment, and its path in full.
#[derive(Debug)]
pub struct Program {
    pub args: Vec<String>,
    pub cwd: String,
    pub env: StrMap<String>,
    pub path: String,
}

/// What is known of a Go program beyond that.
#[derive(Debug)]
pub struct GoFacts {
    pub go_path: String,
    pub executable: bool,
    pub tool_path: String,
}

/// An array of texts.
pub open spec fn json_texts(list: Seq<Seq<char>>) -> JsonView {
    JsonView::Array(list.map_values(|s: Seq<char>| JsonView::Str(s)))
}

/// An object with texts.
pub open spec fn json_env(env: Map<Seq<char>, String>) -> JsonView {
    JsonView::Object(env.map_values(|s: String| JsonView::Str(s@)))
}

/// Whether a request asks to launch what `j` describes.
pub open spec fn launches(r: RequestArguments, j: JsonView) -> bool {
    r matches RequestArguments::launch(Either::Second(x)) && x.wf() && x.view() == j
}

impl Program {
    /// The environment is kept in order.
    pub open spec fn wf(self) -> bool {
        self.env.wf()
    }

    /// What LLDB is asked to launch.
    pub fn codelldb_request(&self) -> (r: RequestArguments)
        requires
            self.wf(),
        ensures
            launches(r, codelldb_launch(*self)),
    {
        RequestArguments::launch(
            Either::Second(
                Json::object().with("args", Json::text_list(&self.args)).with(
                    "cargo",
                    Json::object(),
                ).with("cwd", Json::text(self.cwd.as_str())).with(
                    "env",
                    Json::text_map(&self.env),
                ).with("name", Json::text("lldb")).with("terminal", Json::text("integrated")).with(
                    "type",
                    Json::text("lldb"),
                ).with("request", Json::text("launch")).with(
                    "program",
                    Json::text(self.path.as_str()),
                ),
            ),
        )
    }

    /// What debugpy is asked to launch.
    pub fn debugpy_request(&self) -> (r: RequestArguments)
        requires
            self.wf(),
        ensures
            launches(r, debugpy_launch(*self)),
    {
        RequestArguments::launch(
            Either::Second(
                Json::object().with("args", Json::text_list(&self.args)).with(
                    "cwd",
                    Json::text(self.cwd.as_str()),
                ).with("env", Json::text_map(&self.env)).with("name", Json::text("debugpy")).with(
                    "console",
                    Json::text("integratedTerminal"),
                ).with("type", Json::text("debugpy")).with("request", Json::text("launch")).with(
                    "program",
                    Json::text(self.path.as_str()),
                ).with("stopOnEntry", Json::Bool(true)),
            ),
        )
    }

    /// What an adapter of that name is asked to launch in a terminal.
    fn terminal_request(&self, name: &str) -> (r: RequestArguments)
        requires
            self.wf(),
        ensures
            launches(r, terminal_launch(*self, name@)),
    {
        RequestArguments::launch(
            Either::Second(
                Json::object().with("args", Json::text_list(&self.args)).with(
                    "cwd",
                    Json::text(self.cwd.as_str()),
                ).with("env", Json::text_map(&self.env)).with("name", Json::text(name)).with(
                    "terminal",
                    Json::text("integrated"),
                ).with("type", Json::text(name)).with("request", Json::text("launch")).with(
                    "program",
                    Json::text(self.path.as_str()),
                ),
            ),
        )
    }

    /// What netcoredbg is asked to launch.
    pub fn dotnet_request(&self) -> (r: RequestArguments)
        requires
            self.wf(),
        ensures
            launches(r, terminal_launch(*self, "netcoredbg"@)),
    {
        self.terminal_request("netcoredbg")
    }

    /// What an adapter that the user named is asked to launch.
    pub fn generic_request(&self) -> (r: RequestArguments)
        requires
            self.wf(),
        ensures
            launches(r, terminal_launch(*self, "dap"@)),
    {
        self.terminal_request("dap")
    }

    /// What an adapter that the user named is asked to launch, where it goes by
    /// the name of the program.
    pub fn named_request(&self, program_name: &str) -> (r: RequestArguments)
        requires
            self.wf(),
        ensures
            launches(r, named_launch(*self, program_name@)),
    {
        RequestArguments::launch(
            Either::Second(
                Json::object().with("args", Json::text_list(&self.args)).with(
                    "cwd",
                    Json::text(self.cwd.as_str()),
                ).with("env", Json::text_map(&self.env)).with(
                    "name",
                    Json::text(program_name),
                ).with("type", Json::text(program_name)).with(
                    "request",
                    Json::text("launch"),
                ).with("program", Json::text(self.path.as_str())),
            ),
        )
    }

    /// What Delve is asked to launch. The environment of the program is laid over
    /// one that has the Go path.
    pub fn delve_request(&self, go: &GoFacts) -> (r: RequestArguments)
        requires
            self.wf(),
        ensures
            launches(r, delve_launch(*self, *go)),
    {
        let mut env = Json::object().with("GOPATH", Json::text(go.go_path.as_str()));
        merge_json(&mut env, Json::text_map(&self.env));
        let mode = if go.executable {
            "exec"
        } else {
            "auto"
        };
        let no_flags: Vec<String> = Vec::new();
        let flags = Json::text_list(&no_flags);
        assert(texts(no_flags@) =~= Seq::<Seq<char>>::empty());
        RequestArguments::launch(
            Either::Second(
                Json::object().with("args", Json::text_list(&self.args)).with(
                    "cwd",
                    Json::text(self.cwd.as_str()),
                ).with("debugAdapter", Json::text("dlv-dap")).with("dlvFlags", flags).with(
                    "dlvToolPath",
                    Json::text(go.tool_path.as_str()),
                ).with("env", env).with("mode", Json::text(mode)).with(
                    "name",
                    Json::text("delve"),
                ).with("program", Json::text(self.path.as_str())).with(
                    "request",
                    Json::text("launch"),
                ).with("type", Json::text("go")),
            ),
        )
    }
}

/// What LLDB is asked to launch.
pub open spec fn codelldb_launch(p: Program) -> JsonView {
    JsonView::Object(
        map![
            "args"@ => json_texts(texts(p.args@)),
            "cargo"@ => JsonView::Object(Map::empty()),
            "cwd"@ => JsonView::Str(p.cwd@),
            "env"@ => json_env(p.env@),
            "name"@ => JsonView::Str("lldb"@),
            "terminal"@ => JsonView::Str("integrated"@),
            "type"@ => JsonView::Str("lldb"@),
            "request"@ => JsonView::Str("launch"@),
            "program"@ => JsonView::Str(p.path@),
        ],
    )
}

/// What debugpy is asked to launch.
pub open spec fn debugpy_launch(p: Program) -> JsonView {
    JsonView::Object(
        map![
            "args"@ => json_texts(texts(p.args@)),
            "cwd"@ => JsonView::Str(p.cwd@),
            "env"@ => json_env(p.env@),
            "name"@ => JsonView::Str("debugpy"@),
            "console"@ => JsonView::Str("integratedTerminal"@),
            "type"@ => JsonView::Str("debugpy"@),
            "request"@ => JsonView::Str("launch"@),
            "program"@ => JsonView::Str(p.path@),
            "stopOnEntry"@ => JsonView::Bool(true),
        ],
    )
}

/// What an adapter that goes by the name of the program is asked to launch.
pub open spec fn named_launch(p: Program, program_name: Seq<char>) -> JsonView {
    JsonView::Object(
        map![
            "args"@ => json_texts(texts(p.args@)),
            "cwd"@ => JsonView::Str(p.cwd@),
            "env"@ => json_env(p.env@),
            "name"@ => JsonView::Str(program_name),
            "type"@ => JsonView::Str(program_name),
            "request"@ => JsonView::Str("launch"@),
            "program"@ => JsonView::Str(p.path@),
        ],
    )
}

/// What Delve is asked to launch. The environment of the program is laid over one
/// that has the Go path.
pub open spec fn delve_launch(p: Program, go: GoFacts) -> JsonView {
    JsonView::Object(
        map![
            "args"@ => json_texts(texts(p.args@)),
            "cwd"@ => JsonView::Str(p.cwd@),
            "debugAdapter"@ => JsonView::Str("dlv-dap"@),
            "dlvFlags"@ => json_texts(Seq::empty()),
            "dlvToolPath"@ => JsonView::Str(go.tool_path@),
            "env"@ => merged(
                JsonView::Object(map!["GOPATH"@ => JsonView::Str(go.go_path@)]),
                json_env(p.env@),
            ),
            "mode"@ => JsonView::Str(
                if go.executable {
                    "exec"@
                } else {
                    "auto"@
                },
            ),
            "name"@ => JsonView::Str("delve"@),
            "program"@ => JsonView::Str(p.path@),
            "request"@ => JsonView::Str("launch"@),
            "type"@ => JsonView::Str("go"@),
        ],
    )
}

/// What an adapter of that name is asked to launch in a terminal.
pub open spec fn terminal_launch(p: Program, name: Seq<char>) -> JsonView {
    JsonView::Object(
        map![
            "args"@ => json_texts(texts(p.args@)),
            "cwd"@ => JsonView::Str(p.cwd@),
            "env"@ => json_env(p.env@),
            "name"@ => JsonView::Str(name),
            "terminal"@ => JsonView::Str("integrated"@),
            "type"@ => JsonView::Str(name),
            "request"@ => JsonView::Str("launch"@),
            "program"@ => JsonView::Str(p.path@),
        ],
    )
}

/// What has to be known beyond the program to launch it, and is not.
#[derive(Clone, Copy, Debug, PartialEq, Eq, Structural)]
pub enum MissingFact {
    ProgramName,
    Go,
}

/// What an adapter is asked to launch, with what is known of the program.
pub open spec fn launch_asked(
    t: DebuggerType,
    p: Program,
    program_name: Option<Seq<char>>,
    go: Option<GoFacts>,
) -> Result<JsonView, MissingFact> {
    match t {
        DebuggerType::CodeLLDB => Ok(codelldb_launch(p)),
        DebuggerType::DebugPy => Ok(debugpy_launch(p)),
        DebuggerType::DotNet => Ok(terminal_launch(p, "netcoredbg"@)),
        DebuggerType::Generic => match program_name {
            Some(name) => Ok(named_launch(p, name)),
            None => Err(MissingFact::ProgramName),
        },
        DebuggerType::GoDelve => match go {
            Some(facts) => Ok(delve_launch(p, facts)),
            None => Err(MissingFact::Go),
        },
    }
}

impl DebuggerType {
    /// The request that launches a program. An adapter that the user named goes by
    /// the name of the program, and Delve has to know more.
    pub fn get_launch_request(
        &self,
        program: &Program,
        program_name: Option<&str>,
        go: Option<&GoFacts>,
    ) -> (r: Result<RequestArguments, MissingFact>)
        requires
            program.wf(),
        ensures
            ({
                let name = match program_name {
                    Some(s) => Some(s@),
                    None => None,
                };
                let facts = match go {
                    Some(g) => Some(*g),
                    None => None,
                };
                match launch_asked(*self, *program, name, facts) {
                    Ok(j) => r matches Ok(request) && launches(request, j),
                    Err(e) => r == Err::<RequestArguments, MissingFact>(e),
                }
            }),
    {
        match self {
            DebuggerType::CodeLLDB => Ok(program.codelldb_request()),
            DebuggerType::DebugPy => Ok(program.debugpy_request()),
            DebuggerType::DotNet => Ok(program.dotnet_request()),
            DebuggerType::Generic => match program_name {
                Some(name) => Ok(program.named_request(name)),
                None => Err(MissingFact::ProgramName),
            },
            DebuggerType::GoDelve => match go {
                Some(facts) => Ok(program.delve_request(facts)),
                None => Err(MissingFact::Go),
            },
        }
    }
}

impl DebuggerType {
    /// Whether the program runs in a terminal of Neovim: the adapter is asked for
    /// that when it launches the program, and not when it attaches to one.
    pub fn is_integrated_terminal(&self, attaching: bool) -> (r: bool)
        ensures
            r == (!attaching && (self is CodeLLDB || self is DebugPy || self is DotNet)),
    {
        match self {
            DebuggerType::CodeLLDB | DebuggerType::DebugPy | DebuggerType::DotNet => !attaching,
            DebuggerType::GoDelve | DebuggerType::Generic => false,
        }
    }
}

/// An adapter is asked to run the program in a terminal of Neovim exactly where
/// that is expected of it.
pub proof fn terminal_is_asked_for(t: DebuggerType, p: Program, name: Seq<char>, go: GoFacts)
    ensures
        launch_asked(t, p, Some(name), Some(go)) matches Ok(j) && (t is CodeLLDB || t is DebugPy
            || t is DotNet) == (j.member("terminal"@) == JsonView::Str("integrated"@) || j.member(
            "console"@,
        ) == JsonView::Str("integratedTerminal"@)),
{
    reveal_strlit("terminal");
    reveal_strlit("console");
    reveal_strlit("args");
    reveal_strlit("cargo");
    reveal_strlit("cwd");
    reveal_strlit("env");
    reveal_strlit("name");
    reveal_strlit("type");
    reveal_strlit("request");
    reveal_strlit("program");
    reveal_strlit("stopOnEntry");
    reveal_strlit("debugAdapter");
    reveal_strlit("dlvFlags");
    reveal_strlit("dlvToolPath");
    reveal_strlit("mode");
    let terminal = "terminal"@;
    let console = "console"@;
    assert(terminal[0] == 't' && terminal[1] == 'e' && console[0] == 'c' && console[1] == 'o');
    assert("type"@[1] == 'y' && "cargo"@[1] == 'a' && "cwd"@[1] == 'w');
    assert("args"@[0] == 'a' && "env"@[0] == 'e' && "name"@[0] == 'n' && "request"@[0] == 'r');
    assert("program"@[0] == 'p' && "stopOnEntry"@[0] == 's' && "debugAdapter"@[0] == 'd');
    assert("dlvFlags"@[0] == 'd' && "dlvToolPath"@[0] == 'd' && "mode"@[0] == 'm');
}

/// The request to attach to a running process.
pub fn get_attach_request(pid: i64) -> (r: RequestArguments)
    ensures
        r matches RequestArguments::attach(j) && j.wf() && j.view() == JsonView::Object(
            map!["pid"@ => JsonView::Int(pid as int)],
        ),
{
    RequestArguments::attach(Json::object().with("pid", Json::integer(pid)))
}

/// The keys of what an adapter is asked to launch are told apart.
pub(crate) proof fn launch_keys_differ()
    ensures
        "args"@ != "cargo"@,
        "args"@ != "name"@,
        "args"@ != "terminal"@,
        "args"@ != "type"@,
        "args"@ != "console"@,
        "args"@ != "stopOnEntry"@,
        "args"@ != "debugAdapter"@,
        "args"@ != "dlvFlags"@,
        "args"@ != "dlvToolPath"@,
        "args"@ != "mode"@,
        "cwd"@ != "cargo"@,
        "cwd"@ != "name"@,
        "cwd"@ != "terminal"@,
        "cwd"@ != "type"@,
        "cwd"@ != "console"@,
        "cwd"@ != "stopOnEntry"@,
        "cwd"@ != "debugAdapter"@,
        "cwd"@ != "dlvFlags"@,
        "cwd"@ != "dlvToolPath"@,
        "cwd"@ != "mode"@,
        "env"@ != "cargo"@,
        "env"@ != "name"@,
        "env"@ != "terminal"@,
        "env"@ != "type"@,
        "env"@ != "console"@,
        "env"@ != "stopOnEntry"@,
        "env"@ != "debugAdapter"@,
        "env"@ != "dlvFlags"@,
        "env"@ != "dlvToolPath"@,
        "env"@ != "mode"@,
        "request"@ != "cargo"@,
        "request"@ != "name"@,
        "request"@ != "terminal"@,
        "request"@ != "type"@,
        "request"@ != "console"@,
        "request"@ != "stopOnEntry"@,
        "request"@ != "debugAdapter"@,
        "request"@ != "dlvFlags"@,
        "request"@ != "dlvToolPath"@,
        "request"@ != "mode"@,
        "program"@ != "cargo"@,
        "program"@ != "name"@,
        "program"@ != "terminal"@,
        "program"@ != "type"@,
        "program"@ != "console"@,
        "program"@ != "stopOnEntry"@,
        "program"@ != "debugAdapter"@,
        "program"@ != "dlvFlags"@,
        "program"@ != "dlvToolPath"@,
        "program"@ != "mode"@,
        "args"@ != "cwd"@,
        "args"@ != "env"@,
        "args"@ != "request"@,
        "args"@ != "program"@,
        "cwd"@ != "env"@,
        "cwd"@ != "request"@,
        "cwd"@ != "program"@,
        "env"@ != "request"@,
        "env"@ != "program"@,
        "request"@ != "program"@,
{
    reveal_strlit("terminal");
    reveal_strlit("console");
    reveal_strlit("args");
    reveal_strlit("cargo");
    reveal_strlit("cwd");
    reveal_strlit("env");
    reveal_strlit("name");
    reveal_strlit("type");
    reveal_strlit("request");
    reveal_strlit("program");
    reveal_strlit("stopOnEntry");
    reveal_strlit("debugAdapter");
    reveal_strlit("dlvFlags");
    reveal_strlit("dlvToolPath");
    reveal_strlit("mode");
    assert("cwd"@.len() == 3 && "cargo"@.len() == 5 && "name"@.len() == 4 && "terminal"@.len() == 8);
    assert("type"@.len() == 4 && "console"@.len() == 7);
    assert("args"@[0] == 'a' && "cwd"@[0] == 'c' && "env"@[0] == 'e' && "request"@[0] == 'r'
        && "program"@[0] == 'p');
    assert("name"@[0] == 'n' && "type"@[0] == 't' && "mode"@[0] == 'm' && "console"@[0] == 'c');
}

/// Whether a request launches a program: with all its arguments, in order, each by
/// itself, in its directory, and by its path.
pub open spec fn launches_program(r: RequestArguments, p: Program) -> bool {
    &&& r matches RequestArguments::launch(Either::Second(x))
    &&& x.view() matches JsonView::Object(o)
    &&& o.contains_key("args"@)
    &&& o["args"@] matches JsonView::Array(items)
    &&& items.len() == p.args@.len()
    &&& forall|i: int|
        #![trigger p.args@[i]]
        0 <= i < p.args@.len() ==> items[i] == JsonView::Str(p.args@[i]@)
    &&& o.contains_key("cwd"@) && o["cwd"@] == JsonView::Str(p.cwd@)
    &&& o.contains_key("program"@) && o["program"@] == JsonView::Str(p.path@)
    &&& o.contains_key("request"@) && o["request"@] == JsonView::Str("launch"@)
}

/// Whether a request launches a program in its environment: each variable has its value,
/// and beyond them there are at most those of `more`.
pub open spec fn launches_in(
    r: RequestArguments,
    env: Map<Seq<char>, String>,
    more: Map<Seq<char>, Seq<char>>,
) -> bool {
    &&& r matches RequestArguments::launch(Either::Second(x))
    &&& x.view() matches JsonView::Object(o)
    &&& o.contains_key("env"@)
    &&& o["env"@] matches JsonView::Object(e)
    &&& forall|k: Seq<char>| #[trigger]
        e.contains_key(k) <==> env.contains_key(k) || more.contains_key(k)
    &&& forall|k: Seq<char>| #[trigger]
        env.contains_key(k) ==> e[k] == JsonView::Str(env[k]@)
    &&& forall|k: Seq<char>| #[trigger]
        more.contains_key(k) && !env.contains_key(k) ==> e[k] == JsonView::Str(more[k])
}

/// The arguments of a program stand in an array, each by itself.
pub(crate) proof fn launched_arguments(p: Program)
    ensures
        json_texts(texts(p.args@)) matches JsonView::Array(items) && items.len() == p.args@.len()
            && forall|i: int|
            #![trigger p.args@[i]]
            0 <= i < p.args@.len() ==> items[i] == JsonView::Str(p.args@[i]@),
{
    assert forall|i: int|
        #![trigger p.args@[i]]
        0 <= i < p.args@.len() implies json_texts(texts(p.args@))->Array_0[i] == JsonView::Str(
        p.args@[i]@,
    ) by {
        assert(texts(p.args@)[i] == p.args@[i]@);
    }
}

proof fn delve_environment(p: Program, go: GoFacts)
    ensures
        ({
            let path = map!["GOPATH"@ => JsonView::Str(go.go_path@)];
            &&& merged(JsonView::Object(path), json_env(p.env@)) matches JsonView::Object(e)
            &&& forall|k: Seq<char>| #[trigger]
                e.contains_key(k) <==> p.env@.contains_key(k) || k == "GOPATH"@
            &&& forall|k: Seq<char>| #[trigger]
                p.env@.contains_key(k) ==> e[k] == JsonView::Str(p.env@[k]@)
            &&& !p.env@.contains_key("GOPATH"@) ==> e["GOPATH"@] == JsonView::Str(go.go_path@)
        }),
{
    reveal_with_fuel(merged, 2);
}

/// Whatever the adapter, it is asked to launch the program with its arguments, in its
/// directory and its environment. For Delve the environment also has the Go path, unless
/// the program sets it.
pub proof fn program_is_launched_with_its_arguments(
    t: &DebuggerType,
    p: &Program,
    program_name: Option<&str>,
    go: Option<&GoFacts>,
    r: RequestArguments,
)
    requires
        p.wf(),
        call_ensures(DebuggerType::get_launch_request, (t, p, program_name, go), Ok(r)),
    ensures
        launches_program(r, *p),
        !(t is GoDelve) ==> launches_in(r, p.env@, Map::empty()),
        t is GoDelve ==> go is Some && launches_in(
            r,
            p.env@,
            map!["GOPATH"@ => go->0.go_path@],
        ),
{
    launch_keys_differ();
    launched_arguments(*p);
    if t is GoDelve {
        delve_environment(*p, *go->0);
    }
    let asked = match r {
        RequestArguments::launch(Either::Second(x)) => x.view()->Object_0,
        _ => Map::empty(),
    };
    assert(asked["args"@] == json_texts(texts(p.args@)));
}

/// A program is launched by every adapter for which all is known that it has to know.
pub proof fn program_is_launched(
    t: &DebuggerType,
    p: &Program,
    program_name: Option<&str>,
    go: Option<&GoFacts>,
    r: Result<RequestArguments, MissingFact>,
)
    requires
        p.wf(),
        call_ensures(DebuggerType::get_launch_request, (t, p, program_name, go), r),
    ensures
        match r {
            Ok(_) => (t is Generic ==> program_name is Some) && (t is GoDelve ==> go is Some),
            Err(MissingFact::ProgramName) => t is Generic && program_name is None,
            Err(MissingFact::Go) => t is GoDelve && go is None,
        },
{
}

/// Each adapter's own request launches the program with its arguments, in its directory
/// and its environment.
pub proof fn every_request_launches_the_program(
    p: &Program,
    name: &str,
    go: &GoFacts,
    codelldb: RequestArguments,
    debugpy: RequestArguments,
    dotnet: RequestArguments,
    generic: RequestArguments,
    named: RequestArguments,
    delve: RequestArguments,
)
    requires
        p.wf(),
        call_ensures(Program::codelldb_request, (p,), codelldb),
        call_ensures(Program::debugpy_request, (p,), debugpy),
        call_ensures(Program::dotnet_request, (p,), dotnet),
        call_ensures(Program::generic_request, (p,), generic),
        call_ensures(Program::named_request, (p, name), named),
        call_ensures(Program::delve_request, (p, go), delve),
    ensures
        launches_program(codelldb, *p) && launches_in(codelldb, p.env@, Map::empty()),
        launches_program(debugpy, *p) && launches_in(debugpy, p.env@, Map::empty()),
        launches_program(dotnet, *p) && launches_in(dotnet, p.env@, Map::empty()),
        launches_program(generic, *p) && launches_in(generic, p.env@, Map::empty()),
        launches_program(named, *p) && launches_in(named, p.env@, Map::empty()),
        launches_program(delve, *p) && launches_in(
            delve,
            p.env@,
            map!["GOPATH"@ => go.go_path@],
        ),
{
    launch_keys_differ();
    launched_arguments(*p);
    delve_environment(*p, *go);
}

/// A process is attached to by its own number.
pub proof fn process_is_attached_to(pid: i64, r: RequestArguments)
    requires
        call_ensures(get_attach_request, (pid,), r),
    ensures
        r matches RequestArguments::attach(x) && (x.view() matches JsonView::Object(o)
            && o.contains_key("pid"@) && o["pid"@] == JsonView::Int(pid as int)),
{
}

/// What is to be run is split into the command, which stands first, and its arguments in
/// order.
pub proof fn command_stands_first(
    words: Vec<String>,
    r: Option<(String, Vec<String>)>,
    s: Result<(String, Vec<String>), AdapterError>,
)
    requires
        call_ensures(split_command, (words,), r),
        call_ensures(generic_program, (None::<u16>, words), s),
        words@.len() > 0,
    ensures
        r matches Some((command, args)) && command == words@[0] && args@.len() == words@.len() - 1
            && forall|i: int| 0 <= i < args@.len() ==> #[trigger] args@[i] == words@[i + 1],
        s matches Ok((command, args)) && command == words@[0] && args@.len() == words@.len() - 1
            && forall|i: int| 0 <= i < args@.len() ==> #[trigger] args@[i] == words@[i + 1],
{
    if let Some((command, args)) = r {
        assert((seq![command] + args@)[0] == command);
        assert forall|i: int| 0 <= i < args@.len() implies #[trigger] args@[i] == words@[i + 1] by {
            assert((seq![command] + args@)[i + 1] == args@[i]);
        }
    }
    if let Ok((command, args)) = s {
        assert((seq![command] + args@)[0] == command);
        assert forall|i: int| 0 <= i < args@.len() implies #[trigger] args@[i] == words@[i + 1] by {
            assert((seq![command] + args@)[i + 1] == args@[i]);
        }
    }
}

/// An adapter that talks over a port is started on the port that is given. More is
/// logged only where that is asked for.
pub proof fn adapter_listens_on_the_port(
    t: &DebuggerType,
    port: u16,
    log: bool,
    r: Result<Vec<String>, AdapterError>,
)
    requires
        call_ensures(DebuggerType::spawn_arguments, (t, Some(port), log), r),
    ensures
        r is Ok <==> !(t is Generic),
        r matches Ok(args) ==> match *t {
            DebuggerType::CodeLLDB => args@.len() == 2 && args@[0]@ == "--port"@ && args@[1]@
                == decimal(port as nat),
            DebuggerType::DebugPy => args@.len() == (if log {
                5int
            } else {
                4int
            }) && args@[2]@ == "--port"@ && args@[3]@ == decimal(port as nat),
            DebuggerType::GoDelve => args@.len() == (if log {
                4int
            } else {
                3int
            }) && args@[1]@ == "--listen"@ && args@[2]@ == "127.0.0.1:"@ + decimal(port as nat),
            _ => args@.len() == 1,
        },
{
    if let Ok(args) = r {
        assert(texts(args@) == start_arguments(*t, port, log));
        assert forall|i: int| 0 <= i < args@.len() implies (#[trigger] args@[i])@
            == start_arguments(*t, port, log)[i] by {
            assert(texts(args@)[i] == args@[i]@);
        }
        assert(args@.len() == texts(args@).len());
    }
}

/// What is built and what is started lies below the directory to which the adapter was
/// downloaded, and what is started ends as programs do on the system.
pub proof fn program_lies_in_the_download(
    t: &DebuggerType,
    suffix: &str,
    downloaded: Vec<String>,
    built: Vec<String>,
    program: Vec<String>,
)
    requires
        call_ensures(DebuggerType::plugin_directories, (t,), downloaded),
        call_ensures(DebuggerType::build_directories, (t,), built),
        call_ensures(DebuggerType::program_path, (t, suffix), program),
    ensures
        texts(downloaded@).is_prefix_of(texts(program@)),
        built@.len() > 0 ==> texts(downloaded@).is_prefix_of(texts(built@)) && texts(built@)
            .is_prefix_of(texts(program@)),
        t is GoDelve ==> program@.len() == built@.len() + 1,
        t is CodeLLDB || t is GoDelve || t is DotNet ==> program@.len() > 0 && (exists|
            stem: Seq<char>,
        | #[trigger] texts(program@).last() == stem + suffix@),
{
    let stem = match *t {
        DebuggerType::CodeLLDB => "codelldb"@,
        DebuggerType::GoDelve => "dlv"@,
        _ => "netcoredbg"@,
    };
    if t is CodeLLDB || t is GoDelve || t is DotNet {
        assert(texts(program@).last() == stem + suffix@);
    }
    let d = texts(downloaded@);
    let b = texts(built@);
    let p = texts(program@);
    assert(d =~= p.subrange(0, d.len() as int));
    if built@.len() > 0 {
        assert(b.len() == built@.len());
        assert(d =~= b.subrange(0, d.len() as int));
        assert(b =~= p.subrange(0, b.len() as int));
    }
}

proof fn mark_stands_last(prefix: Seq<char>, tail: Seq<char>, from: int)
    requires
        prefix.len() <= from,
        forall|i: int| 0 <= i < tail.len() ==> #[trigger] tail[i] != 'R',
    ensures
        find_last(
            prefix + "Resolved locations: "@ + tail,
            "Resolved locations: "@,
            from,
        ) == Some(prefix.len() as int),
    decreases from,
{
    reveal_strlit("Resolved locations: ");
    let mark = "Resolved locations: "@;
    let s = prefix + mark + tail;
    if from == prefix.len() {
        assert(s.subrange(from, from + mark.len()) =~= mark);
    } else {
        if crate::text::stands_at(s, mark, from) {
            assert(s.subrange(from, from + mark.len())[0] == 'R');
            assert(s[from] == 'R');
            if from < prefix.len() + mark.len() {
                assert(s[from] == mark[from - prefix.len()]);
            } else {
                assert(s[from] == tail[from - prefix.len() - mark.len()]);
            }
        }
        mark_stands_last(prefix, tail, from - 1);
    }
}

/// A breakpoint is enabled where its message ends in a positive number of locations at
/// which it was resolved, whatever stands before that, and not where the number is
/// nought. Delve sends messages only about those that are not.
pub proof fn resolved_locations_enable(
    t: &DebuggerType,
    before: Seq<char>,
    n: i64,
    message: &str,
    r: Result<bool, LocationsError>,
)
    requires
        message@ == before + "Resolved locations: "@ + decimal_int(n as int),
        call_ensures(DebuggerType::check_breakpoint_enabled, (t, message), r),
    ensures
        r == Ok::<bool, LocationsError>(n > 0 && !(t is GoDelve)),
{
    let tail = decimal_int(n as int);
    let mark = "Resolved locations: "@;
    crate::number::decimal_int_read_back(n as int);
    crate::number::decimal_is_digits(if n < 0 {
        -n
    } else {
        n as int
    } as nat);
    assert forall|i: int| 0 <= i < tail.len() implies #[trigger] tail[i] != 'R' by {}
    mark_stands_last(before, tail, message@.len() as int);
    assert(message@.skip((before.len() + mark.len()) as int) =~= tail);
}

/// The adapters go by the names of the languages and by their own, and Node by its names,
/// which none of the adapters has. Every other name is told as unknown.
pub proof fn debuggers_go_by_their_names(
    name: &str,
    adapter: Result<DebuggerType, String>,
    kind: Result<DebuggerKind, String>,
)
    requires
        call_ensures(new_dap_debugger, (name,), adapter),
        call_ensures(new_debugger, (name,), kind),
    ensures
        adapter matches Ok(t) ==> (match t {
            DebuggerType::CodeLLDB => name@ == "lldb"@ || name@ == "codelldb"@,
            DebuggerType::DebugPy => name@ == "python"@ || name@ == "debugpy"@,
            DebuggerType::GoDelve => name@ == "go"@ || name@ == "delve"@,
            DebuggerType::DotNet => name@ == "dotnet"@ || name@ == ".net"@ || name@ == "net"@,
            DebuggerType::Generic => name@ == "generic"@,
        }) && (kind matches Ok(DebuggerKind::Dap(k)) && k == t),
        name@ == "lldb"@ || name@ == "codelldb"@ || name@ == "python"@ || name@ == "debugpy"@
            || name@ == "go"@ || name@ == "delve"@ || name@ == "dotnet"@ || name@ == ".net"@
            || name@ == "net"@ || name@ == "generic"@ ==> adapter is Ok,
        adapter matches Err(e) ==> e@ == "ERROR: Debugger unknown "@ + name@ && match kind {
            Ok(k) => k is Node && (name@ == "node"@ || name@ == "nodejs"@ || name@ == "js"@),
            Err(f) => f@ == e@ && name@ != "node"@ && name@ != "nodejs"@ && name@ != "js"@,
        },
{
    reveal_strlit("node");
    reveal_strlit("nodejs");
    reveal_strlit("js");
    reveal_strlit("lldb");
    reveal_strlit("codelldb");
    reveal_strlit("python");
    reveal_strlit("debugpy");
    reveal_strlit("go");
    reveal_strlit("delve");
    reveal_strlit("dotnet");
    reveal_strlit(".net");
    reveal_strlit("net");
    reveal_strlit("generic");
}

/// An adapter that is no command of its own is taken from an address that is made of the
/// system and the architecture where there is one for each of them, and from the same
/// address everywhere where there is not.
pub proof fn address_follows_the_machine(
    t: &DebuggerType,
    os: &str,
    arch: &str,
    other_os: &str,
    other_arch: &str,
    r: Result<String, AdapterError>,
    s: Result<String, AdapterError>,
)
    requires
        call_ensures(DebuggerType::plugin_url, (t, os, arch), r),
        call_ensures(DebuggerType::plugin_url, (t, other_os, other_arch), s),
    ensures
        r matches Err(AdapterError::NeedsCommand) <==> t is Generic,
        t is DebugPy || t is GoDelve ==> (r is Ok == s is Ok) && (r matches Ok(a) ==> (
        s matches Ok(b) ==> a@ == b@)),
        t is DotNet && os@ == "windows"@ && other_os@ == "windows"@ ==> (r is Ok == s is Ok) && (
        r matches Ok(a) ==> (s matches Ok(b) ==> a@ == b@)),
        t is CodeLLDB ==> (r matches Ok(a) ==> normal_url(
            "https://github.com/vadimcn/vscode-lldb/releases/download/v"@ + CODELLDB_VERSION@
                + "/codelldb-"@ + arch@ + "-"@ + os@ + ".vsix"@,
        ) == Ok::<Seq<char>, Seq<char>>(a@)),
        t is DotNet && os@ != "windows"@ ==> (r matches Ok(a) ==> normal_url(
            "https://github.com/Samsung/netcoredbg/releases/download/"@ + NETCOREDBG_VERSION@
                + "/netcoredbg-"@ + os@ + "-"@ + arch@ + ".zip"@,
        ) == Ok::<Seq<char>, Seq<char>>(a@)),
{
}

/// The program runs in a terminal of the editor where the adapter asks for one, and never
/// where it was running before.
pub proof fn attached_program_has_its_terminal(t: &DebuggerType, launched: bool, attached: bool)
    requires
        call_ensures(DebuggerType::is_integrated_terminal, (t, false), launched),
        call_ensures(DebuggerType::is_integrated_terminal, (t, true), attached),
    ensures
        !attached,
        launched == !(t is GoDelve || t is Generic),
{
}

} // verus!
