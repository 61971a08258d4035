use nvim_vadre::debuggers::{
    download_notice, generic_program, get_attach_request, new_dap_debugger, new_debugger,
    split_command, AdapterError, DebuggerKind, DebuggerType, GoFacts, LocationsError, MissingFact,
    Program, NO_GENERIC_DOWNLOAD,
};
use nvim_vadre::number::IntError;
use nvim_vadre::path::{
    extension, get_debuggers_dir, get_os_and_cpu_architecture, path_extension,
};
use nvim_vadre::protocol::{Either, RequestArguments};
use nvim_vadre::str_map::StrMap;

const ALL: [DebuggerType; 5] = [
    DebuggerType::CodeLLDB,
    DebuggerType::DebugPy,
    DebuggerType::GoDelve,
    DebuggerType::DotNet,
    DebuggerType::Generic,
];

fn strings(list: &[&str]) -> Vec<String> {
    list.iter().map(|s| s.to_string()).collect()
}

fn program() -> Program {
    let mut env = StrMap::new();
    env.insert("K".to_string(), "v".to_string());
    Program { args: strings(&["x"]), cwd: "/cwd".to_string(), env, path: "/p".to_string() }
}

fn launched(r: RequestArguments) -> String {
    match r {
        RequestArguments::launch(Either::Second(j)) => j.display(),
        other => panic!("{:?}", other),
    }
}

#[test]
fn adapters_go_by_several_names() {
    let names = [
        ("lldb", DebuggerType::CodeLLDB),
        ("codelldb", DebuggerType::CodeLLDB),
        ("generic", DebuggerType::Generic),
        ("python", DebuggerType::DebugPy),
        ("debugpy", DebuggerType::DebugPy),
        ("go", DebuggerType::GoDelve),
        ("delve", DebuggerType::GoDelve),
        ("dotnet", DebuggerType::DotNet),
        (".net", DebuggerType::DotNet),
        ("net", DebuggerType::DotNet),
    ];
    for (name, t) in names {
        assert_eq!(new_dap_debugger(name), Ok(t));
        assert_eq!(new_debugger(name), Ok(DebuggerKind::Dap(t)));
    }
    for name in ["node", "nodejs", "js"] {
        assert_eq!(new_debugger(name), Ok(DebuggerKind::Node));
        assert_eq!(new_dap_debugger(name), Err(format!("ERROR: Debugger unknown {}", name)));
    }
    assert_eq!(new_debugger("gdb"), Err("ERROR: Debugger unknown gdb".to_string()));
    let shown: Vec<String> = ALL.iter().map(|t| t.get_debugger_type_name()).collect();
    assert_eq!(shown, vec!["CodeLLDB", "DebugPy", "GoDelve", "DotNet", "Generic"]);
}

#[test]
fn a_message_tells_whether_a_breakpoint_is_enabled() {
    let lldb = DebuggerType::CodeLLDB;
    assert_eq!(lldb.check_breakpoint_enabled("Resolved locations: 2"), Ok(true));
    assert_eq!(lldb.check_breakpoint_enabled("Resolved locations: 0"), Ok(false));
    assert_eq!(lldb.check_breakpoint_enabled("Resolved locations: -1"), Ok(false));
    assert_eq!(
        lldb.check_breakpoint_enabled("Resolved locations: 0 Resolved locations: 1"),
        Ok(true)
    );
    assert_eq!(lldb.check_breakpoint_enabled("hello"), Err(LocationsError::NoLocations));
    assert_eq!(
        lldb.check_breakpoint_enabled("Resolved locations: x"),
        Err(LocationsError::NotANumber(IntError::InvalidDigit))
    );
    assert_eq!(DebuggerType::GoDelve.check_breakpoint_enabled("hello"), Ok(false));
    assert_eq!(
        LocationsError::NoLocations.message("hello"),
        "Couldn't find Resolved locations message in: hello"
    );
    assert_eq!(
        LocationsError::NotANumber(IntError::InvalidDigit).message("hello"),
        "invalid digit found in string"
    );
}

#[test]
fn adapters_are_downloaded_from_their_releases() {
    assert_eq!(
        DebuggerType::CodeLLDB.plugin_url("linux", "x86_64").unwrap(),
        "https://github.com/vadimcn/vscode-lldb/releases/download/v1.10.0/\
         codelldb-x86_64-linux.vsix"
    );
    // An address is brought into its normal form.
    assert_eq!(
        DebuggerType::CodeLLDB.plugin_url("a b", "../x").unwrap(),
        "https://github.com/vadimcn/vscode-lldb/releases/download/v1.10.0/\
         codelldb-../x-a%20b.vsix"
    );
    assert_eq!(
        DebuggerType::DebugPy.plugin_url("linux", "x86_64").unwrap(),
        "https://github.com/microsoft/debugpy/archive/v1.8.0.zip"
    );
    assert_eq!(
        DebuggerType::GoDelve.plugin_url("linux", "x86_64").unwrap(),
        "https://github.com/go-delve/delve/archive/refs/tags/v1.22.1.zip"
    );
    assert_eq!(
        DebuggerType::DotNet.plugin_url("windows", "x86_64").unwrap(),
        "https://github.com/Samsung/netcoredbg/releases/download/3.0.0-1012/netcoredbg-win64.zip"
    );
    assert_eq!(
        DebuggerType::DotNet.plugin_url("linux", "aarch64").unwrap(),
        "https://github.com/Samsung/netcoredbg/releases/download/3.0.0-1012/\
         netcoredbg-linux-aarch64.zip"
    );
    assert!(matches!(
        DebuggerType::Generic.plugin_url("linux", "x86_64"),
        Err(AdapterError::NeedsCommand)
    ));
    assert_eq!(
        download_notice("linux", "x86_64"),
        "Downloading and extracting linux plugin for x86_64"
    );
}

#[test]
fn adapters_are_kept_and_built_in_their_directories() {
    let plugin: Vec<Vec<String>> = ALL.iter().map(|t| t.plugin_directories()).collect();
    assert_eq!(
        plugin,
        vec![
            strings(&["codelldb", "1.10.0"]),
            strings(&["debugpy"]),
            strings(&["delve", "v1.22.1"]),
            strings(&["netcoredbg"]),
            vec![],
        ]
    );
    assert_eq!(
        DebuggerType::DebugPy.build_directories(),
        strings(&["debugpy", "debugpy-1.8.0"])
    );
    assert_eq!(
        DebuggerType::GoDelve.program_path(".exe"),
        strings(&["delve", "v1.22.1", "delve-1.22.1", "cmd", "dlv", "dlv.exe"])
    );
    assert_eq!(
        DebuggerType::CodeLLDB.program_path(""),
        strings(&["codelldb", "1.10.0", "extension", "adapter", "codelldb"])
    );
    assert_eq!(
        DebuggerType::DebugPy.program_path(""),
        strings(&["debugpy", "debugpy-1.8.0", "build", "lib"])
    );
    assert_eq!(
        DebuggerType::DotNet.program_path(".exe"),
        strings(&["netcoredbg", "netcoredbg.exe"])
    );
    assert_eq!(
        DebuggerType::DebugPy.build_arguments(),
        strings(&["setup.py", "build", "--build-platlib", "build/lib"])
    );
    assert_eq!(DebuggerType::GoDelve.build_arguments(), strings(&["build", "."]));
    assert!(DebuggerType::DotNet.build_arguments().is_empty());
}

#[test]
fn adapters_are_started_on_a_port() {
    let start = |t: DebuggerType, log| t.spawn_arguments(Some(81), log).unwrap();
    assert_eq!(start(DebuggerType::CodeLLDB, true), strings(&["--port", "81"]));
    assert_eq!(
        start(DebuggerType::DebugPy, false),
        strings(&["-m", "debugpy.adapter", "--port", "81"])
    );
    assert_eq!(
        start(DebuggerType::DebugPy, true),
        strings(&["-m", "debugpy.adapter", "--port", "81", "--log-stderr"])
    );
    assert_eq!(
        start(DebuggerType::GoDelve, true),
        strings(&["dap", "--listen", "127.0.0.1:81", "--log"])
    );
    assert_eq!(start(DebuggerType::DotNet, false), strings(&["--interpreter=vscode"]));
    let words: Vec<String> = ALL
        .iter()
        .map(|t| t.spawn_arguments(None, false).unwrap_err().message())
        .collect();
    assert_eq!(
        words,
        vec![
            "Need to specify a port for CodeLLDB",
            "Need to specify a port for DebugPy",
            "Need to specify a port for Go Delve debugger",
            "Need to specify a port for netcoredbg",
            "Need to specify the command to run generic debugger, try running with \
             `-d=<cmd>\\ <options>` (you need to backslash escape spaces in the command)",
        ]
    );
}

#[test]
fn an_adapter_of_the_user_is_a_command() {
    let (command, args) = generic_program(None, strings(&["dap", "-x"])).unwrap();
    assert_eq!((command.as_str(), args), ("dap", strings(&["-x"])));
    assert_eq!(
        generic_program(Some(1), strings(&["dap"])).unwrap_err().message(),
        "Doesn't currently support attaching to a port"
    );
    assert_eq!(
        generic_program(None, vec![]).unwrap_err().message(),
        "Expected program to have at least one element, but it was empty: []"
    );
    assert_eq!(AdapterError::NotAUrl("why".to_string()).message(), "why");
    assert_eq!(
        NO_GENERIC_DOWNLOAD,
        "Downloading plugin for generic type is not supported, please run with `-d=/path/to/debugger`"
    );
    assert_eq!(
        split_command(strings(&["a", "b"])),
        Some(("a".to_string(), strings(&["b"])))
    );
    assert_eq!(split_command(vec![]), None);
}

#[test]
fn programs_are_launched_as_each_adapter_wants_it() {
    assert_eq!(
        launched(program().codelldb_request()),
        "{\"args\":[\"x\"],\"cargo\":{},\"cwd\":\"/cwd\",\"env\":{\"K\":\"v\"},\"name\":\"lldb\",\
         \"program\":\"/p\",\"request\":\"launch\",\"terminal\":\"integrated\",\"type\":\"lldb\"}"
    );
    assert_eq!(
        launched(program().debugpy_request()),
        "{\"args\":[\"x\"],\"console\":\"integratedTerminal\",\"cwd\":\"/cwd\",\
         \"env\":{\"K\":\"v\"},\"name\":\"debugpy\",\"program\":\"/p\",\"request\":\"launch\",\
         \"stopOnEntry\":true,\"type\":\"debugpy\"}"
    );
    let terminal = |name: &str| {
        format!(
            "{{\"args\":[\"x\"],\"cwd\":\"/cwd\",\"env\":{{\"K\":\"v\"}},\"name\":\"{}\",\
             \"program\":\"/p\",\"request\":\"launch\",\"terminal\":\"integrated\",\
             \"type\":\"{}\"}}",
            name, name
        )
    };
    assert_eq!(launched(program().dotnet_request()), terminal("netcoredbg"));
    assert_eq!(launched(program().generic_request()), terminal("dap"));
    assert_eq!(
        launched(program().named_request("gdb")),
        "{\"args\":[\"x\"],\"cwd\":\"/cwd\",\"env\":{\"K\":\"v\"},\"name\":\"gdb\",\
         \"program\":\"/p\",\"request\":\"launch\",\"type\":\"gdb\"}"
    );
    match get_attach_request(-4) {
        RequestArguments::attach(j) => assert_eq!(j.display(), "{\"pid\":-4}"),
        other => panic!("{:?}", other),
    }
}

#[test]
fn delve_gets_the_go_path_under_the_environment() {
    let go = |executable| GoFacts {
        go_path: "/go".to_string(),
        executable,
        tool_path: "/dlv".to_string(),
    };
    assert_eq!(
        launched(program().delve_request(&go(true))),
        "{\"args\":[\"x\"],\"cwd\":\"/cwd\",\"debugAdapter\":\"dlv-dap\",\"dlvFlags\":[],\
         \"dlvToolPath\":\"/dlv\",\"env\":{\"GOPATH\":\"/go\",\"K\":\"v\"},\"mode\":\"exec\",\
         \"name\":\"delve\",\"program\":\"/p\",\"request\":\"launch\",\"type\":\"go\"}"
    );
    let mut p = program();
    p.env.insert("GOPATH".to_string(), "/mine".to_string());
    let text = launched(p.delve_request(&go(false)));
    assert!(text.contains("\"GOPATH\":\"/mine\""));
    assert!(text.contains("\"mode\":\"auto\""));
}

#[test]
fn each_adapter_gets_its_own_launch() {
    let go = GoFacts {
        go_path: "/go".to_string(),
        executable: true,
        tool_path: "/dlv".to_string(),
    };
    let asked = |t: DebuggerType| {
        launched(t.get_launch_request(&program(), Some("gdb"), Some(&go)).unwrap())
    };
    assert_eq!(asked(DebuggerType::CodeLLDB), launched(program().codelldb_request()));
    assert_eq!(asked(DebuggerType::DebugPy), launched(program().debugpy_request()));
    assert_eq!(asked(DebuggerType::DotNet), launched(program().dotnet_request()));
    assert_eq!(asked(DebuggerType::Generic), launched(program().named_request("gdb")));
    assert_eq!(asked(DebuggerType::GoDelve), launched(program().delve_request(&go)));
    let missing = |t: DebuggerType| t.get_launch_request(&program(), None, None).unwrap_err();
    assert_eq!(missing(DebuggerType::Generic), MissingFact::ProgramName);
    assert_eq!(missing(DebuggerType::GoDelve), MissingFact::Go);
}

#[test]
fn some_adapters_run_the_program_in_a_terminal() {
    for t in [DebuggerType::CodeLLDB, DebuggerType::DebugPy, DebuggerType::DotNet] {
        assert!(t.is_integrated_terminal(false));
        assert!(!t.is_integrated_terminal(true));
    }
    assert!(!DebuggerType::GoDelve.is_integrated_terminal(false));
    assert!(!DebuggerType::Generic.is_integrated_terminal(false));
}

#[test]
fn files_have_extensions() {
    assert_eq!(extension("a.tar.gz").as_deref(), Some("gz"));
    assert_eq!(extension(".bashrc"), None);
    assert_eq!(extension("a."), Some(String::new()));
    assert_eq!(extension("a"), None);
    for path in ["/a/b.rs", "b.rs", "/a.d/b", "/a/..", "/", "", "/x/.y.z", "/a.b/c.d/./", "./", "a.b/../."] {
        let expected = std::path::Path::new(path).extension().and_then(|e| e.to_str());
        assert_eq!(path_extension(path).as_deref(), expected);
    }
}

#[test]
fn adapters_are_kept_three_steps_above_the_program() {
    assert_eq!(
        get_debuggers_dir(strings(&["home", "vadre", "target", "release", "nvim_vadre"])),
        strings(&["home", "vadre", "debuggers"])
    );
    assert_eq!(get_debuggers_dir(strings(&["x"])), strings(&["debuggers"]));
}

#[test]
fn machines_have_names_in_releases() {
    assert_eq!(get_os_and_cpu_architecture("linux", "x86_64"), Some(("linux", "x86_64")));
    assert_eq!(get_os_and_cpu_architecture("macos", "aarch64"), Some(("darwin", "aarch64")));
    assert_eq!(get_os_and_cpu_architecture("windows", "x86_64"), Some(("windows", "x86_64")));
    assert_eq!(get_os_and_cpu_architecture("plan9", "x86_64"), None);
    assert_eq!(get_os_and_cpu_architecture("linux", "riscv64"), None);
}
