//! Paths: the name of a file, its extension, and where the adapters are kept.

use crate::text::{
    after_last, chars_of, contains_text, find_last, last_position, same, string_of, text_if_any,
};
use vstd::prelude::*;

verus! {

/// The name at the end of a path whose parts are separated by slashes. Slashes at
/// the end and parts that are a dot do not count, and two dots are no name.
pub open spec fn last_name(path: Seq<char>) -> Option<Seq<char>>
    decreases path.len(),
{
    let name = after_last(path, "/"@);
    if name.len() == 0 || name == "."@ {
        match find_last(path, "/"@, path.len() as int) {
            Some(at) => if 0 <= at < path.len() {
                last_name(path.take(at))
            } else {
                None
            },
            None => None,
        }
    } else if name == ".."@ {
        None
    } else {
        Some(name)
    }
}

/// Whether every system reads a path alike: it has no backslashes, it does not
/// start with two slashes, and the name at its end has no colon.
pub open spec fn plain_path(path: Seq<char>) -> bool {
    &&& !path.contains('\\')
    &&& !(path.len() > 1 && path[0] == '/' && path[1] == '/')
    &&& last_name(path) matches Some(name) ==> !name.contains(':')
}

/// Whether some system takes that for the name of the file at a path. A name is a
/// piece of the path. It is not empty, nor is it two dots, and it has no slash
/// unless the path has backslashes. Of a plain path it is the name at its end.
pub open spec fn may_be_name(path: Seq<char>, name: Option<Seq<char>>) -> bool {
    &&& name matches Some(n) ==> {
        &&& n.len() > 0 && n != ".."@
        &&& contains_text(path, n)
        &&& path.contains('\\') || !n.contains('/')
    }
    &&& plain_path(path) ==> name == last_name(path)
}

/// `std::path::Path::file_name` gives the last part of a path, unless the path
/// ends in its root or in `..`. What separates the parts depends on the system;
/// stated is what holds on every one, as `may_be_name` says it.
#[verifier::external_body]
pub(crate) fn file_name(path: &str) -> (r: Option<String>)
    ensures
        may_be_name(path@, text_if_any(r)),
{
    std::path::Path::new(path).file_name().and_then(|name| name.to_str()).map(
        |name| name.to_string(),
    )
}

/// The extension of the name of a file: what follows its last dot, unless that
/// dot starts the name.
pub open spec fn extension_of(name: Seq<char>) -> Option<Seq<char>> {
    match find_last(name, "."@, name.len() as int) {
        Some(at) => if at > 0 {
            Some(name.skip(at + 1))
        } else {
            None
        },
        None => None,
    }
}

/// The extension of the name of a file.
pub fn extension(name: &str) -> (r: Option<String>)
    ensures
        match r {
            Some(s) => extension_of(name@) == Some(s@),
            None => extension_of(name@) is None,
        },
{
    proof {
        reveal_strlit(".");
    }
    let chars = chars_of(name);
    let dot = chars_of(".");
    match last_position(&chars, &dot) {
        Some(at) => if at > 0 {
            let end: usize = chars.len();
            let start: usize = at + 1;
            let r = string_of(&chars, start, end);
            assert(r@ =~= name@.skip(at + 1));
            Some(r)
        } else {
            None
        },
        None => None,
    }
}

/// The extension of a name, if there is a name.
pub open spec fn extension_if_named(name: Option<Seq<char>>) -> Option<Seq<char>> {
    match name {
        Some(n) => extension_of(n),
        None => None,
    }
}

/// The extension of the file at the end of a path: that of its name. Where the
/// name stands in the path depends on the system, unless the path is plain.
pub fn path_extension(path: &str) -> (r: Option<String>)
    ensures
        exists|name: Option<Seq<char>>| #[trigger]
            may_be_name(path@, name) && text_if_any(r) == extension_if_named(name),
        plain_path(path@) ==> text_if_any(r) == extension_if_named(last_name(path@)),
        r matches Some(s) ==> !s@.contains('.') && (path@.contains('\\') || !s@.contains('/')),
{
    let found = file_name(path);
    let ghost name = text_if_any(found);
    let r = match found {
        Some(name) => {
            proof {
                extension_is_within(name@);
            }
            extension(name.as_str())
        },
        None => None,
    };
    assert(may_be_name(path@, name) && text_if_any(r) == extension_if_named(name));
    r
}

proof fn extension_is_within(name: Seq<char>)
    ensures
        extension_of(name) matches Some(s) ==> !s.contains('.') && (name.contains('/')
            || !s.contains('/')),
{
    reveal_strlit(".");
    if let Some(s) = extension_of(name) {
        let at = find_last(name, "."@, name.len() as int)->0;
        find_last_is_last(name, "."@, name.len() as int);
        assert forall|i: int| 0 <= i < s.len() implies s[i] != '.' && (s[i] == '/'
            ==> name.contains('/')) by {
            assert(s[i] == name[at + 1 + i]);
            assert(name.contains(name[at + 1 + i]));
            if s[i] == '.' {
                let j = at + 1 + i;
                assert(name.subrange(j, j + 1) =~= "."@);
                assert(crate::text::stands_at(name, "."@, j));
            }
        }
    }
}

proof fn find_last_is_last(s: Seq<char>, part: Seq<char>, from: int)
    ensures
        match find_last(s, part, from) {
            Some(at) => 0 <= at <= from && crate::text::stands_at(s, part, at) && (forall|j: int|
                at < j <= from ==> !#[trigger] crate::text::stands_at(s, part, j)),
            None => forall|j: int| 0 <= j <= from ==> !#[trigger] crate::text::stands_at(s, part, j),
        },
    decreases from + 1,
{
    if from >= 0 && !crate::text::stands_at(s, part, from) {
        find_last_is_last(s, part, from - 1);
    }
}

/// The directory of the plugin: three steps up from the program, as far as the
/// path goes. A path is the list of its parts below the root.
pub open spec fn root_dir(exe_path: Seq<String>) -> Seq<String> {
    if exe_path.len() >= 3 {
        exe_path.take(exe_path.len() - 3)
    } else {
        Seq::empty()
    }
}

/// The directory of the plugin.
fn get_root_dir(exe_path: Vec<String>) -> (r: Vec<String>)
    ensures
        r@ == root_dir(exe_path@),
{
    let mut path = exe_path;
    let _ = path.pop();
    let _ = path.pop();
    let _ = path.pop();
    assert(path@ =~= root_dir(exe_path@));
    path
}

/// The directory that holds the adapters.
pub fn get_debuggers_dir(exe_path: Vec<String>) -> (r: Vec<String>)
    ensures
        r@.len() == root_dir(exe_path@).len() + 1,
        r@.drop_last() == root_dir(exe_path@),
        r@.last()@ == "debuggers"@,
{
    let mut path = get_root_dir(exe_path);
    path.push("debuggers".to_string());
    assert(path@.drop_last() =~= root_dir(exe_path@));
    path
}

/// The operating system and the architecture, as the releases of adapters name
/// them.
pub open spec fn release_names(os: Seq<char>, arch: Seq<char>) -> Option<(Seq<char>, Seq<char>)> {
    let system = if os == "linux"@ {
        Some("linux"@)
    } else if os == "macos"@ {
        Some("darwin"@)
    } else if os == "windows"@ {
        Some("windows"@)
    } else {
        None
    };
    if system is Some && (arch == "x86_64"@ || arch == "aarch64"@) {
        Some((system->0, arch))
    } else {
        None
    }
}

/// Translate the operating system and the architecture of a machine into the
/// names under which adapters are released. There are none for other machines.
pub fn get_os_and_cpu_architecture(target_os: &str, target_arch: &str) -> (r: Option<
    (&'static str, &'static str),
>)
    ensures
        match r {
            Some((os, arch)) => release_names(target_os@, target_arch@) == Some((os@, arch@)),
            None => release_names(target_os@, target_arch@) is None,
        },
{
    let os = if same(target_os, "linux") {
        "linux"
    } else if same(target_os, "macos") {
        "darwin"
    } else if same(target_os, "windows") {
        "windows"
    } else {
        return None;
    };
    if same(target_arch, "x86_64") {
        Some((os, "x86_64"))
    } else if same(target_arch, "aarch64") {
        Some((os, "aarch64"))
    } else {
        None
    }
}

proof fn dot_stands(s: Seq<char>, j: int)
    ensures
        crate::text::stands_at(s, "."@, j) == (0 <= j < s.len() && s[j] == '.'),
{
    reveal_strlit(".");
    if 0 <= j < s.len() {
        let one = s.subrange(j, j + 1);
        assert(one.len() == 1 && one[0] == s[j]);
        if s[j] == '.' {
            assert(one =~= "."@);
        }
    }
}

/// The last dot of a name.
proof fn last_dot(s: Seq<char>)
    ensures
        match find_last(s, "."@, s.len() as int) {
            Some(at) => 0 <= at < s.len() && s[at] == '.' && !s.skip(at + 1).contains('.'),
            None => !s.contains('.'),
        },
{
    find_last_is_last(s, "."@, s.len() as int);
    match find_last(s, "."@, s.len() as int) {
        Some(at) => {
            dot_stands(s, at);
            let end = s.skip(at + 1);
            if end.contains('.') {
                let i = choose|i: int| 0 <= i < end.len() && end[i] == '.';
                assert(s[at + 1 + i] == '.');
                dot_stands(s, at + 1 + i);
            }
        },
        None => {
            if s.contains('.') {
                let i = choose|i: int| 0 <= i < s.len() && s[i] == '.';
                dot_stands(s, i);
            }
        },
    }
}

/// The extension of a name is what follows its last dot: before it stands a name that is
/// not empty, and the dot, and it has no dot itself.
pub proof fn extension_follows_the_last_dot(name: &str, r: Option<String>)
    requires
        call_ensures(extension, (name,), r),
    ensures
        match r {
            Some(e) => {
                let at = name@.len() - e@.len() - 1;
                &&& at > 0
                &&& name@[at] == '.'
                &&& name@.skip(at + 1) == e@
                &&& !e@.contains('.')
            },
            None => forall|i: int| 0 < i < name@.len() ==> #[trigger] name@[i] != '.',
        },
{
    let s = name@;
    last_dot(s);
    match find_last(s, "."@, s.len() as int) {
        Some(at) => {
            if at == 0 {
                assert forall|i: int| 0 < i < s.len() implies #[trigger] s[i] != '.' by {
                    assert(s.skip(1)[i - 1] == s[i]);
                    assert(s.skip(1).contains(s.skip(1)[i - 1]));
                }
            }
        },
        None => {
            assert forall|i: int| 0 < i < s.len() implies #[trigger] s[i] != '.' by {
                assert(s.contains(s[i]));
            }
        },
    }
}

/// The adapters are kept three steps up from the program, in a directory of their own.
pub proof fn adapters_are_kept_beside_the_program(exe: Vec<String>, r: Vec<String>)
    requires
        call_ensures(get_debuggers_dir, (exe,), r),
    ensures
        r@.len() == (if exe@.len() > 3 {
            exe@.len() - 2
        } else {
            1
        }),
        r@.last()@ == "debuggers"@,
        forall|i: int| 0 <= i < r@.len() - 1 ==> #[trigger] r@[i] == exe@[i],
{
    assert forall|i: int| 0 <= i < r@.len() - 1 implies #[trigger] r@[i] == exe@[i] by {
        assert(r@.drop_last()[i] == r@[i]);
    }
}

} // verus!
