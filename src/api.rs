//! The native operations that the frontend calls by name, and the answers
//! that are computed from plain values.
use vstd::prelude::*;
use vstd::string::StringExecFns;

verus! {

/// An operation that the frontend may ask for.
#[derive(PartialEq, Eq, Structural, Clone, Copy, Debug)]
pub enum Operation {
    OpenScaffoldDirectory,
    GetRootPath,
    GetJavas,
    GetPythons,
    ExportMap,
    GetServerVersion,
    PathJoin,
    PathRelative,
    PathDirname,
    PathSep,
    FsExistsSync,
    FsMkdirSync,
    FsGetFiles,
    ChildProcessSpawn,
    ChildProcessKill,
}

/// The operation that a name stands for.
pub open spec fn operation_named(s: Seq<char>) -> Option<Operation> {
    if s == "openScaffoldDirectory"@ {
        Some(Operation::OpenScaffoldDirectory)
    } else if s == "getRootPath"@ {
        Some(Operation::GetRootPath)
    } else if s == "getJavas"@ {
        Some(Operation::GetJavas)
    } else if s == "getPythons"@ {
        Some(Operation::GetPythons)
    } else if s == "exportMap"@ {
        Some(Operation::ExportMap)
    } else if s == "getServerVersion"@ {
        Some(Operation::GetServerVersion)
    } else if s == "path.join"@ {
        Some(Operation::PathJoin)
    } else if s == "path.relative"@ {
        Some(Operation::PathRelative)
    } else if s == "path.dirname"@ {
        Some(Operation::PathDirname)
    } else if s == "path.sep"@ {
        Some(Operation::PathSep)
    } else if s == "fs.existsSync"@ {
        Some(Operation::FsExistsSync)
    } else if s == "fs.mkdirSync"@ {
        Some(Operation::FsMkdirSync)
    } else if s == "fs.getFiles"@ {
        Some(Operation::FsGetFiles)
    } else if s == "child_process.spawn"@ {
        Some(Operation::ChildProcessSpawn)
    } else if s == "child_process.kill"@ {
        Some(Operation::ChildProcessKill)
    } else {
        None
    }
}

/// Finds the operation that `name` stands for; an unknown name stands for none.
pub fn parse_operation(name: &str) -> (r: Option<Operation>)
    ensures
        r == operation_named(name@),
{
    let n = String::from_str(name);
    if n == String::from_str("openScaffoldDirectory") {
        Some(Operation::OpenScaffoldDirectory)
    } else if n == String::from_str("getRootPath") {
        Some(Operation::GetRootPath)
    } else if n == String::from_str("getJavas") {
        Some(Operation::GetJavas)
    } else if n == String::from_str("getPythons") {
        Some(Operation::GetPythons)
    } else if n == String::from_str("exportMap") {
        Some(Operation::ExportMap)
    } else if n == String::from_str("getServerVersion") {
        Some(Operation::GetServerVersion)
    } else if n == String::from_str("path.join") {
        Some(Operation::PathJoin)
    } else if n == String::from_str("path.relative") {
        Some(Operation::PathRelative)
    } else if n == String::from_str("path.dirname") {
        Some(Operation::PathDirname)
    } else if n == String::from_str("path.sep") {
        Some(Operation::PathSep)
    } else if n == String::from_str("fs.existsSync") {
        Some(Operation::FsExistsSync)
    } else if n == String::from_str("fs.mkdirSync") {
        Some(Operation::FsMkdirSync)
    } else if n == String::from_str("fs.getFiles") {
        Some(Operation::FsGetFiles)
    } else if n == String::from_str("child_process.spawn") {
        Some(Operation::ChildProcessSpawn)
    } else if n == String::from_str("child_process.kill") {
        Some(Operation::ChildProcessKill)
    } else {
        None
    }
}

/// The error text for a name that stands for no operation.
pub fn invalid_operation_message() -> (r: String)
    ensures
        r@ == "Invalid native API operation"@,
{
    String::from_str("Invalid native API operation")
}

/// An installed runtime as the frontend lists it: a name, a detail shown
/// in parentheses after it, and the path to use.
pub struct RuntimeEntry {
    pub name: String,
    pub detail: String,
    pub path: String,
}

/// The text under which a runtime is offered: `name (detail)`.
pub open spec fn label_of(name: Seq<char>, detail: Seq<char>) -> Seq<char> {
    name + " ("@ + detail + ")"@
}

/// A Java runtime: its version, with its architecture as the detail.
pub fn java_entry(version: String, architecture: String, path: String) -> (r: RuntimeEntry)
    ensures
        r.name@ == version@,
        r.detail@ == architecture@,
        r.path@ == path@,
{
    RuntimeEntry { name: version, detail: architecture, path }
}

/// A Python runtime: its display name, or its executable's path where it
/// has none, with its version, or `Unknown`, as the detail.
pub fn python_entry(executable: String, formatted_name: Option<String>, version: Option<String>) -> (r:
    RuntimeEntry)
    ensures
        r.name@ == (match formatted_name {
            Some(n) => n@,
            None => executable@,
        }),
        r.detail@ == (match version {
            Some(v) => v@,
            None => "Unknown"@,
        }),
        r.path@ == executable@,
{
    let name = match formatted_name {
        Some(n) => n,
        None => executable.clone(),
    };
    let detail = match version {
        Some(v) => v,
        None => String::from_str("Unknown"),
    };
    RuntimeEntry { name, detail, path: executable }
}

fn label(e: &RuntimeEntry) -> (r: String)
    ensures
        r@ == label_of(e.name@, e.detail@),
{
    let mut s = e.name.clone();
    s.append(" (");
    s.append(e.detail.as_str());
    s.append(")");
    s
}

/// Appends, for each entry in order, its label and then its path.
fn push_choices(out: &mut Vec<String>, entries: &Vec<RuntimeEntry>)
    ensures
        final(out)@.len() == old(out)@.len() + 2 * entries@.len(),
        forall|i: int| 0 <= i < old(out)@.len() ==> final(out)@[i] == old(out)@[i],
        forall|i: int|
            0 <= i < entries@.len() ==> {
                &&& (#[trigger] final(out)@[old(out)@.len() + 2 * i])@ == label_of(
                    entries@[i].name@,
                    entries@[i].detail@,
                )
                &&& final(out)@[old(out)@.len() + 2 * i + 1]@ == entries@[i].path@
            },
{
    let ghost start = out@.len();
    let ghost first = out@;
    let mut i: usize = 0;
    while i < entries.len()
        invariant
            i <= entries@.len(),
            start == old(out)@.len(),
            first == old(out)@,
            out@.len() == start + 2 * i,
            forall|k: int| 0 <= k < start ==> out@[k] == first[k],
            forall|k: int|
                0 <= k < i ==> {
                    &&& (#[trigger] out@[start + 2 * k])@ == label_of(
                        entries@[k].name@,
                        entries@[k].detail@,
                    )
                    &&& out@[start + 2 * k + 1]@ == entries@[k].path@
                },
        decreases entries@.len() - i,
    {
        let l = label(&entries[i]);
        out.push(l);
        out.push(entries[i].path.clone());
        i = i + 1;
    }
}

/// The runtime choices for Java: `Auto` with the first runtime's path (empty
/// where there is none), then each runtime's label and path.
pub fn java_choices(entries: &Vec<RuntimeEntry>) -> (r: Vec<String>)
    ensures
        r@.len() == 2 + 2 * entries@.len(),
        r@[0]@ == "Auto"@,
        entries@.len() == 0 ==> r@[1]@.len() == 0,
        entries@.len() > 0 ==> r@[1]@ == entries@[0].path@,
        forall|i: int|
            0 <= i < entries@.len() ==> {
                &&& (#[trigger] r@[2 + 2 * i])@ == label_of(entries@[i].name@, entries@[i].detail@)
                &&& r@[2 + 2 * i + 1]@ == entries@[i].path@
            },
{
    let mut out: Vec<String> = Vec::new();
    out.push(String::from_str("Auto"));
    if entries.len() == 0 {
        out.push(String::new());
    } else {
        out.push(entries[0].path.clone());
    }
    let ghost before = out@;
    push_choices(&mut out, entries);
    proof {
        assert forall|i: int| 0 <= i < entries@.len() implies {
            &&& (#[trigger] out@[2 + 2 * i])@ == label_of(entries@[i].name@, entries@[i].detail@)
            &&& out@[2 + 2 * i + 1]@ == entries@[i].path@
        } by {
            assert(out@[before.len() + 2 * i] == out@[2 + 2 * i]);
        }
    }
    out
}

/// The runtime choices for Python: each runtime's label and path.
pub fn python_choices(entries: &Vec<RuntimeEntry>) -> (r: Vec<String>)
    ensures
        r@.len() == 2 * entries@.len(),
        forall|i: int|
            0 <= i < entries@.len() ==> {
                &&& (#[trigger] r@[2 * i])@ == label_of(entries@[i].name@, entries@[i].detail@)
                &&& r@[2 * i + 1]@ == entries@[i].path@
            },
{
    let mut out: Vec<String> = Vec::new();
    let ghost before = out@;
    push_choices(&mut out, entries);
    proof {
        assert forall|i: int| 0 <= i < entries@.len() implies {
            &&& (#[trigger] out@[2 * i])@ == label_of(entries@[i].name@, entries@[i].detail@)
            &&& out@[2 * i + 1]@ == entries@[i].path@
        } by {
            assert(out@[before.len() + 2 * i] == out@[2 * i]);
        }
    }
    out
}

/// The address that reports the released version of an episode.
pub fn server_version_url(episode: &str) -> (r: String)
    ensures
        r@ == "https://api.battlecode.org/api/episode/e/bc"@ + episode@ + "/?format=json"@,
{
    let mut s = String::from_str("https://api.battlecode.org/api/episode/e/bc");
    s.append(episode);
    s.append("/?format=json");
    s
}

/// Whether a file listing was asked to descend into subdirectories: the
/// second argument, where there is one, reads `true`.
pub fn recursive_flag(args: &Vec<String>) -> (r: bool)
    ensures
        r == (args@.len() >= 2 && args@[1]@ == "true"@),
{
    if args.len() < 2 {
        false
    } else {
        args[1] == String::from_str("true")
    }
}

/// The answer to an existence check: `true`, or the empty text.
pub fn exists_answer(exists: bool) -> (r: String)
    ensures
        exists ==> r@ == "true"@,
        !exists ==> r@.len() == 0,
{
    if exists {
        String::from_str("true")
    } else {
        String::new()
    }
}

} // verus!
