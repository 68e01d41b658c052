//! Spawning, point termination and total termination of supervised
//! processes, decided over the registry. The caller starts and signals the
//! operating-system processes; this module decides what to start and which
//! handles to signal.
use vstd::prelude::*;
use vstd::string::StrSliceExecFns;
use vstd::string::StringExecFns;
use crate::paths::join_path;
use crate::paths::path_joined;
use crate::pid::names_pid;
use crate::pid::parse_pid;
use crate::registry::Registry;
use crate::registry::taken;

verus! {

/// A request to start the build tool wrapper of a project.
pub struct SpawnRequest {
    /// The project directory; the wrapper script lies in it and runs in it.
    pub working_dir: String,
    /// The runtime installation to use; empty for the default one.
    pub runtime_home: String,
    /// The arguments handed to the wrapper, in order.
    pub args: Vec<String>,
}

/// What to start: the program, its arguments, its working directory and the
/// one environment variable to set, if any.
pub struct SpawnPlan {
    pub program: String,
    pub args: Vec<String>,
    pub working_dir: String,
    pub env: Option<(String, String)>,
}

/// A process that could not be started.
pub struct SpawnError {
    pub message: String,
}

/// The name of the build tool wrapper script.
pub open spec fn wrapper_name(windows: bool) -> Seq<char> {
    if windows {
        "gradlew.bat"@
    } else {
        "gradlew"@
    }
}

/// The environment variable that points the wrapper at a runtime.
pub open spec fn runtime_home_var() -> Seq<char> {
    "JAVA_HOME"@
}

/// Reads a spawn request from the arguments of a spawn call: the project
/// directory, the runtime home (empty for none), then the wrapper's
/// arguments.
pub fn spawn_request_from_args(args: Vec<String>) -> (r: SpawnRequest)
    requires
        args@.len() >= 2,
    ensures
        r.working_dir@ == args@[0]@,
        r.runtime_home@ == args@[1]@,
        r.args@ == args@.subrange(2, args@.len() as int),
{
    let mut args = args;
    let ghost all = args@;
    let working_dir = args.remove(0);
    let runtime_home = args.remove(0);
    proof {
        assert(args@ =~= all.subrange(2, all.len() as int));
    }
    SpawnRequest { working_dir, runtime_home, args }
}

/// Decides how to start a request: the wrapper script of the project
/// directory, run in that directory with the request's arguments, with the
/// runtime home variable set only where a runtime home is given.
pub fn plan_spawn(req: SpawnRequest, windows: bool) -> (r: SpawnPlan)
    ensures
        r.program@ == path_joined(req.working_dir@, wrapper_name(windows)),
        r.args@ == req.args@,
        r.working_dir@ == req.working_dir@,
        req.runtime_home@.len() == 0 ==> r.env is None,
        req.runtime_home@.len() > 0 ==> (r.env matches Some((k, v)) && k@ == runtime_home_var()
            && v@ == req.runtime_home@),
{
    proof {
        reveal_strlit("gradlew.bat");
        reveal_strlit("gradlew");
        reveal_strlit("JAVA_HOME");
    }
    let program = if windows {
        join_path(req.working_dir.as_str(), "gradlew.bat")
    } else {
        join_path(req.working_dir.as_str(), "gradlew")
    };
    let env = if req.runtime_home.as_str().unicode_len() == 0 {
        None
    } else {
        Some((String::from_str("JAVA_HOME"), req.runtime_home))
    };
    SpawnPlan { program, args: req.args, working_dir: req.working_dir, env }
}

/// The error for a process that could not be started, carrying the
/// operating system's message; the message is never empty.
pub fn spawn_failure(os_message: String) -> (r: SpawnError)
    ensures
        r.message@.len() > 0,
        os_message@.len() > 0 ==> r.message@ == os_message@,
{
    if os_message.as_str().unicode_len() == 0 {
        let r = String::from_str("the process could not be started");
        proof {
            reveal_strlit("the process could not be started");
        }
        SpawnError { message: r }
    } else {
        SpawnError { message: os_message }
    }
}

/// Records the outcome of starting a process. A started process is added to
/// the registry under its id, which is returned; a failure registers nothing
/// and becomes a spawn error with a non-empty message.
pub fn record_spawn<H>(registry: &mut Registry<H>, outcome: Result<(u32, H), String>) -> (r: Result<
    u32,
    SpawnError,
>)
    requires
        old(registry).wf(),
        outcome matches Ok((pid, _)) ==> !old(registry)@.contains_key(pid),
    ensures
        final(registry).wf(),
        match outcome {
            Ok((pid, handle)) => {
                &&& r == Ok::<u32, SpawnError>(pid)
                &&& final(registry)@ == old(registry)@.insert(pid, handle)
                &&& final(registry)@.contains_key(pid)
                &&& final(registry)@.len() == old(registry)@.len() + 1
            },
            Err(message) => {
                &&& final(registry)@ == old(registry)@
                &&& r matches Err(e) && e.message@.len() > 0
                &&& message@.len() > 0 ==> (r matches Err(e) && e.message@ == message@)
            },
        },
{
    match outcome {
        Ok((pid, handle)) => {
            registry.insert(pid, handle);
            Ok(pid)
        },
        Err(message) => Err(spawn_failure(message)),
    }
}

/// The process id that a text names, if it names one.
pub open spec fn pid_named(s: Seq<char>) -> Option<u32> {
    if exists|p: u32| names_pid(s, p) {
        Some(choose|p: u32| names_pid(s, p))
    } else {
        None
    }
}

/// The handle that a kill of the process named by `s` takes out of a
/// registry whose contents are `m`.
pub open spec fn kill_result<H>(m: Map<u32, H>, s: Seq<char>) -> Option<H> {
    match pid_named(s) {
        Some(p) => taken(m, p),
        None => None,
    }
}

/// The registry's contents after that kill.
pub open spec fn kill_state<H>(m: Map<u32, H>, s: Seq<char>) -> Map<u32, H> {
    match pid_named(s) {
        Some(p) => m.remove(p),
        None => m,
    }
}

/// Kills the process that `pid_text` names: takes its handle out of the
/// registry and hands it back to be signalled. A text that names no
/// supervised process is no error: nothing changes and nothing comes back.
pub fn kill<H>(registry: &mut Registry<H>, pid_text: &str) -> (r: Option<H>)
    requires
        old(registry).wf(),
    ensures
        final(registry).wf(),
        r == kill_result(old(registry)@, pid_text@),
        final(registry)@ == kill_state(old(registry)@, pid_text@),
{
    match parse_pid(pid_text) {
        Some(p) => {
            proof {
                let q = choose|q: u32| names_pid(pid_text@, q);
                assert(q == p);
            }
            registry.remove(p)
        },
        None => None,
    }
}

/// A kill may be repeated: the second of two kills of one text, and a kill
/// of a text that names no supervised process, take nothing out and leave
/// the registry as it was.
pub proof fn lemma_kill_idempotent<H>(m: Map<u32, H>, s: Seq<char>)
    ensures
        kill_result(kill_state(m, s), s) is None,
        kill_state(kill_state(m, s), s) == kill_state(m, s),
        (forall|p: u32| names_pid(s, p) ==> !m.contains_key(p)) ==> (kill_result(m, s) is None
            && kill_state(m, s) == m),
{
    match pid_named(s) {
        Some(p) => {
            assert(kill_state(m, s).remove(p) =~= kill_state(m, s));
            if forall|q: u32| names_pid(s, q) ==> !m.contains_key(q) {
                assert(names_pid(s, p));
                assert(m.remove(p) =~= m);
            }
        },
        None => {},
    }
}

/// Shutdown racing a kill hands out every supervised process exactly once.
/// If the kill comes first, each process of the registry is either the one
/// the kill took or one that the drain then finds, never both; the drain
/// finds nothing else. If the drain comes first, the kill finds nothing.
pub proof fn lemma_shutdown_with_concurrent_kill<H>(m: Map<u32, H>, s: Seq<char>)
    ensures
        forall|q: u32|
            #[trigger] m.contains_key(q) ==> ((kill_result(m, s) is Some && pid_named(s) == Some(q))
                != kill_state(m, s).contains_key(q)),
        forall|q: u32| #[trigger] kill_state(m, s).contains_key(q) ==> m.contains_key(q),
        kill_result(m, s) matches Some(h) ==> (pid_named(s) matches Some(p) && m.contains_key(p)
            && m[p] == h),
        kill_result(Map::<u32, H>::empty(), s) is None,
{
}

} // verus!
