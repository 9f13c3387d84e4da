use vstd::prelude::*;
use crate::config::{Config, ServerConfig};
use crate::text::{contains_seq, same_text, str_contains};

verus! {

/// What the orphan scan reads of one entry of the host's process table.
#[derive(Debug, Clone)]
pub struct ProcessInfo {
    pub pid: u32,
    pub cmd: Vec<String>,
    pub cwd: Option<String>,
}

/// The launcher every server is started through.
pub open spec fn launcher() -> Seq<char> {
    seq!['j', 'a', 'v', 'a']
}

/// The name of the launcher program.
pub fn launcher_name() -> (r: &'static str)
    ensures
        r@ == launcher(),
{
    proof {
        reveal_strlit("java");
    }
    "java"
}

/// Some argument of `cmd` contains `p`.
pub open spec fn any_arg_contains(cmd: Seq<String>, p: Seq<char>) -> bool {
    exists|i: int| 0 <= i < cmd.len() && contains_seq(#[trigger] cmd[i]@, p)
}

/// The process carries the launch signature of `server` (its command line
/// names the launcher and the server's artifact) and runs in its directory.
pub open spec fn is_orphan_of(p: ProcessInfo, server: ServerConfig) -> bool {
    &&& any_arg_contains(p.cmd@, launcher())
    &&& any_arg_contains(p.cmd@, server.jar@)
    &&& p.cwd is Some
    &&& p.cwd->Some_0@ == server.directory@
}

/// `pid` is the identifier of a process in `processes` that is a server of
/// some definition in `servers`.
pub open spec fn is_orphan_pid(servers: Seq<ServerConfig>, processes: Seq<ProcessInfo>, pid: u32) -> bool {
    exists|a: int, b: int|
        0 <= a < servers.len() && 0 <= b < processes.len() && is_orphan_of(processes[b], servers[a])
            && processes[b].pid == pid
}

fn any_contains(cmd: &Vec<String>, pattern: &str) -> (r: bool)
    ensures
        r == any_arg_contains(cmd@, pattern@),
{
    let mut i: usize = 0;
    while i < cmd.len()
        invariant
            i <= cmd@.len(),
            forall|k: int| 0 <= k < i ==> !contains_seq(#[trigger] cmd@[k]@, pattern@),
        decreases cmd@.len() - i,
    {
        if str_contains(cmd[i].as_str(), pattern) {
            return true;
        }
        i = i + 1;
    }
    false
}

/// Whether process `p` is a server of definition `server` left over from an
/// earlier run.
pub fn matches_server(p: &ProcessInfo, server: &ServerConfig) -> (r: bool)
    ensures
        r == is_orphan_of(*p, *server),
{
    proof {
        reveal_strlit("java");
        assert("java"@ =~= launcher());
    }
    if !any_contains(&p.cmd, "java") || !any_contains(&p.cmd, server.jar.as_str()) {
        return false;
    }
    match &p.cwd {
        Some(cwd) => same_text(cwd.as_str(), server.directory.as_str()),
        None => false,
    }
}

/// The processes of `processes` that are servers of some definition of
/// `config`, by process identifier: the ones to kill before any autostart.
pub fn orphaned_pids(config: &Config, processes: &Vec<ProcessInfo>) -> (r: Vec<u32>)
    ensures
        forall|k: int| 0 <= k < r@.len() ==> is_orphan_pid(config.servers@, processes@, #[trigger] r@[k]),
        forall|i: int, j: int|
            0 <= i < config.servers@.len() && 0 <= j < processes@.len() && is_orphan_of(
                #[trigger] processes@[j],
                #[trigger] config.servers@[i],
            ) ==> r@.contains(processes@[j].pid),
{
    let mut out: Vec<u32> = Vec::new();
    let mut i: usize = 0;
    while i < config.servers.len()
        invariant
            i <= config.servers@.len(),
            forall|k: int| 0 <= k < out@.len() ==> is_orphan_pid(config.servers@, processes@, #[trigger] out@[k]),
            forall|a: int, b: int|
                0 <= a < i && 0 <= b < processes@.len() && is_orphan_of(
                    #[trigger] processes@[b],
                    #[trigger] config.servers@[a],
                ) ==> out@.contains(processes@[b].pid),
        decreases config.servers@.len() - i,
    {
        let mut j: usize = 0;
        while j < processes.len()
            invariant
                i < config.servers@.len(),
                j <= processes@.len(),
                forall|k: int| 0 <= k < out@.len() ==> is_orphan_pid(config.servers@, processes@, #[trigger] out@[k]),
                forall|a: int, b: int|
                    0 <= a < i && 0 <= b < processes@.len() && is_orphan_of(
                        #[trigger] processes@[b],
                        #[trigger] config.servers@[a],
                    ) ==> out@.contains(processes@[b].pid),
                forall|b: int|
                    0 <= b < j && is_orphan_of(
                        #[trigger] processes@[b],
                        config.servers@[i as int],
                    ) ==> out@.contains(processes@[b].pid),
            decreases processes@.len() - j,
        {
            if matches_server(&processes[j], &config.servers[i]) {
                let ghost before = out@;
                out.push(processes[j].pid);
                proof {
                    assert(out@[before.len() as int] == processes@[j as int].pid);
                    assert(is_orphan_pid(config.servers@, processes@, processes@[j as int].pid));
                    assert forall|k: int| 0 <= k < out@.len() implies is_orphan_pid(config.servers@, processes@, #[trigger] out@[k]) by {
                        if k < before.len() {
                            assert(out@[k] == before[k]);
                        }
                    }
                    assert forall|x: u32| before.contains(x) implies out@.contains(x) by {
                        let k = choose|k: int| 0 <= k < before.len() && before[k] == x;
                        assert(out@[k] == x);
                    }
                }
            }
            j = j + 1;
        }
        i = i + 1;
    }
    out
}

} // verus!
