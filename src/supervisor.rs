use vstd::prelude::*;
use vstd::string::*;
use crate::config::{first_match, has_id, validation_of, Config, ServerConfig, validate_server_config};
use crate::error::AgentError;
use crate::registry::Registry;

verus! {

/// Delay before a server that exited is started again when it autostarts.
pub const AUTOSTART_DELAY_MS: u64 = 5000;

/// Interval between two samples of an instance's resource usage.
pub const METRICS_INTERVAL_MS: u64 = 1000;

/// Grace period after killing orphaned processes, before autostart.
pub const ORPHAN_GRACE_MS: u64 = 2000;

/// What a start of a server needs from its definition.
#[derive(Debug)]
pub struct LaunchPlan {
    pub memory_mb: u32,
    pub jar: String,
    pub directory: String,
}

/// The character of decimal digit `d`.
pub open spec fn digit_char(d: nat) -> char {
    if d == 0 { '0' } else if d == 1 { '1' } else if d == 2 { '2' } else if d == 3 { '3' }
    else if d == 4 { '4' } else if d == 5 { '5' } else if d == 6 { '6' } else if d == 7 { '7' }
    else if d == 8 { '8' } else { '9' }
}

/// `n` written in decimal, without leading zeros.
pub open spec fn decimal(n: nat) -> Seq<char>
    decreases n,
{
    if n < 10 {
        seq![digit_char(n)]
    } else {
        decimal(n / 10).push(digit_char(n % 10))
    }
}

fn digit_str(d: u32) -> (r: &'static str)
    requires
        d < 10,
    ensures
        r@ == seq![digit_char(d as nat)],
{
    proof {
        reveal_strlit("0");
        reveal_strlit("1");
        reveal_strlit("2");
        reveal_strlit("3");
        reveal_strlit("4");
        reveal_strlit("5");
        reveal_strlit("6");
        reveal_strlit("7");
        reveal_strlit("8");
        reveal_strlit("9");
    }
    if d == 0 { "0" } else if d == 1 { "1" } else if d == 2 { "2" } else if d == 3 { "3" }
    else if d == 4 { "4" } else if d == 5 { "5" } else if d == 6 { "6" } else if d == 7 { "7" }
    else if d == 8 { "8" } else { "9" }
}

fn push_decimal(out: &mut String, n: u32)
    ensures
        final(out)@ == old(out)@ + decimal(n as nat),
    decreases n,
{
    if n >= 10 {
        push_decimal(out, n / 10);
    }
    out.append(digit_str(n % 10));
    assert(out@ =~= old(out)@ + decimal(n as nat));
}

impl LaunchPlan {
    /// The launcher's arguments: the heap bound, the artifact, and the flag
    /// that turns off the interactive console.
    pub fn args(&self) -> (r: Vec<String>)
        ensures
            r@.len() == 4,
            r@[0]@ == seq!['-', 'X', 'm', 'x'] + decimal(self.memory_mb as nat) + seq!['M'],
            r@[1]@ == seq!['-', 'j', 'a', 'r'],
            r@[2]@ == self.jar@,
            r@[3]@ == seq!['n', 'o', 'g', 'u', 'i'],
    {
        proof {
            reveal_strlit("-Xmx");
            reveal_strlit("M");
            reveal_strlit("-jar");
            reveal_strlit("nogui");
        }
        let mut heap = String::from_str("-Xmx");
        push_decimal(&mut heap, self.memory_mb);
        heap.append("M");
        let mut out: Vec<String> = Vec::new();
        out.push(heap);
        out.push(String::from_str("-jar"));
        out.push(self.jar.clone());
        out.push(String::from_str("nogui"));
        out
    }
}

/// The outcome of a start request for `id`, given whether an instance runs
/// under it and whether its definition's directory exists.
pub open spec fn start_check(
    running: bool,
    servers: Seq<ServerConfig>,
    id: Seq<char>,
    directory_exists: bool,
) -> Result<(), AgentError> {
    if running {
        Err(AgentError::AlreadyRunning)
    } else if !has_id(servers, id) {
        Err(AgentError::NotFound)
    } else {
        let i = choose|i: int| first_match(servers, id, i);
        match validation_of(servers[i], directory_exists) {
            Err(e) => Err(AgentError::Invalid(e)),
            Ok(_) => Ok(()),
        }
    }
}

proof fn lemma_first_match_unique(servers: Seq<ServerConfig>, id: Seq<char>, i: int, j: int)
    requires
        first_match(servers, id, i),
        first_match(servers, id, j),
    ensures
        i == j,
{
}

/// Decides a start request for `id`: fails with `AlreadyRunning` where an
/// instance runs under it, `NotFound` where no definition has it, else with
/// the validation error of that definition; on success hands back what the
/// launch needs. `running` tells whether the registry holds `id`, and
/// `directory_exists` whether the definition's working directory exists.
pub fn plan_start(config: &Config, id: &str, running: bool, directory_exists: bool) -> (r: Result<
    LaunchPlan,
    AgentError,
>)
    ensures
        match r {
            Ok(_) => start_check(running, config.servers@, id@, directory_exists) is Ok,
            Err(e) => start_check(running, config.servers@, id@, directory_exists) == Err::<
                (),
                AgentError,
            >(e),
        },
        r is Ok ==> exists|i: int|
            first_match(config.servers@, id@, i) && {
                let def = config.servers@[i];
                let plan = r->Ok_0;
                &&& plan.memory_mb == def.memory_mb
                &&& plan.jar@ == def.jar@
                &&& plan.directory@ == def.directory@
            },
{
    if running {
        return Err(AgentError::AlreadyRunning);
    }
    let i = match config.find_server(id) {
        Some(i) => i,
        None => {
            return Err(AgentError::NotFound);
        },
    };
    proof {
        let k = choose|k: int| first_match(config.servers@, id@, k);
        lemma_first_match_unique(config.servers@, id@, i as int, k);
    }
    let def = &config.servers[i];
    match validate_server_config(def, directory_exists) {
        Err(e) => Err(AgentError::Invalid(e)),
        Ok(()) => Ok(
            LaunchPlan {
                memory_mb: def.memory_mb,
                jar: def.jar.clone(),
                directory: def.directory.clone(),
            },
        ),
    }
}

/// What follows a process's exit, once reconciled.
#[derive(Debug, Clone, Copy, PartialEq, Eq, Structural)]
pub enum ExitFollowup {
    /// Another path removed the instance first; nothing is left to do.
    AlreadyHandled,
    /// The instance was removed; its definition does not autostart.
    Stopped,
    /// The instance was removed; start it again after `AUTOSTART_DELAY_MS`.
    Autostart,
}

/// The definition with identifier `id` exists and autostarts.
pub open spec fn autostarts(servers: Seq<ServerConfig>, id: Seq<char>) -> bool {
    exists|i: int| first_match(servers, id, i) && servers[i].autostart
}

/// The instance of process `pid` is the one registered under `id`.
pub open spec fn is_current<V>(reg: Map<Seq<char>, (u32, V)>, id: Seq<char>, pid: u32) -> bool {
    reg.contains_key(id) && reg[id].0 == pid
}

/// What reconciling the exit of process `pid`, started for `id`, yields
/// against the registry `reg`.
pub open spec fn exit_outcome<V>(
    reg: Map<Seq<char>, (u32, V)>,
    servers: Seq<ServerConfig>,
    id: Seq<char>,
    pid: u32,
) -> ExitFollowup {
    if !is_current(reg, id, pid) {
        ExitFollowup::AlreadyHandled
    } else if autostarts(servers, id) {
        ExitFollowup::Autostart
    } else {
        ExitFollowup::Stopped
    }
}

/// Reconciles the exit of process `pid`, started for `id`: removes its
/// instance from the registry. Only the caller that removes it is told to
/// stop or autostart; every later report of the same exit, and any report
/// about a process that is no longer the registered one, gets
/// `AlreadyHandled` and changes nothing.
pub fn reconcile_exit<V>(registry: &mut Registry<V>, config: &Config, id: &str, pid: u32) -> (r: ExitFollowup)
    requires
        old(registry).wf(),
    ensures
        final(registry).wf(),
        is_current(old(registry)@, id@, pid) ==> final(registry)@ == old(registry)@.remove(id@),
        !is_current(old(registry)@, id@, pid) ==> final(registry)@ == old(registry)@,
        r == exit_outcome(old(registry)@, config.servers@, id@, pid),
{
    match registry.remove_instance(id, pid) {
        None => ExitFollowup::AlreadyHandled,
        Some(_) => {
            match config.find_server(id) {
                Some(i) => {
                    if config.servers[i].autostart {
                        ExitFollowup::Autostart
                    } else {
                        proof {
                            assert forall|j: int| first_match(config.servers@, id@, j) implies !config.servers@[j].autostart by {
                                lemma_first_match_unique(config.servers@, id@, i as int, j);
                            }
                        }
                        ExitFollowup::Stopped
                    }
                },
                None => ExitFollowup::Stopped,
            }
        },
    }
}

/// The line written to a server's input for a console command.
pub fn command_line(data: &str) -> (r: String)
    ensures
        r@ == data@ + seq!['\n'],
{
    proof {
        reveal_strlit("\n");
    }
    String::from_str(data).concat("\n")
}

/// The line that asks a server to shut down gracefully.
pub fn stop_command() -> (r: String)
    ensures
        r@ == seq!['s', 't', 'o', 'p', '\n'],
{
    proof {
        reveal_strlit("stop");
    }
    command_line("stop")
}

/// Once a start has registered an instance under `id`, a second start of
/// `id` is refused as already running, and the registry still holds the
/// first instance under it (an exclusive insert of another one fails and
/// changes nothing).
pub proof fn lemma_second_start_conflicts<V>(
    reg: Map<Seq<char>, (u32, V)>,
    servers: Seq<ServerConfig>,
    id: Seq<char>,
    first: (u32, V),
    directory_exists: bool,
)
    requires
        !reg.contains_key(id),
        start_check(false, servers, id, directory_exists) is Ok,
    ensures
        ({
            let after_first = reg.insert(id, first);
            &&& after_first.contains_key(id)
            &&& start_check(after_first.contains_key(id), servers, id, directory_exists)
                == Err::<(), AgentError>(AgentError::AlreadyRunning)
            &&& after_first[id] == first
        }),
{
}

/// An exit is acted on exactly once: of two reconciliations of the same
/// exit, the second finds nothing to do, and the first acts exactly when the
/// instance was registered.
pub proof fn lemma_exit_reconciled_once<V>(
    reg: Map<Seq<char>, (u32, V)>,
    servers: Seq<ServerConfig>,
    id: Seq<char>,
    pid: u32,
)
    ensures
        exit_outcome(reg.remove(id), servers, id, pid) == ExitFollowup::AlreadyHandled,
        (exit_outcome(reg, servers, id, pid) != ExitFollowup::AlreadyHandled) == is_current(
            reg,
            id,
            pid,
        ),
        !reg.remove(id).contains_key(id),
{
}

/// A late exit report about an earlier process of `id` leaves the instance
/// that now runs under `id` in place and schedules nothing.
pub proof fn lemma_stale_exit_ignored<V>(
    reg: Map<Seq<char>, (u32, V)>,
    servers: Seq<ServerConfig>,
    id: Seq<char>,
    current: u32,
    instance: V,
    stale: u32,
)
    requires
        stale != current,
    ensures
        exit_outcome(reg.insert(id, (current, instance)), servers, id, stale)
            == ExitFollowup::AlreadyHandled,
        is_current(reg.insert(id, (current, instance)), id, current),
{
}

/// A registered instance whose definition autostarts is, on exit, scheduled
/// to start again, and that start is not refused as already running:
/// with a valid definition it succeeds.
pub proof fn lemma_autostart_after_exit<V>(
    reg: Map<Seq<char>, (u32, V)>,
    servers: Seq<ServerConfig>,
    id: Seq<char>,
    pid: u32,
    directory_exists: bool,
)
    requires
        is_current(reg, id, pid),
        autostarts(servers, id),
    ensures
        exit_outcome(reg, servers, id, pid) == ExitFollowup::Autostart,
        start_check(reg.remove(id).contains_key(id), servers, id, directory_exists)
            != Err::<(), AgentError>(AgentError::AlreadyRunning),
        start_check(reg.remove(id).contains_key(id), servers, id, directory_exists) is Ok
            <== (forall|i: int| first_match(servers, id, i) ==> validation_of(servers[i], directory_exists) is Ok),
{
    let i = choose|i: int| first_match(servers, id, i) && servers[i].autostart;
    assert(has_id(servers, id));
}

} // verus!
