use vstd::prelude::*;
use crate::config::{Config, ServerConfig};

verus! {

/// Whether a server has a live instance.
#[derive(Debug, Clone, Copy, PartialEq, Eq, Structural)]
pub enum RunStatus {
    Running,
    Stopped,
}

impl RunStatus {
    /// The word the control surface reports for this status.
    pub fn label(&self) -> (r: &'static str)
        ensures
            *self == RunStatus::Running ==> r@ == seq!['r', 'u', 'n', 'n', 'i', 'n', 'g'],
            *self == RunStatus::Stopped ==> r@ == seq!['s', 't', 'o', 'p', 'p', 'e', 'd'],
    {
        proof {
            reveal_strlit("running");
            reveal_strlit("stopped");
        }
        match self {
            RunStatus::Running => "running",
            RunStatus::Stopped => "stopped",
        }
    }
}

/// What is known of a live instance when servers are listed.
#[derive(Debug, Clone, Copy, PartialEq, Eq, Structural)]
pub struct LiveInfo {
    pub pid: u32,
    pub uptime_seconds: u64,
}

/// One line of the server listing: the definition and its live state.
#[derive(Debug, Clone)]
pub struct ServerStatus {
    pub config: ServerConfig,
    pub status: RunStatus,
    pub pid: Option<u32>,
    pub uptime_seconds: Option<u64>,
}

/// The listing line of a definition, given its live instance if any.
pub open spec fn status_of(cfg: ServerConfig, live: Option<LiveInfo>) -> ServerStatus {
    match live {
        Some(l) => ServerStatus {
            config: cfg,
            status: RunStatus::Running,
            pid: Some(l.pid),
            uptime_seconds: Some(l.uptime_seconds),
        },
        None => ServerStatus { config: cfg, status: RunStatus::Stopped, pid: None, uptime_seconds: None },
    }
}

/// The listing line of one definition.
pub fn server_status(cfg: &ServerConfig, live: Option<LiveInfo>) -> (r: ServerStatus)
    ensures
        r == status_of(*cfg, live),
{
    match live {
        Some(l) => ServerStatus {
            config: cfg.duplicate(),
            status: RunStatus::Running,
            pid: Some(l.pid),
            uptime_seconds: Some(l.uptime_seconds),
        },
        None => ServerStatus {
            config: cfg.duplicate(),
            status: RunStatus::Stopped,
            pid: None,
            uptime_seconds: None,
        },
    }
}

/// The live state that `live` gives the definition at position `i`.
pub open spec fn live_at(live: Seq<Option<LiveInfo>>, i: int) -> Option<LiveInfo> {
    if i < live.len() {
        live[i]
    } else {
        None
    }
}

/// The listing of all definitions, in configuration order; `live[i]` is the
/// live instance of the `i`-th definition, and a definition past the end of
/// `live` is listed as stopped.
pub fn list_servers(config: &Config, live: &Vec<Option<LiveInfo>>) -> (r: Vec<ServerStatus>)
    ensures
        r@.len() == config.servers@.len(),
        forall|i: int|
            0 <= i < r@.len() ==> #[trigger] r@[i] == status_of(config.servers@[i], live_at(live@, i)),
{
    let mut out: Vec<ServerStatus> = Vec::new();
    let mut i: usize = 0;
    while i < config.servers.len()
        invariant
            i <= config.servers@.len(),
            out@.len() == i,
            forall|k: int|
                0 <= k < i ==> #[trigger] out@[k] == status_of(config.servers@[k], live_at(live@, k)),
        decreases config.servers@.len() - i,
    {
        let l = if i < live.len() {
            live[i]
        } else {
            None
        };
        out.push(server_status(&config.servers[i], l));
        i = i + 1;
    }
    out
}

/// The identifiers of the definitions in `servers` that autostart, in order.
pub open spec fn autostart_seq(servers: Seq<ServerConfig>) -> Seq<Seq<char>>
    decreases servers.len(),
{
    if servers.len() == 0 {
        Seq::empty()
    } else {
        let rest = autostart_seq(servers.drop_last());
        if servers.last().autostart {
            rest.push(servers.last().id@)
        } else {
            rest
        }
    }
}

/// The identifiers of the definitions that start with the agent, in
/// configuration order.
pub fn autostart_ids(config: &Config) -> (r: Vec<String>)
    ensures
        r@.len() == autostart_seq(config.servers@).len(),
        forall|k: int| 0 <= k < r@.len() ==> #[trigger] r@[k]@ == autostart_seq(config.servers@)[k],
{
    let mut out: Vec<String> = Vec::new();
    let mut i: usize = 0;
    while i < config.servers.len()
        invariant
            i <= config.servers@.len(),
            out@.len() == autostart_seq(config.servers@.subrange(0, i as int)).len(),
            forall|k: int|
                0 <= k < out@.len() ==> #[trigger] out@[k]@ == autostart_seq(
                    config.servers@.subrange(0, i as int),
                )[k],
        decreases config.servers@.len() - i,
    {
        let ghost prefix = config.servers@.subrange(0, i as int);
        assert(config.servers@.subrange(0, i + 1).drop_last() =~= prefix);
        if config.servers[i].autostart {
            out.push(config.servers[i].id.clone());
        }
        i = i + 1;
    }
    assert(config.servers@.subrange(0, config.servers@.len() as int) =~= config.servers@);
    out
}

} // verus!
