use vstd::prelude::*;
use vstd::string::*;
use crate::error::{AgentError, ValidationError};
use crate::text::{contains_parent_segment, contains_seq, has_parent_segment, same_text, str_contains};

verus! {

/// Smallest memory allocation a server may be given, in megabytes.
pub const MIN_MEMORY_MB: u32 = 512;

/// Largest memory allocation a server may be given, in megabytes.
pub const MAX_MEMORY_MB: u32 = 32768;

/// Lowest network port a server may listen on.
pub const MIN_PORT: u16 = 1024;

/// Settings of the agent itself.
#[derive(Debug, Clone)]
pub struct AgentConfig {
    pub bind_address: String,
    pub data_directory: String,
}

impl Default for AgentConfig {
    fn default() -> (r: AgentConfig)
        ensures
            r.bind_address@ == "0.0.0.0:8080"@,
            r.data_directory@ == "/servers"@,
    {
        AgentConfig {
            bind_address: String::from_str("0.0.0.0:8080"),
            data_directory: String::from_str("/servers"),
        }
    }
}

/// The declaration of one manageable server.
#[derive(Debug, Clone)]
pub struct ServerConfig {
    pub id: String,
    pub name: String,
    pub directory: String,
    pub jar: String,
    pub memory_mb: u32,
    pub port: u16,
    pub autostart: bool,
    pub backup_directory: Option<String>,
}

impl ServerConfig {
    /// A field-by-field copy of the definition.
    pub fn duplicate(&self) -> (r: ServerConfig)
        ensures
            r == *self,
    {
        let backup_directory = match &self.backup_directory {
            Some(d) => Some(d.clone()),
            None => None,
        };
        ServerConfig {
            id: self.id.clone(),
            name: self.name.clone(),
            directory: self.directory.clone(),
            jar: self.jar.clone(),
            memory_mb: self.memory_mb,
            port: self.port,
            autostart: self.autostart,
            backup_directory,
        }
    }
}

/// The agent's settings and the ordered list of server definitions.
#[derive(Debug, Clone)]
pub struct Config {
    pub agent: AgentConfig,
    pub servers: Vec<ServerConfig>,
}

impl Default for Config {
    fn default() -> (r: Config)
        ensures
            r.agent.bind_address@ == "0.0.0.0:8080"@,
            r.agent.data_directory@ == "/servers"@,
            r.servers@.len() == 0,
    {
        Config { agent: AgentConfig::default(), servers: Vec::new() }
    }
}

/// The path separator.
pub open spec fn slash() -> Seq<char> {
    seq!['/']
}

/// The alternative path separator.
pub open spec fn backslash() -> Seq<char> {
    seq!['\\']
}

pub open spec fn memory_ok(m: u32) -> bool {
    MIN_MEMORY_MB <= m <= MAX_MEMORY_MB
}

pub open spec fn port_ok(p: u16) -> bool {
    p >= MIN_PORT
}

/// The directory holds no parent-directory segment.
pub open spec fn directory_safe(d: Seq<char>) -> bool {
    !has_parent_segment(d)
}

/// The artifact name holds no path separator and is no parent-directory
/// segment.
pub open spec fn jar_safe(j: Seq<char>) -> bool {
    !has_parent_segment(j) && !contains_seq(j, slash())
}

/// The identifier holds no path separator and is no parent-directory
/// segment.
pub open spec fn id_safe(i: Seq<char>) -> bool {
    !contains_seq(i, slash()) && !contains_seq(i, backslash()) && !has_parent_segment(i)
}

/// Every field of the definition is within its bounds and safe, and its
/// working directory exists.
pub open spec fn definition_valid(cfg: ServerConfig, directory_exists: bool) -> bool {
    memory_ok(cfg.memory_mb) && port_ok(cfg.port) && directory_safe(cfg.directory@)
        && directory_exists && jar_safe(cfg.jar@) && id_safe(cfg.id@)
}

/// The outcome of validation, the checks taken in a fixed order.
pub open spec fn validation_of(cfg: ServerConfig, directory_exists: bool) -> Result<
    (),
    ValidationError,
> {
    if !memory_ok(cfg.memory_mb) {
        Err(ValidationError::MemoryOutOfRange)
    } else if !port_ok(cfg.port) {
        Err(ValidationError::PortTooLow)
    } else if !directory_safe(cfg.directory@) {
        Err(ValidationError::DirectoryHasParentSegment)
    } else if !jar_safe(cfg.jar@) {
        Err(ValidationError::JarUnsafe)
    } else if !id_safe(cfg.id@) {
        Err(ValidationError::IdUnsafe)
    } else if !directory_exists {
        Err(ValidationError::DirectoryMissing)
    } else {
        Ok(())
    }
}

/// Checks the bounds and the file-system safety of a definition.
/// `directory_exists` tells whether its working directory exists on disk.
pub fn validate_server_config(cfg: &ServerConfig, directory_exists: bool) -> (r: Result<
    (),
    ValidationError,
>)
    ensures
        r == validation_of(*cfg, directory_exists),
        r is Ok <==> definition_valid(*cfg, directory_exists),
{
    proof {
        reveal_strlit("/");
        reveal_strlit("\\");
        assert("/"@ =~= slash());
        assert("\\"@ =~= backslash());
    }
    if cfg.memory_mb < MIN_MEMORY_MB || cfg.memory_mb > MAX_MEMORY_MB {
        return Err(ValidationError::MemoryOutOfRange);
    }
    if cfg.port < MIN_PORT {
        return Err(ValidationError::PortTooLow);
    }
    if contains_parent_segment(cfg.directory.as_str()) {
        return Err(ValidationError::DirectoryHasParentSegment);
    }
    if contains_parent_segment(cfg.jar.as_str()) || str_contains(cfg.jar.as_str(), "/") {
        return Err(ValidationError::JarUnsafe);
    }
    if str_contains(cfg.id.as_str(), "/") || str_contains(cfg.id.as_str(), "\\")
        || contains_parent_segment(cfg.id.as_str()) {
        return Err(ValidationError::IdUnsafe);
    }
    if !directory_exists {
        return Err(ValidationError::DirectoryMissing);
    }
    Ok(())
}

/// `i` is the first position in `servers` whose definition has identifier `id`.
pub open spec fn first_match(servers: Seq<ServerConfig>, id: Seq<char>, i: int) -> bool {
    0 <= i < servers.len() && servers[i].id@ == id && forall|j: int|
        0 <= j < i ==> servers[j].id@ != id
}

/// Some definition in `servers` has identifier `id`.
pub open spec fn has_id(servers: Seq<ServerConfig>, id: Seq<char>) -> bool {
    exists|i: int| 0 <= i < servers.len() && servers[i].id@ == id
}

/// No two definitions share an identifier.
pub open spec fn ids_unique(servers: Seq<ServerConfig>) -> bool {
    forall|i: int, j: int|
        0 <= i < servers.len() && 0 <= j < servers.len() && i != j ==> servers[i].id@
            != servers[j].id@
}

impl Config {
    /// The position of the definition with identifier `id`, if any.
    pub fn find_server(&self, id: &str) -> (r: Option<usize>)
        ensures
            match r {
                Some(i) => first_match(self.servers@, id@, i as int),
                None => !has_id(self.servers@, id@),
            },
    {
        let mut i: usize = 0;
        while i < self.servers.len()
            invariant
                i <= self.servers@.len(),
                forall|j: int| 0 <= j < i ==> self.servers@[j].id@ != id@,
            decreases self.servers@.len() - i,
        {
            if same_text(self.servers[i].id.as_str(), id) {
                return Some(i);
            }
            i = i + 1;
        }
        None
    }
}

/// Adds a new definition. Fails with `AlreadyExists` where its identifier is
/// taken, else with the validation error where it is invalid; the list is
/// unchanged on failure.
pub fn create_server(config: &mut Config, input: ServerConfig, directory_exists: bool) -> (r: Result<(), AgentError>)
    ensures
        final(config).agent == old(config).agent,
        has_id(old(config).servers@, input.id@) ==> r == Err::<(), AgentError>(AgentError::AlreadyExists),
        !has_id(old(config).servers@, input.id@) ==> match validation_of(input, directory_exists) {
            Err(e) => r == Err::<(), AgentError>(AgentError::Invalid(e)),
            Ok(_) => r is Ok,
        },
        r is Ok ==> final(config).servers@ == old(config).servers@.push(input),
        r is Err ==> final(config).servers@ == old(config).servers@,
        ids_unique(old(config).servers@) && r is Ok ==> ids_unique(final(config).servers@),
{
    if config.find_server(input.id.as_str()).is_some() {
        return Err(AgentError::AlreadyExists);
    }
    match validate_server_config(&input, directory_exists) {
        Err(e) => Err(AgentError::Invalid(e)),
        Ok(()) => {
            config.servers.push(input);
            Ok(())
        },
    }
}

/// Replaces the definition with identifier `id` by `input`. Fails with
/// `IdMismatch` where `input` carries another identifier, `NotFound` where
/// none has it, `ImmutableWhileRunning` where the server runs and the
/// directory or port would change, else with the validation error.
pub fn update_server(
    config: &mut Config,
    id: &str,
    input: ServerConfig,
    is_running: bool,
    directory_exists: bool,
) -> (r: Result<(), AgentError>)
    ensures
        final(config).agent == old(config).agent,
        input.id@ != id@ ==> r == Err::<(), AgentError>(AgentError::IdMismatch),
        input.id@ == id@ && !has_id(old(config).servers@, id@) ==> r == Err::<(), AgentError>(
            AgentError::NotFound,
        ),
        input.id@ == id@ ==> forall|i: int|
            first_match(old(config).servers@, id@, i) ==> {
                let existing = old(config).servers@[i];
                if is_running && (existing.directory@ != input.directory@ || existing.port
                    != input.port) {
                    r == Err::<(), AgentError>(AgentError::ImmutableWhileRunning)
                } else {
                    match validation_of(input, directory_exists) {
                        Err(e) => r == Err::<(), AgentError>(AgentError::Invalid(e)),
                        Ok(_) => r is Ok && final(config).servers@ == old(
                            config,
                        ).servers@.update(i, input),
                    }
                }
            },
        r is Err ==> final(config).servers@ == old(config).servers@,
{
    if !same_text(input.id.as_str(), id) {
        return Err(AgentError::IdMismatch);
    }
    let idx = match config.find_server(id) {
        Some(i) => i,
        None => {
            return Err(AgentError::NotFound);
        },
    };
    if is_running && (!same_text(config.servers[idx].directory.as_str(), input.directory.as_str())
        || config.servers[idx].port != input.port) {
        return Err(AgentError::ImmutableWhileRunning);
    }
    match validate_server_config(&input, directory_exists) {
        Err(e) => Err(AgentError::Invalid(e)),
        Ok(()) => {
            config.servers.set(idx, input);
            Ok(())
        },
    }
}

/// `servers` without the definitions whose identifier is `id`, in order.
pub open spec fn without_id(servers: Seq<ServerConfig>, id: Seq<char>) -> Seq<ServerConfig>
    decreases servers.len(),
{
    if servers.len() == 0 {
        Seq::empty()
    } else {
        let rest = without_id(servers.drop_last(), id);
        if servers.last().id@ == id {
            rest
        } else {
            rest.push(servers.last())
        }
    }
}

/// Removes every definition with identifier `id`. Fails with `StillRunning`
/// where the server runs, and with `NotFound` where no definition has it.
pub fn delete_server(config: &mut Config, id: &str, is_running: bool) -> (r: Result<(), AgentError>)
    ensures
        final(config).agent == old(config).agent,
        is_running ==> r == Err::<(), AgentError>(AgentError::StillRunning),
        !is_running && !has_id(old(config).servers@, id@) ==> r == Err::<(), AgentError>(
            AgentError::NotFound,
        ),
        !is_running && has_id(old(config).servers@, id@) ==> r is Ok,
        r is Ok ==> final(config).servers@ == without_id(old(config).servers@, id@),
        r is Ok ==> !has_id(final(config).servers@, id@),
        r is Err ==> final(config).servers@ == old(config).servers@,
{
    if is_running {
        return Err(AgentError::StillRunning);
    }
    if config.find_server(id).is_none() {
        return Err(AgentError::NotFound);
    }
    let mut kept: Vec<ServerConfig> = Vec::new();
    let mut i: usize = 0;
    while i < config.servers.len()
        invariant
            i <= config.servers@.len(),
            kept@ == without_id(config.servers@.subrange(0, i as int), id@),
            forall|k: int| 0 <= k < kept@.len() ==> (#[trigger] kept@[k]).id@ != id@,
        decreases config.servers@.len() - i,
    {
        assert(config.servers@.subrange(0, i + 1).drop_last() =~= config.servers@.subrange(
            0,
            i as int,
        ));
        if !same_text(config.servers[i].id.as_str(), id) {
            kept.push(config.servers[i].duplicate());
        }
        i = i + 1;
    }
    assert(config.servers@.subrange(0, config.servers@.len() as int) =~= config.servers@);
    config.servers = kept;
    Ok(())
}

} // verus!
