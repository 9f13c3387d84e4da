use mc_node_agent::backlog::{ConsoleBacklog, BACKLOG_CAPACITY};
use mc_node_agent::config::{
    create_server, delete_server, update_server, validate_server_config, AgentConfig, Config,
    ServerConfig,
};
use mc_node_agent::error::{AgentError, ErrorKind, ValidationError};
use mc_node_agent::escalation::{StopAction, StopEscalation, StopStage, POLL_INTERVAL_MS, STOP_BUDGET_MS};
use mc_node_agent::orphan::{launcher_name, matches_server, orphaned_pids, ProcessInfo};
use mc_node_agent::registry::Registry;
use mc_node_agent::status::{autostart_ids, list_servers, server_status, LiveInfo, RunStatus};
use mc_node_agent::supervisor::{command_line, plan_start, reconcile_exit, stop_command, ExitFollowup};
use mc_node_agent::text::{contains_parent_segment, same_text, str_contains};

fn server(id: &str, dir: &str, jar: &str, memory_mb: u32, port: u16, autostart: bool) -> ServerConfig {
    ServerConfig {
        id: id.to_string(),
        name: format!("Server {}", id),
        directory: dir.to_string(),
        jar: jar.to_string(),
        memory_mb,
        port,
        autostart,
        backup_directory: None,
    }
}

fn good(id: &str) -> ServerConfig {
    server(id, "/srv/mc", "server.jar", 2048, 25565, false)
}

fn config_with(servers: Vec<ServerConfig>) -> Config {
    Config { agent: AgentConfig::default(), servers }
}

#[test]
fn substring_search() {
    assert!(str_contains("a/b", "/"));
    assert!(str_contains("x..y", ".."));
    assert!(!str_contains("x.y.z", ".."));
    assert!(str_contains("abc", ""));
    assert!(!str_contains("", "a"));
    assert!(same_text("abc", "abc"));
    assert!(!same_text("abc", "abd"));
    assert!(!same_text("abc", "ab"));
}

#[test]
fn parent_segments() {
    assert!(contains_parent_segment(".."));
    assert!(contains_parent_segment("../x"));
    assert!(contains_parent_segment("/srv/../etc"));
    assert!(contains_parent_segment("/srv/.."));
    assert!(!contains_parent_segment("a..b"));
    assert!(!contains_parent_segment("/srv/..x/y"));
    assert!(!contains_parent_segment("/srv/x../y"));
    assert!(!contains_parent_segment("..."));
    assert!(!contains_parent_segment("."));
    assert!(!contains_parent_segment(""));
}

#[test]
fn defaults() {
    let a = AgentConfig::default();
    assert_eq!(a.bind_address, "0.0.0.0:8080");
    assert_eq!(a.data_directory, "/servers");
    let c = Config::default();
    assert!(c.servers.is_empty());
}

#[test]
fn validate_accepts_valid_definition() {
    assert_eq!(validate_server_config(&good("alpha"), true), Ok(()));
}

#[test]
fn validate_memory_bounds() {
    let mut s = good("a");
    s.memory_mb = 512;
    assert_eq!(validate_server_config(&s, true), Ok(()));
    s.memory_mb = 32768;
    assert_eq!(validate_server_config(&s, true), Ok(()));
    s.memory_mb = 511;
    assert_eq!(validate_server_config(&s, true), Err(ValidationError::MemoryOutOfRange));
    s.memory_mb = 32769;
    assert_eq!(validate_server_config(&s, true), Err(ValidationError::MemoryOutOfRange));
}

#[test]
fn validate_port_bound() {
    let mut s = good("a");
    s.port = 1024;
    assert_eq!(validate_server_config(&s, true), Ok(()));
    s.port = 1023;
    assert_eq!(validate_server_config(&s, true), Err(ValidationError::PortTooLow));
}

#[test]
fn validate_directory() {
    let s = server("a", "/srv/../etc", "server.jar", 1024, 25565, false);
    assert_eq!(validate_server_config(&s, true), Err(ValidationError::DirectoryHasParentSegment));
    let s = server("a", "/srv/..", "server.jar", 1024, 25565, false);
    assert_eq!(validate_server_config(&s, true), Err(ValidationError::DirectoryHasParentSegment));
    let s = server("a", "/srv/mc..old", "server.jar", 1024, 25565, false);
    assert_eq!(validate_server_config(&s, true), Ok(()));
    let s = good("a");
    assert_eq!(validate_server_config(&s, false), Err(ValidationError::DirectoryMissing));
}

#[test]
fn validate_jar_and_id() {
    let s = server("a", "/srv/mc", "../x.jar", 1024, 25565, false);
    assert_eq!(validate_server_config(&s, true), Err(ValidationError::JarUnsafe));
    let s = server("a", "/srv/mc", "..", 1024, 25565, false);
    assert_eq!(validate_server_config(&s, true), Err(ValidationError::JarUnsafe));
    let s = server("a", "/srv/mc", "lib/x.jar", 1024, 25565, false);
    assert_eq!(validate_server_config(&s, true), Err(ValidationError::JarUnsafe));
    for jar in ["server..1.jar", "a..b"] {
        let s = server("s1", "/", jar, 1024, 25565, false);
        assert_eq!(validate_server_config(&s, true), Ok(()));
    }
    for id in ["a/b", "a\\b", ".."] {
        let s = server(id, "/srv/mc", "x.jar", 1024, 25565, false);
        assert_eq!(validate_server_config(&s, true), Err(ValidationError::IdUnsafe));
    }
    let s = server("a..b", "/srv/mc", "x.jar", 1024, 25565, false);
    assert_eq!(validate_server_config(&s, true), Ok(()));
}

#[test]
fn create_update_delete() {
    let mut c = Config::default();
    assert_eq!(create_server(&mut c, good("a"), true), Ok(()));
    assert_eq!(create_server(&mut c, good("b"), true), Ok(()));
    assert_eq!(create_server(&mut c, good("a"), true), Err(AgentError::AlreadyExists));
    let mut bad = good("c");
    bad.port = 80;
    assert_eq!(
        create_server(&mut c, bad, true),
        Err(AgentError::Invalid(ValidationError::PortTooLow))
    );
    assert_eq!(c.servers.len(), 2);
    assert_eq!(c.find_server("b"), Some(1));
    assert_eq!(c.find_server("z"), None);

    let mut moved = good("a");
    moved.directory = "/srv/other".to_string();
    assert_eq!(update_server(&mut c, "b", moved.clone(), false, true), Err(AgentError::IdMismatch));
    assert_eq!(update_server(&mut c, "z", good("z"), false, true), Err(AgentError::NotFound));
    assert_eq!(
        update_server(&mut c, "a", moved.clone(), true, true),
        Err(AgentError::ImmutableWhileRunning)
    );
    assert_eq!(c.servers[0].directory, "/srv/mc");
    let mut renamed = good("a");
    renamed.name = "Renamed".to_string();
    assert_eq!(update_server(&mut c, "a", renamed, true, true), Ok(()));
    assert_eq!(c.servers[0].name, "Renamed");
    assert_eq!(update_server(&mut c, "a", moved, false, true), Ok(()));
    assert_eq!(c.servers[0].directory, "/srv/other");

    assert_eq!(delete_server(&mut c, "a", true), Err(AgentError::StillRunning));
    assert_eq!(delete_server(&mut c, "z", false), Err(AgentError::NotFound));
    assert_eq!(delete_server(&mut c, "a", false), Ok(()));
    assert_eq!(c.servers.len(), 1);
    assert_eq!(c.servers[0].id, "b");
}

#[test]
fn delete_removes_every_duplicate() {
    let mut c = config_with(vec![good("a"), good("b"), good("a"), good("c")]);
    assert_eq!(delete_server(&mut c, "a", false), Ok(()));
    let ids: Vec<&str> = c.servers.iter().map(|s| s.id.as_str()).collect();
    assert_eq!(ids, vec!["b", "c"]);
    assert_eq!(c.find_server("a"), None);
}

#[test]
fn error_kinds() {
    assert_eq!(AgentError::Invalid(ValidationError::PortTooLow).kind(), ErrorKind::Validation);
    assert_eq!(AgentError::IdMismatch.kind(), ErrorKind::Validation);
    assert_eq!(AgentError::AlreadyRunning.kind(), ErrorKind::Conflict);
    assert_eq!(AgentError::NotRunning.kind(), ErrorKind::Conflict);
    assert_eq!(AgentError::StillRunning.kind(), ErrorKind::Conflict);
    assert_eq!(AgentError::NotFound.kind(), ErrorKind::NotFound);
    assert_eq!(AgentError::Spawn.kind(), ErrorKind::Spawn);
    assert_eq!(AgentError::Io.kind(), ErrorKind::Io);
    assert_eq!(AgentError::Persistence.kind(), ErrorKind::Persistence);
}

#[test]
fn error_messages() {
    assert_eq!(
        ValidationError::MemoryOutOfRange.message(),
        "memory_mb must be between 512 and 32768"
    );
    assert_eq!(ValidationError::PortTooLow.message(), "port must be between 1024 and 65535");
    assert_eq!(ValidationError::IdUnsafe.message(), "id must not contain '/' or '\\', or be '..'");
    assert_eq!(
        AgentError::Invalid(ValidationError::JarUnsafe).message(),
        "jar must not contain '/' or be '..'"
    );
    assert_eq!(
        AgentError::Invalid(ValidationError::DirectoryMissing).report("/srv/gone"),
        "directory '/srv/gone' does not exist"
    );
    assert_eq!(
        ValidationError::PortTooLow.report("/srv/mc"),
        "port must be between 1024 and 65535"
    );
    assert_eq!(AgentError::NotRunning.report("/srv/mc"), "server is not running");
    assert_eq!(AgentError::StillRunning.message(), "server must be stopped before deletion");
    assert_eq!(AgentError::NotFound.message(), "server not found");
}

#[test]
fn backlog_replays_most_recent_500() {
    let mut b = ConsoleBacklog::new();
    let mut from_start: Vec<String> = Vec::new();
    for i in 0..600 {
        let line = format!("line {}", i);
        from_start.push(line.clone());
        b.push_line(line);
    }
    let replay = b.replay();
    assert_eq!(replay.len(), BACKLOG_CAPACITY);
    assert_eq!(b.len(), 500);
    assert_eq!(replay[0], "line 100");
    assert_eq!(replay[499], "line 599");
    let mut late = replay.clone();
    for i in 600..610 {
        let line = format!("line {}", i);
        from_start.push(line.clone());
        b.push_line(line.clone());
        late.push(line);
    }
    assert_eq!(late[..], from_start[100..]);
}

#[test]
fn backlog_under_capacity() {
    let mut b = ConsoleBacklog::new();
    assert!(b.replay().is_empty());
    b.push_line("out".to_string());
    b.push_line("err".to_string());
    assert_eq!(b.replay(), vec!["out".to_string(), "err".to_string()]);
}

#[test]
fn registry_exclusive_insert_and_single_removal() {
    let mut r: Registry<u32> = Registry::new();
    assert_eq!(r.insert_new("a".to_string(), 1000, 10), Ok(()));
    assert_eq!(r.insert_new("a".to_string(), 1001, 11), Err(11));
    assert_eq!(r.get("a"), Some(&10));
    assert_eq!(r.pid_of("a"), Some(1000));
    assert!(r.contains_key("a"));
    assert_eq!(r.insert_new("b".to_string(), 2000, 20), Ok(()));
    let mut ids = r.ids();
    ids.sort();
    assert_eq!(ids, vec!["a".to_string(), "b".to_string()]);
    assert_eq!(r.remove_instance("a", 999), None);
    assert_eq!(r.get("a"), Some(&10));
    assert_eq!(r.remove_instance("a", 1000), Some(10));
    assert_eq!(r.remove_instance("a", 1000), None);
    assert!(!r.contains_key("a"));
    assert_eq!(r.pid_of("a"), None);
    assert_eq!(r.get("b"), Some(&20));
}

#[test]
fn second_start_conflicts() {
    let c = config_with(vec![good("a")]);
    let mut r: Registry<u32> = Registry::new();
    let plan = plan_start(&c, "a", r.contains_key("a"), true).unwrap();
    assert_eq!(plan.memory_mb, 2048);
    assert_eq!(plan.jar, "server.jar");
    assert_eq!(plan.directory, "/srv/mc");
    assert_eq!(r.insert_new("a".to_string(), 4242, 1), Ok(()));
    assert_eq!(
        plan_start(&c, "a", r.contains_key("a"), true).unwrap_err(),
        AgentError::AlreadyRunning
    );
    assert_eq!(r.insert_new("a".to_string(), 4343, 2), Err(2));
    assert_eq!(r.ids().len(), 1);
    assert_eq!(r.get("a"), Some(&1));
    assert_eq!(r.pid_of("a"), Some(4242));
}

#[test]
fn start_errors() {
    let mut bad = good("a");
    bad.memory_mb = 100;
    let c = config_with(vec![bad]);
    assert_eq!(plan_start(&c, "z", false, true).unwrap_err(), AgentError::NotFound);
    assert_eq!(
        plan_start(&c, "a", false, true).unwrap_err(),
        AgentError::Invalid(ValidationError::MemoryOutOfRange)
    );
}

#[test]
fn launch_arguments() {
    let c = config_with(vec![server("a", "/srv/mc", "paper.jar", 4096, 25565, false)]);
    let plan = plan_start(&c, "a", false, true).unwrap();
    assert_eq!(plan.args(), vec!["-Xmx4096M", "-jar", "paper.jar", "nogui"]);
    let c = config_with(vec![server("a", "/srv/mc", "x.jar", 512, 25565, false)]);
    assert_eq!(plan_start(&c, "a", false, true).unwrap().args()[0], "-Xmx512M");
    let c = config_with(vec![server("a", "/srv/mc", "x.jar", 32768, 25565, false)]);
    assert_eq!(plan_start(&c, "a", false, true).unwrap().args()[0], "-Xmx32768M");
}

#[test]
fn exit_reconciled_once_with_autostart() {
    let c = config_with(vec![server("a", "/srv/mc", "x.jar", 1024, 25565, true), good("b")]);
    let mut r: Registry<u32> = Registry::new();
    r.insert_new("a".to_string(), 100, 1).unwrap();
    r.insert_new("b".to_string(), 200, 2).unwrap();
    assert_eq!(reconcile_exit(&mut r, &c, "a", 100), ExitFollowup::Autostart);
    assert_eq!(reconcile_exit(&mut r, &c, "a", 100), ExitFollowup::AlreadyHandled);
    assert!(plan_start(&c, "a", r.contains_key("a"), true).is_ok());
    assert_eq!(reconcile_exit(&mut r, &c, "b", 200), ExitFollowup::Stopped);
    assert_eq!(reconcile_exit(&mut r, &c, "b", 200), ExitFollowup::AlreadyHandled);
}

#[test]
fn stale_exit_report_keeps_new_instance() {
    let c = config_with(vec![server("a", "/srv/mc", "x.jar", 1024, 25565, true)]);
    let mut r: Registry<u32> = Registry::new();
    r.insert_new("a".to_string(), 100, 1).unwrap();
    assert_eq!(r.remove_instance("a", 100), Some(1));
    r.insert_new("a".to_string(), 101, 2).unwrap();
    assert_eq!(reconcile_exit(&mut r, &c, "a", 100), ExitFollowup::AlreadyHandled);
    assert_eq!(r.get("a"), Some(&2));
    assert_eq!(reconcile_exit(&mut r, &c, "a", 101), ExitFollowup::Autostart);
    assert!(!r.contains_key("a"));
}

#[test]
fn unanswered_stop_escalates_to_kill() {
    let mut s = StopEscalation::new();
    let mut actions = Vec::new();
    loop {
        let (next, action) = s.step(false);
        s = next;
        actions.push(action);
        if action == StopAction::Finish {
            break;
        }
    }
    assert_eq!(actions.len(), 43);
    assert!(actions[..30].iter().all(|a| *a == StopAction::Poll));
    assert_eq!(actions[30], StopAction::SendTerminate);
    assert!(actions[31..41].iter().all(|a| *a == StopAction::Poll));
    assert_eq!(actions[41], StopAction::ForceKill);
    assert_eq!(actions[42], StopAction::Finish);
    let polls = actions.iter().filter(|a| **a == StopAction::Poll).count() as u64;
    assert_eq!(polls * POLL_INTERVAL_MS, STOP_BUDGET_MS);
    assert_eq!(s.stage, StopStage::Done);
}

#[test]
fn stop_finishes_on_exit() {
    let s = StopEscalation::new();
    let (s, a) = s.step(false);
    assert_eq!(a, StopAction::Poll);
    let (s, a) = s.step(true);
    assert_eq!(a, StopAction::Finish);
    assert_eq!(s.stage, StopStage::Done);
}

#[test]
fn console_commands() {
    assert_eq!(command_line("say hi"), "say hi\n");
    assert_eq!(stop_command(), "stop\n");
}

#[test]
fn orphan_detection() {
    let c = config_with(vec![good("a"), server("b", "/srv/b", "b.jar", 1024, 25566, false)]);
    let procs = vec![
        ProcessInfo {
            pid: 100,
            cmd: vec!["/usr/bin/java".to_string(), "-jar".to_string(), "server.jar".to_string()],
            cwd: Some("/srv/mc".to_string()),
        },
        ProcessInfo {
            pid: 101,
            cmd: vec!["java".to_string(), "-jar".to_string(), "server.jar".to_string()],
            cwd: Some("/srv/elsewhere".to_string()),
        },
        ProcessInfo {
            pid: 102,
            cmd: vec!["python".to_string(), "server.jar".to_string()],
            cwd: Some("/srv/mc".to_string()),
        },
        ProcessInfo {
            pid: 103,
            cmd: vec!["java".to_string(), "-jar".to_string(), "b.jar".to_string()],
            cwd: Some("/srv/b".to_string()),
        },
        ProcessInfo { pid: 104, cmd: vec!["java".to_string(), "b.jar".to_string()], cwd: None },
    ];
    assert!(matches_server(&procs[0], &c.servers[0]));
    assert!(!matches_server(&procs[1], &c.servers[0]));
    assert_eq!(orphaned_pids(&c, &procs), vec![100, 103]);
    assert_eq!(launcher_name(), "java");
}

#[test]
fn listing_and_autostart() {
    let c = config_with(vec![
        server("a", "/srv/a", "a.jar", 1024, 25565, true),
        good("b"),
        server("c", "/srv/c", "c.jar", 1024, 25567, true),
    ]);
    let live = vec![None, Some(LiveInfo { pid: 77, uptime_seconds: 12 })];
    let l = list_servers(&c, &live);
    assert_eq!(l.len(), 3);
    assert_eq!(l[0].status, RunStatus::Stopped);
    assert_eq!(l[0].pid, None);
    assert_eq!(l[1].status, RunStatus::Running);
    assert_eq!(l[1].pid, Some(77));
    assert_eq!(l[1].uptime_seconds, Some(12));
    assert_eq!(l[2].status, RunStatus::Stopped);
    assert_eq!(l[1].config.id, "b");
    assert_eq!(RunStatus::Running.label(), "running");
    assert_eq!(RunStatus::Stopped.label(), "stopped");
    let s = server_status(&c.servers[0], None);
    assert_eq!(s.config.jar, "a.jar");
    assert_eq!(autostart_ids(&c), vec!["a".to_string(), "c".to_string()]);
}
