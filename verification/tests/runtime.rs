use redis_runner::dotdir::StoreFault;
use redis_runner::pid::PIDEntry;
use redis_runner::runtime::{
    check_cluster_health, kill_current_processes_args, node_endpoint,
    spawn_cluster_process_args, spawn_health_check_process_args, start_cluster, stop_cluster,
    Action, ClusterError, Event, Run,
};

fn strings(items: &[&str]) -> Vec<String> {
    items.iter().map(|s| s.to_string()).collect()
}

fn finish(result: Result<(), ClusterError>) -> Action {
    Action::Finish { result }
}

fn feed(run: Run, event: Event) -> (Run, Action) {
    let run = run.on_event(event);
    let action = run.action();
    (run, action)
}

#[test]
fn check_cluster_health_failed_pid_check() {
    let sample_host = "localhost".to_string();
    let run = check_cluster_health(&sample_host);
    assert_eq!(run.action(), Action::LoadRegistry);
    let run = run.on_event(Event::RegistryUnavailable(StoreFault::RegistryIOError));
    let cluster_result = run.result().unwrap();
    assert!(cluster_result.is_err());
    assert_eq!(cluster_result, Err(ClusterError::RegistryIOError));
}

#[test]
fn check_cluster_health_empty_pid_set() {
    let sample_host = "localhost".to_string();
    let run = check_cluster_health(&sample_host).on_event(Event::RegistryLoaded(String::new()));
    let cluster_result = run.result().unwrap();
    assert!(cluster_result.is_err());
    assert_eq!(cluster_result, Err(ClusterError::NotRunning));
    assert_eq!(run.action(), finish(Err(ClusterError::NotRunning)));
}

#[test]
fn check_cluster_health_process_should_start() {
    let sample_host = "localhost".to_string();
    let (run, action) = feed(
        check_cluster_health(&sample_host),
        Event::RegistryLoaded("7000 1234\n".to_string()),
    );
    assert_eq!(
        action,
        Action::RunHealthCheck { args: strings(&["--cluster", "check", "localhost:7000"]) }
    );
    assert_eq!(run.registry().first(), Some(&PIDEntry { port: "7000".to_string(), pid: 1234 }));
    let run = run.on_event(Event::HealthChecked(true));
    let cluster_result = run.result().unwrap();
    assert!(cluster_result.is_ok());
}

#[test]
fn test_get_currently_running_pids_failure() {
    let run = start_cluster(&"localhost".to_string(), strings(&["a.conf"]))
        .on_event(Event::RegistryUnavailable(StoreFault::RegistryIOError));
    let pids = run.result().unwrap();
    assert!(pids.is_err());
}

#[test]
fn test_write_data_to_pid_file_fail_to_create() {
    let (run, _) = feed(stop_cluster(), Event::RegistryLoaded("7000 1\n".to_string()));
    let (run, action) = feed(run, Event::Launched(Some(77)));
    assert_eq!(action, Action::SaveRegistry { contents: String::new() });
    let run = run.on_event(Event::Saved(Some(StoreFault::RegistryIOError)));
    let write_result = run.result().unwrap();
    assert!(write_result.is_err());
    assert_eq!(write_result, Err(ClusterError::RegistryIOError));
}

#[test]
fn check_probes_the_first_node() {
    let (_, action) = feed(
        check_cluster_health(&"127.0.0.1".to_string()),
        Event::RegistryLoaded("7000 1234\n".to_string()),
    );
    assert_eq!(
        action,
        Action::RunHealthCheck { args: strings(&["--cluster", "check", "127.0.0.1:7000"]) }
    );
    let (_, action) = feed(
        check_cluster_health(&"127.0.0.1".to_string()),
        Event::RegistryLoaded("7002 9\n7000 3\n".to_string()),
    );
    assert_eq!(
        action,
        Action::RunHealthCheck { args: strings(&["--cluster", "check", "127.0.0.1:7002"]) }
    );
}

#[test]
fn check_reports_a_failed_probe() {
    let (run, _) = feed(
        check_cluster_health(&"127.0.0.1".to_string()),
        Event::RegistryLoaded("7000 1234\n".to_string()),
    );
    let (run, action) = feed(run, Event::HealthChecked(false));
    assert_eq!(action, finish(Err(ClusterError::HealthCheckFailed)));
    assert!(run.is_done());
}

#[test]
fn check_reports_the_fault_of_the_store() {
    let (_, action) = feed(
        check_cluster_health(&"h".to_string()),
        Event::RegistryUnavailable(StoreFault::ConfigDirUnavailable),
    );
    assert_eq!(action, finish(Err(ClusterError::ConfigDirUnavailable)));
}

#[test]
fn start_on_a_running_cluster_is_refused() {
    let run = start_cluster(&"127.0.0.1".to_string(), strings(&["a.conf", "b.conf"]));
    assert_eq!(run.action(), Action::LoadRegistry);
    assert_eq!(run.result(), None);
    let (run, action) = feed(run, Event::RegistryLoaded("7000 1\n".to_string()));
    assert_eq!(action, finish(Err(ClusterError::AlreadyRunning)));
    assert_eq!(run.result(), Some(Err(ClusterError::AlreadyRunning)));
    let (_, action) = feed(run, Event::Launched(Some(5)));
    assert_eq!(action, finish(Err(ClusterError::AlreadyRunning)));
}

#[test]
fn start_with_unreadable_registry_is_indeterminate() {
    let (_, action) = feed(
        start_cluster(&"127.0.0.1".to_string(), strings(&["a.conf"])),
        Event::RegistryUnavailable(StoreFault::ConfigDirUnavailable),
    );
    assert_eq!(action, finish(Err(ClusterError::IndeterminateState)));
    let (_, action) =
        feed(stop_cluster(), Event::RegistryUnavailable(StoreFault::RegistryIOError));
    assert_eq!(action, finish(Err(ClusterError::IndeterminateState)));
}

#[test]
fn start_without_a_port_or_a_launch_finds_no_valid_configs() {
    let files = strings(&["a.conf", "b.conf", "c.conf"]);
    let (run, action) =
        feed(start_cluster(&"127.0.0.1".to_string(), files), Event::RegistryLoaded(String::new()));
    assert_eq!(action, Action::ReadConfig { path: "a.conf".to_string() });
    let (run, action) = feed(run, Event::ConfigRead(None));
    assert_eq!(action, Action::ReadConfig { path: "b.conf".to_string() });
    let (run, action) = feed(run, Event::ConfigRead(Some("bind 127.0.0.1\n".to_string())));
    assert_eq!(action, Action::ReadConfig { path: "c.conf".to_string() });
    let (run, action) = feed(run, Event::ConfigRead(Some("port 7002\n".to_string())));
    assert_eq!(action, Action::SpawnServer { conf_path: "c.conf".to_string() });
    let (run, action) = feed(run, Event::Launched(None));
    assert_eq!(action, finish(Err(ClusterError::NoValidConfigs)));
    assert!(run.registry().is_empty());
    assert_eq!(run.result(), Some(Err(ClusterError::NoValidConfigs)));
}

#[test]
fn start_with_no_file_at_all_finds_no_valid_configs() {
    let (_, action) = feed(
        start_cluster(&"127.0.0.1".to_string(), Vec::new()),
        Event::RegistryLoaded("junk\n".to_string()),
    );
    assert_eq!(action, finish(Err(ClusterError::NoValidConfigs)));
}

#[test]
fn start_of_three_nodes_of_which_two_launch() {
    let files = strings(&["n/7000.conf", "n/7001.conf", "n/7002.conf"]);
    let run = start_cluster(&"10.0.0.5".to_string(), files);
    let (run, action) = feed(run, Event::RegistryLoaded(String::new()));
    assert_eq!(action, Action::ReadConfig { path: "n/7000.conf".to_string() });
    let (run, action) = feed(run, Event::ConfigRead(Some("port 7000\n".to_string())));
    assert_eq!(action, Action::SpawnServer { conf_path: "n/7000.conf".to_string() });
    let (run, action) = feed(run, Event::Launched(Some(501)));
    assert_eq!(action, Action::ReadConfig { path: "n/7001.conf".to_string() });
    let (run, action) = feed(run, Event::ConfigRead(Some("port 7001\n".to_string())));
    assert_eq!(action, Action::SpawnServer { conf_path: "n/7001.conf".to_string() });
    let (run, action) = feed(run, Event::Launched(Some(502)));
    assert_eq!(action, Action::ReadConfig { path: "n/7002.conf".to_string() });
    let (run, action) = feed(run, Event::ConfigRead(Some("port 7002\n".to_string())));
    assert_eq!(action, Action::SpawnServer { conf_path: "n/7002.conf".to_string() });
    let (run, action) = feed(run, Event::Launched(None));
    assert_eq!(action, Action::SaveRegistry { contents: "7000 501\n7001 502\n".to_string() });
    assert_eq!(run.registry().len(), 2);
    assert_eq!(run.registry().get(0).port, "7000");
    assert_eq!(run.registry().get(1).port, "7001");
    let (run, action) = feed(run, Event::Saved(None));
    assert_eq!(
        action,
        Action::SpawnFormation {
            args: strings(&["--cluster", "create", "10.0.0.5:7000", "10.0.0.5:7001"])
        }
    );
    let (run, action) = feed(run, Event::Launched(Some(600)));
    assert_eq!(action, finish(Ok(())));
    assert_eq!(run.result(), Some(Ok(())));
    assert_eq!(run.registry().len(), 2);
}

#[test]
fn start_goes_on_when_the_save_fails() {
    let run = start_cluster(&"h".to_string(), strings(&["a.conf"]));
    let (run, _) = feed(run, Event::RegistryLoaded(String::new()));
    let (run, _) = feed(run, Event::ConfigRead(Some("port 7000".to_string())));
    let (run, action) = feed(run, Event::Launched(Some(8)));
    assert_eq!(action, Action::SaveRegistry { contents: "7000 8\n".to_string() });
    let (run, action) = feed(run, Event::Saved(Some(StoreFault::RegistryIOError)));
    assert_eq!(action, Action::SpawnFormation { args: strings(&["--cluster", "create", "h:7000"]) });
    let (_, action) = feed(run, Event::Launched(None));
    assert_eq!(action, finish(Err(ClusterError::FormationLaunchFailed)));
}

#[test]
fn stop_on_an_empty_registry_is_refused() {
    let run = stop_cluster();
    assert_eq!(run.action(), Action::LoadRegistry);
    let (run, action) = feed(run, Event::RegistryLoaded("not an entry\n".to_string()));
    assert_eq!(action, finish(Err(ClusterError::NotRunning)));
    assert!(run.is_done());
}

#[test]
fn stop_terminates_all_at_once_and_clears_the_registry() {
    let (run, action) =
        feed(stop_cluster(), Event::RegistryLoaded("7000 501\n7001 4294967295\n".to_string()));
    assert_eq!(action, Action::SpawnTermination { args: strings(&["501", "4294967295"]) });
    let (run, action) = feed(run, Event::Launched(Some(900)));
    assert_eq!(action, Action::SaveRegistry { contents: String::new() });
    assert!(run.registry().is_empty());
    let (_, action) = feed(run, Event::Saved(None));
    assert_eq!(action, finish(Ok(())));
}

#[test]
fn stop_keeps_the_registry_when_termination_cannot_be_launched() {
    let (run, _) = feed(stop_cluster(), Event::RegistryLoaded("7000 501\n".to_string()));
    let (run, action) = feed(run, Event::Launched(None));
    assert_eq!(action, finish(Err(ClusterError::TerminationLaunchFailed)));
    assert_eq!(run.registry().len(), 1);
}

#[test]
fn an_event_that_is_not_awaited_changes_nothing() {
    let run = start_cluster(&"h".to_string(), strings(&["a.conf"]));
    let (run, action) = feed(run, Event::Saved(None));
    assert_eq!(action, Action::LoadRegistry);
    let (run, _) = feed(run, Event::RegistryLoaded(String::new()));
    let (run, action) = feed(run, Event::Launched(Some(3)));
    assert_eq!(action, Action::ReadConfig { path: "a.conf".to_string() });
    assert!(run.registry().is_empty());
    assert!(!run.is_done());
}

#[test]
fn a_process_id_is_tracked_once() {
    let run = start_cluster(&"h".to_string(), strings(&["a.conf", "b.conf"]));
    let (run, _) = feed(run, Event::RegistryLoaded(String::new()));
    let (run, _) = feed(run, Event::ConfigRead(Some("port 7000".to_string())));
    let (run, _) = feed(run, Event::Launched(Some(8)));
    let (run, _) = feed(run, Event::ConfigRead(Some("port 7001".to_string())));
    let (_, action) = feed(run, Event::Launched(Some(8)));
    assert_eq!(action, Action::SaveRegistry { contents: "7000 8\n".to_string() });
}

#[test]
fn arguments_of_the_commands() {
    let host = "127.0.0.1".to_string();
    assert_eq!(node_endpoint(&host, &"7000".to_string()), "127.0.0.1:7000");
    assert_eq!(
        spawn_health_check_process_args("127.0.0.1:7000".to_string()),
        strings(&["--cluster", "check", "127.0.0.1:7000"])
    );
    let set = redis_runner::pid::get_currently_running_pids("7000 10\n7001 0\n");
    assert_eq!(
        spawn_cluster_process_args(&host, &set),
        strings(&["--cluster", "create", "127.0.0.1:7000", "127.0.0.1:7001"])
    );
    assert_eq!(kill_current_processes_args(&set), strings(&["10", "0"]));
}

#[test]
fn messages() {
    assert_eq!(
        ClusterError::AlreadyRunning.message(),
        "Servers are already running. If you wish to restart, first stop the cluster."
    );
    assert_eq!(ClusterError::NotRunning.message(), "No servers are running.");
    assert_eq!(
        ClusterError::NoValidConfigs.message(),
        "No valid configuration files were found."
    );
    assert_eq!(
        ClusterError::FormationLaunchFailed.message(),
        "Failed to spawn main process for cluster."
    );
    assert_eq!(
        ClusterError::TerminationLaunchFailed.message(),
        "Failed to kill all server processes."
    );
    assert_eq!(ClusterError::HealthCheckFailed.message(), "Failed check command.");
    assert_eq!(
        ClusterError::IndeterminateState.message(),
        "Failed to assess current run state of system. Either manually delete $HOME/.rr/servers.pid or ensure all processes are stopped."
    );
    assert!(!ClusterError::ConfigDirUnavailable.message().is_empty());
    assert!(!ClusterError::RegistryIOError.message().is_empty());
}
