//! Start, stop and health check of the cluster, as a machine that is told what
//! happened and answers what to do next. The caller loads and saves the PID
//! file, reads configuration files and launches processes; every decision is
//! taken here.

use crate::config::{conf_port, lemma_conf_port_valid, read_conf_port};
use crate::dotdir::StoreFault;
use crate::pid::{
    distinct_pids, entries_from, get_currently_running_pids, has_pid, lemma_entries_valid,
    lemma_first_by_pid_is_distinct, lemma_first_by_pid_valid, lemma_pid_file_round_trip,
    pid_file_entries, pid_file_text, valid_port, valid_ports, write_data_to_pid_file, PIDEntry,
    PidSet,
};
use crate::text::{decimal, push_char, push_decimal, strings_view};
use vstd::prelude::*;

verus! {

/// The program that serves one node.
pub const NODE_SERVER_PROGRAM: &'static str = "redis-server";

/// The program that forms a cluster and checks its health.
pub const CLUSTER_CLIENT_PROGRAM: &'static str = "redis-cli";

/// The program that terminates processes.
pub const TERMINATION_PROGRAM: &'static str = "kill";

/// Why an operation failed.
#[derive(Debug, Clone, Copy, PartialEq, Eq, Structural)]
pub enum ClusterError {
    /// The directory that holds the PID file cannot be found or made.
    ConfigDirUnavailable,
    /// The PID file cannot be opened, made, read or written.
    RegistryIOError,
    /// The PID file cannot be read, so it is unknown whether a cluster runs.
    IndeterminateState,
    /// Nodes are tracked already; stop them first.
    AlreadyRunning,
    /// No node is tracked.
    NotRunning,
    /// No configuration file led to a running node.
    NoValidConfigs,
    /// The command that forms the cluster could not be launched.
    FormationLaunchFailed,
    /// The command that terminates the nodes could not be launched.
    TerminationLaunchFailed,
    /// The health check could not be launched, or reported a failure.
    HealthCheckFailed,
}

/// What the operator is told of an error.
pub open spec fn error_text(e: ClusterError) -> Seq<char> {
    match e {
        ClusterError::ConfigDirUnavailable => "No value found for $HOME, or no config directory .rr can be made in it."@,
        ClusterError::RegistryIOError => "Failed to open, create or write the PID lock file."@,
        ClusterError::IndeterminateState => "Failed to assess current run state of system. Either manually delete $HOME/.rr/servers.pid or ensure all processes are stopped."@,
        ClusterError::AlreadyRunning => "Servers are already running. If you wish to restart, first stop the cluster."@,
        ClusterError::NotRunning => "No servers are running."@,
        ClusterError::NoValidConfigs => "No valid configuration files were found."@,
        ClusterError::FormationLaunchFailed => "Failed to spawn main process for cluster."@,
        ClusterError::TerminationLaunchFailed => "Failed to kill all server processes."@,
        ClusterError::HealthCheckFailed => "Failed check command."@,
    }
}

impl ClusterError {
    /// What the operator is told of this error.
    pub fn message(&self) -> (r: String)
        ensures
            r@ == error_text(*self),
    {
        match self {
            ClusterError::ConfigDirUnavailable => "No value found for $HOME, or no config directory .rr can be made in it.".to_string(),
            ClusterError::RegistryIOError => "Failed to open, create or write the PID lock file.".to_string(),
            ClusterError::IndeterminateState => "Failed to assess current run state of system. Either manually delete $HOME/.rr/servers.pid or ensure all processes are stopped.".to_string(),
            ClusterError::AlreadyRunning => "Servers are already running. If you wish to restart, first stop the cluster.".to_string(),
            ClusterError::NotRunning => "No servers are running.".to_string(),
            ClusterError::NoValidConfigs => "No valid configuration files were found.".to_string(),
            ClusterError::FormationLaunchFailed => "Failed to spawn main process for cluster.".to_string(),
            ClusterError::TerminationLaunchFailed => "Failed to kill all server processes.".to_string(),
            ClusterError::HealthCheckFailed => "Failed check command.".to_string(),
        }
    }
}

/// The operation that a run carries out.
#[derive(Debug, Clone, Copy, PartialEq, Eq, Structural)]
pub enum Operation {
    Start,
    Stop,
    Check,
}

/// How far a run has come: what it waits for.
#[derive(Debug, Clone, Copy, PartialEq, Eq, Structural)]
pub enum Phase {
    /// The contents of the PID file.
    Loading,
    /// The contents of the configuration file at this position.
    Reading(usize),
    /// The launch of the node for the configuration file at this position.
    Spawning(usize),
    /// The saving of the PID file.
    Saving,
    /// The launch of the command that forms the cluster.
    Forming,
    /// The launch of the command that terminates the nodes.
    Terminating,
    /// The outcome of the health check.
    Checking,
    /// Nothing: the run has ended.
    Done,
}

/// What the caller reports to a run.
#[derive(Debug, PartialEq, Eq)]
pub enum Event {
    /// The PID file was read; its text.
    RegistryLoaded(String),
    /// The PID file could not be read.
    RegistryUnavailable(StoreFault),
    /// A configuration file was read; its text, or nothing where the file is
    /// gone, is no configuration file or cannot be opened.
    ConfigRead(Option<String>),
    /// A process was launched, with its id, or could not be launched.
    Launched(Option<u32>),
    /// The PID file was saved, or could not be.
    Saved(Option<StoreFault>),
    /// The health check ran to its end; whether it was launched and succeeded.
    HealthChecked(bool),
}

/// What a run asks of the caller.
#[derive(Debug, PartialEq, Eq)]
pub enum Action {
    /// Read the PID file, making it and its directory if absent.
    LoadRegistry,
    /// Read the configuration file at `path`.
    ReadConfig { path: String },
    /// Launch a node server with `conf_path` as its only argument.
    SpawnServer { conf_path: String },
    /// Overwrite the PID file with `contents`.
    SaveRegistry { contents: String },
    /// Launch the cluster client with `args` to form the cluster.
    SpawnFormation { args: Vec<String> },
    /// Launch the terminating command with `args`, the process ids.
    SpawnTermination { args: Vec<String> },
    /// Run the cluster client with `args` and wait for its end.
    RunHealthCheck { args: Vec<String> },
    /// Report `result` to the operator; the run is over.
    Finish { result: Result<(), ClusterError> },
}

/// An [`Action`] by its contents.
pub enum ActionView {
    LoadRegistry,
    ReadConfig { path: Seq<char> },
    SpawnServer { conf_path: Seq<char> },
    SaveRegistry { contents: Seq<char> },
    SpawnFormation { args: Seq<Seq<char>> },
    SpawnTermination { args: Seq<Seq<char>> },
    RunHealthCheck { args: Seq<Seq<char>> },
    Finish { result: Result<(), ClusterError> },
}

impl View for Action {
    type V = ActionView;

    open spec fn view(&self) -> ActionView {
        match self {
            Action::LoadRegistry => ActionView::LoadRegistry,
            Action::ReadConfig { path } => ActionView::ReadConfig { path: path@ },
            Action::SpawnServer { conf_path } => ActionView::SpawnServer { conf_path: conf_path@ },
            Action::SaveRegistry { contents } => ActionView::SaveRegistry { contents: contents@ },
            Action::SpawnFormation { args } => ActionView::SpawnFormation {
                args: strings_view(args@),
            },
            Action::SpawnTermination { args } => ActionView::SpawnTermination {
                args: strings_view(args@),
            },
            Action::RunHealthCheck { args } => ActionView::RunHealthCheck {
                args: strings_view(args@),
            },
            Action::Finish { result } => ActionView::Finish { result: *result },
        }
    }
}

/// A [`Run`] by its contents.
pub struct RunView {
    pub operation: Operation,
    pub phase: Phase,
    pub host: Seq<char>,
    pub conf_files: Seq<Seq<char>>,
    pub port: Seq<char>,
    pub registry: Seq<(Seq<char>, u32)>,
    pub result: Result<(), ClusterError>,
}

/// The address of a node: host, a colon, port.
pub open spec fn endpoint(host: Seq<char>, port: Seq<char>) -> Seq<char> {
    host.push(':') + port
}

/// The arguments that form a cluster of the nodes of `registry`: one address
/// for each, in the registry's order.
pub open spec fn formation_args(host: Seq<char>, registry: Seq<(Seq<char>, u32)>) -> Seq<
    Seq<char>,
> {
    seq!["--cluster"@, "create"@] + Seq::new(registry.len(), |i: int| endpoint(host, registry[i].0))
}

/// The arguments that terminate the nodes of `registry`: the process id of
/// each, in the registry's order.
pub open spec fn termination_args(registry: Seq<(Seq<char>, u32)>) -> Seq<Seq<char>> {
    Seq::new(registry.len(), |i: int| decimal(registry[i].1 as nat))
}

/// The arguments that check the cluster's health through the node at `port`.
pub open spec fn health_check_args(host: Seq<char>, port: Seq<char>) -> Seq<Seq<char>> {
    seq!["--cluster"@, "check"@, endpoint(host, port)]
}

/// `registry` with `entry` added, unless its process id is there already.
pub open spec fn inserted(registry: Seq<(Seq<char>, u32)>, entry: (Seq<char>, u32)) -> Seq<
    (Seq<char>, u32),
> {
    if has_pid(registry, entry.1) {
        registry
    } else {
        registry.push(entry)
    }
}

/// The error that reports a fault of the PID file as it is.
pub open spec fn fault_error(fault: StoreFault) -> ClusterError {
    match fault {
        StoreFault::ConfigDirUnavailable => ClusterError::ConfigDirUnavailable,
        StoreFault::RegistryIOError => ClusterError::RegistryIOError,
    }
}

/// `v` ended with `result`.
pub open spec fn finished(v: RunView, result: Result<(), ClusterError>) -> RunView {
    RunView { phase: Phase::Done, result, ..v }
}

/// A start that turns to the configuration file at position `i`, or, past the
/// last one, concludes: with nothing launched it fails, else it saves.
pub open spec fn turn_to(v: RunView, i: int) -> RunView {
    if 0 <= i < v.conf_files.len() {
        RunView { phase: Phase::Reading(i as usize), ..v }
    } else if v.registry.len() == 0 {
        finished(v, Err(ClusterError::NoValidConfigs))
    } else {
        RunView { phase: Phase::Saving, ..v }
    }
}

/// The invariant of a run.
pub open spec fn run_wf(v: RunView) -> bool {
    &&& distinct_pids(v.registry)
    &&& valid_ports(v.registry)
    &&& v.phase is Spawning ==> valid_port(v.port)
    &&& match v.phase {
        Phase::Loading => v.registry.len() == 0,
        Phase::Reading(i) => v.operation == Operation::Start && i < v.conf_files.len(),
        Phase::Spawning(i) => v.operation == Operation::Start && i < v.conf_files.len(),
        Phase::Saving => match v.operation {
            Operation::Start => v.registry.len() > 0,
            Operation::Stop => v.registry.len() == 0,
            Operation::Check => false,
        },
        Phase::Forming => v.operation == Operation::Start && v.registry.len() > 0,
        Phase::Terminating => v.operation == Operation::Stop && v.registry.len() > 0,
        Phase::Checking => v.operation == Operation::Check && v.registry.len() > 0,
        Phase::Done => v.operation == Operation::Start && v.result is Ok ==> v.registry.len() > 0,
    }
}

/// The run after `event`. An event that the run does not wait for changes
/// nothing.
pub open spec fn next(v: RunView, event: Event) -> RunView {
    match (v.phase, event) {
        (Phase::Loading, Event::RegistryLoaded(contents)) => {
            let loaded = pid_file_entries(contents@);
            match v.operation {
                Operation::Start => if loaded.len() != 0 {
                    finished(v, Err(ClusterError::AlreadyRunning))
                } else {
                    turn_to(v, 0)
                },
                Operation::Stop => if loaded.len() == 0 {
                    finished(v, Err(ClusterError::NotRunning))
                } else {
                    RunView { phase: Phase::Terminating, registry: loaded, ..v }
                },
                Operation::Check => if loaded.len() == 0 {
                    finished(v, Err(ClusterError::NotRunning))
                } else {
                    RunView { phase: Phase::Checking, registry: loaded, ..v }
                },
            }
        },
        (Phase::Loading, Event::RegistryUnavailable(fault)) => match v.operation {
            Operation::Check => finished(v, Err(fault_error(fault))),
            _ => finished(v, Err(ClusterError::IndeterminateState)),
        },
        (Phase::Reading(i), Event::ConfigRead(Some(contents))) => match conf_port(contents@) {
            Some(port) => RunView { phase: Phase::Spawning(i), port, ..v },
            None => turn_to(v, i + 1),
        },
        (Phase::Reading(i), Event::ConfigRead(None)) => turn_to(v, i + 1),
        (Phase::Spawning(i), Event::Launched(Some(pid))) => turn_to(
            RunView { registry: inserted(v.registry, (v.port, pid)), ..v },
            i + 1,
        ),
        (Phase::Spawning(i), Event::Launched(None)) => turn_to(v, i + 1),
        (Phase::Saving, Event::Saved(outcome)) => match v.operation {
            Operation::Start => RunView { phase: Phase::Forming, ..v },
            _ => match outcome {
                None => finished(v, Ok(())),
                Some(fault) => finished(v, Err(fault_error(fault))),
            },
        },
        (Phase::Forming, Event::Launched(Some(_))) => finished(v, Ok(())),
        (Phase::Forming, Event::Launched(None)) => finished(
            v,
            Err(ClusterError::FormationLaunchFailed),
        ),
        (Phase::Terminating, Event::Launched(Some(_))) => RunView {
            phase: Phase::Saving,
            registry: Seq::empty(),
            ..v
        },
        (Phase::Terminating, Event::Launched(None)) => finished(
            v,
            Err(ClusterError::TerminationLaunchFailed),
        ),
        (Phase::Checking, Event::HealthChecked(ok)) => finished(
            v,
            if ok {
                Ok(())
            } else {
                Err(ClusterError::HealthCheckFailed)
            },
        ),
        _ => v,
    }
}

/// What a run asks for in the phase it is in.
pub open spec fn pending(v: RunView) -> ActionView {
    match v.phase {
        Phase::Loading => ActionView::LoadRegistry,
        Phase::Reading(i) => ActionView::ReadConfig { path: v.conf_files[i as int] },
        Phase::Spawning(i) => ActionView::SpawnServer { conf_path: v.conf_files[i as int] },
        Phase::Saving => ActionView::SaveRegistry { contents: pid_file_text(v.registry) },
        Phase::Forming => ActionView::SpawnFormation { args: formation_args(v.host, v.registry) },
        Phase::Terminating => ActionView::SpawnTermination { args: termination_args(v.registry) },
        Phase::Checking => ActionView::RunHealthCheck {
            args: health_check_args(v.host, v.registry[0].0),
        },
        Phase::Done => ActionView::Finish { result: v.result },
    }
}

/// One operation under way: which one, how far it has come, and what it has
/// learned so far.
#[derive(Debug)]
pub struct Run {
    operation: Operation,
    phase: Phase,
    host: String,
    conf_files: Vec<String>,
    port: String,
    registry: PidSet,
    result: Result<(), ClusterError>,
}

impl View for Run {
    type V = RunView;

    closed spec fn view(&self) -> RunView {
        RunView {
            operation: self.operation,
            phase: self.phase,
            host: self.host@,
            conf_files: strings_view(self.conf_files@),
            port: self.port@,
            registry: self.registry@,
            result: self.result,
        }
    }
}

/// A run of `operation` that has not begun.
pub open spec fn initial(operation: Operation, host: Seq<char>, conf_files: Seq<Seq<char>>) -> RunView {
    RunView {
        operation,
        phase: Phase::Loading,
        host,
        conf_files,
        port: Seq::empty(),
        registry: Seq::empty(),
        result: Ok(()),
    }
}

/// Begins a start of the cluster: the nodes of `conf_files` are to be launched
/// and formed into a cluster reachable at `cluster_host`.
pub fn start_cluster(cluster_host: &String, conf_files: Vec<String>) -> (run: Run)
    ensures
        run@ == initial(Operation::Start, cluster_host@, strings_view(conf_files@)),
        run.wf(),
{
    Run {
        operation: Operation::Start,
        phase: Phase::Loading,
        host: cluster_host.clone(),
        conf_files,
        port: String::new(),
        registry: PidSet::new(),
        result: Ok(()),
    }
}

/// Begins a stop of the cluster.
pub fn stop_cluster() -> (run: Run)
    ensures
        run@ == initial(Operation::Stop, Seq::empty(), Seq::empty()),
        run.wf(),
{
    let run = Run {
        operation: Operation::Stop,
        phase: Phase::Loading,
        host: String::new(),
        conf_files: Vec::new(),
        port: String::new(),
        registry: PidSet::new(),
        result: Ok(()),
    };
    assert(run@.conf_files =~= Seq::<Seq<char>>::empty());
    run
}

/// Begins a health check of the cluster reachable at `cluster_host`.
pub fn check_cluster_health(cluster_host: &String) -> (run: Run)
    ensures
        run@ == initial(Operation::Check, cluster_host@, Seq::empty()),
        run.wf(),
{
    let run = Run {
        operation: Operation::Check,
        phase: Phase::Loading,
        host: cluster_host.clone(),
        conf_files: Vec::new(),
        port: String::new(),
        registry: PidSet::new(),
        result: Ok(()),
    };
    assert(run@.conf_files =~= Seq::<Seq<char>>::empty());
    run
}

/// The address of the node at `port` of `host`.
pub fn node_endpoint(host: &String, port: &String) -> (r: String)
    ensures
        r@ == endpoint(host@, port@),
{
    let mut r = host.clone();
    push_char(&mut r, ':');
    r.append(port.as_str());
    r
}

/// The arguments of the command that forms a cluster of the nodes of
/// `pid_entries`.
pub fn spawn_cluster_process_args(cluster_host: &String, pid_entries: &PidSet) -> (args: Vec<
    String,
>)
    ensures
        strings_view(args@) == formation_args(cluster_host@, pid_entries@),
{
    let mut args: Vec<String> = Vec::new();
    args.push("--cluster".to_string());
    args.push("create".to_string());
    let mut i: usize = 0;
    let ghost host = cluster_host@;
    let ghost registry = pid_entries@;
    assert(strings_view(args@) =~= seq!["--cluster"@, "create"@] + Seq::new(
        0,
        |k: int| endpoint(host, registry[k].0),
    ));
    while i < pid_entries.len()
        invariant
            i <= pid_entries@.len(),
            host == cluster_host@,
            registry == pid_entries@,
            strings_view(args@) == seq!["--cluster"@, "create"@] + Seq::new(
                i as nat,
                |k: int| endpoint(host, registry[k].0),
            ),
        decreases pid_entries@.len() - i,
    {
        let ghost before = strings_view(args@);
        let entry = pid_entries.get(i);
        args.push(node_endpoint(cluster_host, &entry.port));
        i = i + 1;
        assert(strings_view(args@) =~= before.push(endpoint(host, registry[i - 1].0)));
        assert(strings_view(args@) =~= seq!["--cluster"@, "create"@] + Seq::new(
            i as nat,
            |k: int| endpoint(host, registry[k].0),
        ));
    }
    args
}

/// The arguments of the command that terminates the nodes of `pid_set`.
pub fn kill_current_processes_args(pid_set: &PidSet) -> (args: Vec<String>)
    ensures
        strings_view(args@) == termination_args(pid_set@),
{
    let mut args: Vec<String> = Vec::new();
    let mut i: usize = 0;
    let ghost registry = pid_set@;
    assert(strings_view(args@) =~= Seq::new(0, |k: int| decimal(registry[k].1 as nat)));
    while i < pid_set.len()
        invariant
            i <= pid_set@.len(),
            registry == pid_set@,
            strings_view(args@) == Seq::new(i as nat, |k: int| decimal(registry[k].1 as nat)),
        decreases pid_set@.len() - i,
    {
        let ghost before = strings_view(args@);
        let mut arg = String::new();
        push_decimal(&mut arg, pid_set.get(i).pid as u64);
        assert(arg@ =~= decimal(registry[i as int].1 as nat));
        args.push(arg);
        i = i + 1;
        assert(strings_view(args@) =~= before.push(decimal(registry[i - 1].1 as nat)));
        assert(strings_view(args@) =~= Seq::new(i as nat, |k: int| decimal(registry[k].1 as nat)));
    }
    args
}

/// The arguments of the health check through the node at `health_endpoint`.
pub fn spawn_health_check_process_args(health_endpoint: String) -> (args: Vec<String>)
    ensures
        strings_view(args@) == seq!["--cluster"@, "check"@, health_endpoint@],
{
    let mut args: Vec<String> = Vec::new();
    args.push("--cluster".to_string());
    args.push("check".to_string());
    args.push(health_endpoint);
    assert(strings_view(args@) =~= seq!["--cluster"@, "check"@, health_endpoint@]);
    args
}

/// The error that reports a fault of the PID file as it is.
pub fn error_of_fault(fault: StoreFault) -> (e: ClusterError)
    ensures
        e == fault_error(fault),
{
    match fault {
        StoreFault::ConfigDirUnavailable => ClusterError::ConfigDirUnavailable,
        StoreFault::RegistryIOError => ClusterError::RegistryIOError,
    }
}

impl Run {
    /// The invariant of a run.
    pub open spec fn wf(&self) -> bool {
        run_wf(self@)
    }

    /// Whether the run has ended.
    pub fn is_done(&self) -> (b: bool)
        ensures
            b == (self@.phase == Phase::Done),
    {
        match self.phase {
            Phase::Done => true,
            _ => false,
        }
    }

    /// How the run ended, once it has.
    pub fn result(&self) -> (r: Option<Result<(), ClusterError>>)
        ensures
            r == if self@.phase == Phase::Done {
                Some(self@.result)
            } else {
                None
            },
    {
        match self.phase {
            Phase::Done => Some(self.result),
            _ => None,
        }
    }

    /// The nodes that the run tracks: those it launched, or those it found.
    pub fn registry(&self) -> (r: &PidSet)
        ensures
            r@ == self@.registry,
    {
        &self.registry
    }

    /// What the run asks of the caller now.
    pub fn action(&self) -> (a: Action)
        requires
            self.wf(),
        ensures
            a@ == pending(self@),
    {
        match self.phase {
            Phase::Loading => Action::LoadRegistry,
            Phase::Reading(i) => Action::ReadConfig { path: self.conf_files[i].clone() },
            Phase::Spawning(i) => Action::SpawnServer { conf_path: self.conf_files[i].clone() },
            Phase::Saving => Action::SaveRegistry {
                contents: write_data_to_pid_file(&self.registry),
            },
            Phase::Forming => Action::SpawnFormation {
                args: spawn_cluster_process_args(&self.host, &self.registry),
            },
            Phase::Terminating => Action::SpawnTermination {
                args: kill_current_processes_args(&self.registry),
            },
            Phase::Checking => {
                let captain = self.registry.get(0);
                Action::RunHealthCheck {
                    args: spawn_health_check_process_args(node_endpoint(&self.host, &captain.port)),
                }
            },
            Phase::Done => Action::Finish { result: self.result },
        }
    }

    fn finish(self, result: Result<(), ClusterError>) -> (run: Run)
        requires
            self@.operation == Operation::Start && result is Ok ==> self@.registry.len() > 0,
            distinct_pids(self@.registry),
            valid_ports(self@.registry),
        ensures
            run@ == finished(self@, result),
            run.wf(),
    {
        let mut run = self;
        run.phase = Phase::Done;
        run.result = result;
        run
    }

    fn turn_to(self, i: usize) -> (run: Run)
        requires
            self@.operation == Operation::Start,
            distinct_pids(self@.registry),
            valid_ports(self@.registry),
            i <= self@.conf_files.len(),
        ensures
            run@ == turn_to(self@, i as int),
            run.wf(),
    {
        let mut run = self;
        if i < run.conf_files.len() {
            run.phase = Phase::Reading(i);
            run
        } else if run.registry.is_empty() {
            run.finish(Err(ClusterError::NoValidConfigs))
        } else {
            run.phase = Phase::Saving;
            run
        }
    }

    /// Takes in what happened and moves on. An event that the run does not
    /// wait for changes nothing.
    pub fn on_event(self, event: Event) -> (run: Run)
        requires
            self.wf(),
        ensures
            run@ == next(self@, event),
            run.wf(),
    {
        let mut run = self;
        let count: usize = run.conf_files.len();
        assert(run@.conf_files.len() == count);
        match (run.phase, event) {
            (Phase::Loading, Event::RegistryLoaded(contents)) => {
                let loaded = get_currently_running_pids(contents.as_str());
                match run.operation {
                    Operation::Start => {
                        if loaded.len() != 0 {
                            run.finish(Err(ClusterError::AlreadyRunning))
                        } else {
                            run.turn_to(0)
                        }
                    },
                    Operation::Stop => {
                        if loaded.len() == 0 {
                            run.finish(Err(ClusterError::NotRunning))
                        } else {
                            run.phase = Phase::Terminating;
                            run.registry = loaded;
                            run
                        }
                    },
                    Operation::Check => {
                        if loaded.len() == 0 {
                            run.finish(Err(ClusterError::NotRunning))
                        } else {
                            run.phase = Phase::Checking;
                            run.registry = loaded;
                            run
                        }
                    },
                }
            },
            (Phase::Loading, Event::RegistryUnavailable(fault)) => {
                match run.operation {
                    Operation::Check => run.finish(Err(error_of_fault(fault))),
                    _ => run.finish(Err(ClusterError::IndeterminateState)),
                }
            },
            (Phase::Reading(i), Event::ConfigRead(Some(contents))) => {
                proof {
                    lemma_conf_port_valid(contents@);
                }
                match read_conf_port(contents.as_str()) {
                    Some(port) => {
                        run.phase = Phase::Spawning(i);
                        run.port = port;
                        run
                    },
                    None => run.turn_to(i + 1),
                }
            },
            (Phase::Reading(i), Event::ConfigRead(None)) => run.turn_to(i + 1),
            (Phase::Spawning(i), Event::Launched(Some(pid))) => {
                let entry = PIDEntry { port: run.port.clone(), pid };
                run.registry.insert(entry);
                run.turn_to(i + 1)
            },
            (Phase::Spawning(i), Event::Launched(None)) => run.turn_to(i + 1),
            (Phase::Saving, Event::Saved(outcome)) => {
                match run.operation {
                    Operation::Start => {
                        run.phase = Phase::Forming;
                        run
                    },
                    _ => match outcome {
                        None => run.finish(Ok(())),
                        Some(fault) => run.finish(Err(error_of_fault(fault))),
                    },
                }
            },
            (Phase::Forming, Event::Launched(Some(_))) => run.finish(Ok(())),
            (Phase::Forming, Event::Launched(None)) => run.finish(
                Err(ClusterError::FormationLaunchFailed),
            ),
            (Phase::Terminating, Event::Launched(Some(_))) => {
                run.phase = Phase::Saving;
                run.registry = PidSet::new();
                run
            },
            (Phase::Terminating, Event::Launched(None)) => run.finish(
                Err(ClusterError::TerminationLaunchFailed),
            ),
            (Phase::Checking, Event::HealthChecked(ok)) => {
                if ok {
                    run.finish(Ok(()))
                } else {
                    run.finish(Err(ClusterError::HealthCheckFailed))
                }
            },
            _ => run,
        }
    }
}

/// The run after each of `events` in turn.
pub open spec fn run_after(v: RunView, events: Seq<Event>) -> RunView
    decreases events.len(),
{
    if events.len() == 0 {
        v
    } else {
        next(run_after(v, events.drop_last()), events.last())
    }
}

/// A run that has ended stays as it is, whatever it is told.
pub proof fn lemma_done_is_final(v: RunView, events: Seq<Event>)
    requires
        v.phase == Phase::Done,
    ensures
        run_after(v, events) == v,
        pending(run_after(v, events)) == (ActionView::Finish { result: v.result }),
    decreases events.len(),
{
    if events.len() > 0 {
        lemma_done_is_final(v, events.drop_last());
    }
}

/// The invariant holds after any events.
pub proof fn lemma_run_after_wf(v: RunView, events: Seq<Event>)
    requires
        run_wf(v),
    ensures
        run_wf(run_after(v, events)),
        run_after(v, events).operation == v.operation,
        run_after(v, events).host == v.host,
        run_after(v, events).conf_files == v.conf_files,
    decreases events.len(),
{
    if events.len() > 0 {
        lemma_run_after_wf(v, events.drop_last());
        lemma_run_wf(run_after(v, events.drop_last()), events.last());
    }
}

/// Whatever follows, a start that is first told of nodes tracked already has
/// failed with `AlreadyRunning` and asks for nothing but to report it: in the
/// whole run no configuration file is read and no process launched.
pub proof fn lemma_start_refused_run(
    host: Seq<char>,
    conf_files: Seq<Seq<char>>,
    contents: String,
    events: Seq<Event>,
)
    requires
        pid_file_entries(contents@).len() > 0,
        events.len() > 0,
        events[0] == Event::RegistryLoaded(contents),
    ensures
        run_after(initial(Operation::Start, host, conf_files), events) == finished(
            initial(Operation::Start, host, conf_files),
            Err(ClusterError::AlreadyRunning),
        ),
        pending(run_after(initial(Operation::Start, host, conf_files), events))
            == (ActionView::Finish { result: Err(ClusterError::AlreadyRunning) }),
    decreases events.len(),
{
    let begin = initial(Operation::Start, host, conf_files);
    if events.len() == 1 {
        assert(events.drop_last().len() == 0);
        assert(run_after(begin, events.drop_last()) == begin);
        assert(events.last() == events[0]);
    } else {
        assert(events.drop_last()[0] == events[0]);
        lemma_start_refused_run(host, conf_files, contents, events.drop_last());
    }
}

/// Whatever follows, a stop or a health check that is first told of no node
/// tracked has failed with `NotRunning` and asks for nothing but to report it:
/// in the whole run nothing is launched and nothing saved.
pub proof fn lemma_refused_when_not_running_run(
    operation: Operation,
    host: Seq<char>,
    contents: String,
    events: Seq<Event>,
)
    requires
        operation != Operation::Start,
        pid_file_entries(contents@).len() == 0,
        events.len() > 0,
        events[0] == Event::RegistryLoaded(contents),
    ensures
        run_after(initial(operation, host, Seq::empty()), events) == finished(
            initial(operation, host, Seq::empty()),
            Err(ClusterError::NotRunning),
        ),
        pending(run_after(initial(operation, host, Seq::empty()), events)) == (ActionView::Finish {
            result: Err(ClusterError::NotRunning),
        }),
    decreases events.len(),
{
    let begin = initial(operation, host, Seq::empty());
    if events.len() == 1 {
        assert(events.drop_last().len() == 0);
        assert(run_after(begin, events.drop_last()) == begin);
        assert(events.last() == events[0]);
    } else {
        assert(events.drop_last()[0] == events[0]);
        lemma_refused_when_not_running_run(operation, host, contents, events.drop_last());
    }
}

/// A start in which no node is launched tracks nothing at any time, never asks
/// to save the PID file or to form a cluster, and does not end well: where it
/// ends, it has failed, and with `NoValidConfigs` unless the PID file stood in
/// its way.
pub proof fn lemma_start_without_launch_run(
    host: Seq<char>,
    conf_files: Seq<Seq<char>>,
    events: Seq<Event>,
)
    requires
        forall|i: int| 0 <= i < events.len() ==> !(#[trigger] events[i] matches Event::Launched(Some(_))),
    ensures
        run_after(initial(Operation::Start, host, conf_files), events).registry.len() == 0,
        !(pending(run_after(initial(Operation::Start, host, conf_files), events)) is SaveRegistry),
        !(pending(run_after(initial(Operation::Start, host, conf_files), events)) is SpawnFormation),
        run_after(initial(Operation::Start, host, conf_files), events).phase == Phase::Done ==> {
            let result = run_after(initial(Operation::Start, host, conf_files), events).result;
            ||| result == Err::<(), ClusterError>(ClusterError::NoValidConfigs)
            ||| result == Err::<(), ClusterError>(ClusterError::AlreadyRunning)
            ||| result == Err::<(), ClusterError>(ClusterError::IndeterminateState)
        },
    decreases events.len(),
{
    let begin = initial(Operation::Start, host, conf_files);
    if events.len() > 0 {
        let before = events.drop_last();
        assert forall|i: int| 0 <= i < before.len() implies !(#[trigger] before[i] matches Event::Launched(
            Some(_),
        )) by {
            assert(before[i] == events[i]);
        }
        lemma_start_without_launch_run(host, conf_files, before);
        lemma_run_after_wf(begin, before);
        assert(events.last() == events[events.len() - 1]);
        lemma_start_without_launch(run_after(begin, before), events.last());
    }
}

/// A start that finds nodes tracked already fails with `AlreadyRunning` at
/// once: the only thing it asked for was the PID file, and the next thing it
/// asks for is to report the failure. No process is launched.
pub proof fn lemma_start_refused_when_running(
    host: Seq<char>,
    conf_files: Seq<Seq<char>>,
    contents: String,
)
    requires
        pid_file_entries(contents@).len() > 0,
    ensures
        pending(initial(Operation::Start, host, conf_files)) == ActionView::LoadRegistry,
        next(initial(Operation::Start, host, conf_files), Event::RegistryLoaded(contents))
            == finished(
            initial(Operation::Start, host, conf_files),
            Err(ClusterError::AlreadyRunning),
        ),
        pending(next(initial(Operation::Start, host, conf_files), Event::RegistryLoaded(contents)))
            == (ActionView::Finish { result: Err(ClusterError::AlreadyRunning) }),
{
}

/// As long as no node was launched, a start tracks nothing, asks neither to
/// save the PID file nor to form a cluster, and cannot end well; where it ends
/// after the PID file was read, it fails with `NoValidConfigs`.
pub proof fn lemma_start_without_launch(v: RunView, event: Event)
    requires
        run_wf(v),
        v.operation == Operation::Start,
        v.registry.len() == 0,
        !(event matches Event::Launched(Some(_))),
    ensures
        next(v, event).registry.len() == 0,
        !(pending(next(v, event)) is SaveRegistry),
        !(pending(next(v, event)) is SpawnFormation),
        next(v, event).phase == Phase::Done ==> next(v, event).result is Err,
        next(v, event).phase == Phase::Done && (v.phase is Reading || v.phase is Spawning)
            ==> next(v, event).result == Err::<(), ClusterError>(ClusterError::NoValidConfigs),
{
}

/// A start whose last configuration file leads to no node either, after none
/// of the others did, fails with `NoValidConfigs`.
pub proof fn lemma_start_nothing_launched(v: RunView, event: Event)
    requires
        run_wf(v),
        v.operation == Operation::Start,
        v.registry.len() == 0,
        match (v.phase, event) {
            (Phase::Reading(i), Event::ConfigRead(None)) => i + 1 == v.conf_files.len(),
            (Phase::Reading(i), Event::ConfigRead(Some(contents))) => i + 1 == v.conf_files.len()
                && conf_port(contents@) is None,
            (Phase::Spawning(i), Event::Launched(None)) => i + 1 == v.conf_files.len(),
            _ => false,
        },
    ensures
        next(v, event) == finished(v, Err(ClusterError::NoValidConfigs)),
        pending(next(v, event)) == (ActionView::Finish { result: Err(ClusterError::NoValidConfigs) }),
{
}

/// A start ends well only with nodes tracked, and only once the launch of the
/// forming command succeeded.
pub proof fn lemma_start_success(v: RunView, event: Event)
    requires
        run_wf(v),
        v.operation == Operation::Start,
        v.phase != Phase::Done,
        next(v, event).phase == Phase::Done,
        next(v, event).result is Ok,
    ensures
        v.phase == Phase::Forming,
        event matches Event::Launched(Some(_)),
        next(v, event).registry.len() > 0,
{
}

/// A stop that finds no node tracked fails with `NotRunning` at once, and a
/// health check does the same: nothing is launched.
pub proof fn lemma_refused_when_not_running(operation: Operation, host: Seq<char>, contents: String)
    requires
        operation != Operation::Start,
        pid_file_entries(contents@).len() == 0,
    ensures
        pending(initial(operation, host, Seq::empty())) == ActionView::LoadRegistry,
        next(initial(operation, host, Seq::empty()), Event::RegistryLoaded(contents)) == finished(
            initial(operation, host, Seq::empty()),
            Err(ClusterError::NotRunning),
        ),
        pending(next(initial(operation, host, Seq::empty()), Event::RegistryLoaded(contents)))
            == (ActionView::Finish { result: Err(ClusterError::NotRunning) }),
{
}

/// Once the terminating command was launched, a stop tracks nothing and asks
/// for an empty PID file to be saved, whatever becomes of the processes; where
/// the command could not be launched, it fails and asks for no save.
pub proof fn lemma_stop_clears_registry(v: RunView, launched: Option<u32>)
    requires
        run_wf(v),
        v.operation == Operation::Stop,
        v.phase == Phase::Terminating,
    ensures
        launched is Some ==> next(v, Event::Launched(launched)).registry.len() == 0 && pending(
            next(v, Event::Launched(launched)),
        ) == (ActionView::SaveRegistry { contents: Seq::empty() }),
        launched is None ==> next(v, Event::Launched(launched)) == finished(
            v,
            Err(ClusterError::TerminationLaunchFailed),
        ),
{
}

/// A health check that finds nodes tracked probes the first of them, at the
/// address made of the cluster host and that node's port, and tracks what it
/// found.
pub proof fn lemma_check_probes_first(host: Seq<char>, contents: String)
    requires
        pid_file_entries(contents@).len() > 0,
    ensures
        pending(next(initial(Operation::Check, host, Seq::empty()), Event::RegistryLoaded(contents)))
            == (ActionView::RunHealthCheck {
            args: seq![
                "--cluster"@,
                "check"@,
                host.push(':') + pid_file_entries(contents@)[0].0,
            ],
        }),
{
}

/// A health check asks for nothing that changes what is tracked on disk or
/// what runs: it loads, probes and reports.
pub proof fn lemma_check_changes_nothing(v: RunView)
    requires
        run_wf(v),
        v.operation == Operation::Check,
    ensures
        pending(v) is LoadRegistry || pending(v) is RunHealthCheck || pending(v) is Finish,
{
}

/// A run's invariant holds at its beginning and after every event.
pub proof fn lemma_run_wf(v: RunView, event: Event)
    requires
        run_wf(v),
    ensures
        run_wf(next(v, event)),
        run_wf(initial(v.operation, v.host, v.conf_files)),
        next(v, event).operation == v.operation,
        next(v, event).host == v.host,
        next(v, event).conf_files == v.conf_files,
{
    match event {
        Event::RegistryLoaded(contents) => {
            lemma_first_by_pid_is_distinct(entries_from(contents@, 0));
            lemma_entries_valid(contents@, 0);
            lemma_first_by_pid_valid(entries_from(contents@, 0));
        },
        Event::ConfigRead(Some(contents)) => {
            lemma_conf_port_valid(contents@);
        },
        _ => {},
    }
}

/// What a run asks to save is what a later load finds: the PID file that a
/// start writes reads back as the nodes it launched, and the one that a stop
/// writes as no node.
pub proof fn lemma_saved_registry_round_trip(v: RunView)
    requires
        run_wf(v),
        v.phase == Phase::Saving,
    ensures
        pending(v) == (ActionView::SaveRegistry { contents: pid_file_text(v.registry) }),
        pid_file_entries(pid_file_text(v.registry)) == v.registry,
{
    lemma_pid_file_round_trip(v.registry);
}

/// The forming command gets one address for each node tracked, after its two
/// leading words, and the terminating command one process id for each.
pub proof fn lemma_one_argument_per_node(host: Seq<char>, registry: Seq<(Seq<char>, u32)>)
    ensures
        formation_args(host, registry).len() == registry.len() + 2,
        forall|i: int|
            0 <= i < registry.len() ==> #[trigger] formation_args(host, registry)[i + 2]
                == endpoint(host, registry[i].0),
        termination_args(registry).len() == registry.len(),
        forall|i: int|
            0 <= i < registry.len() ==> #[trigger] termination_args(registry)[i] == decimal(
                registry[i].1 as nat,
            ),
{
}

} // verus!
