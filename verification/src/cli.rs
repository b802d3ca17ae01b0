//! The commands of the tool and what each of them sets going.

use crate::config::{
    aggregate_config_files, conf_paths, found_line, list_conf_files, not_a_directory,
    resolve_base_file_path, DEFAULT_BASE_CONF_PATH,
};
use crate::runtime::{
    check_cluster_health, initial, start_cluster, stop_cluster, Operation, Run, RunView,
};
use crate::text::strings_view;
use vstd::prelude::*;

verus! {

/// A command that a front end can carry out to its end, with the I/O it takes.
pub trait Executable {
    fn execute(&self) -> Result<(), String>;
}

/// `config ls`: list the node configuration files under a directory.
#[derive(Debug)]
pub struct ClusterLs {
    pub base_dir: Option<String>,
}

/// `cluster start`: launch the nodes configured under a directory and form a
/// cluster of them.
#[derive(Debug)]
pub struct ClusterStart {
    pub base_dir: Option<String>,
    pub cluster_host: String,
}

/// `cluster stop`: terminate the nodes that were launched.
#[derive(Debug)]
pub struct ClusterStop {}

/// `cluster check`: probe the cluster's health once.
#[derive(Debug)]
pub struct ClusterCheck {
    pub cluster_host: String,
}

/// The commands on configuration files.
#[derive(Debug)]
pub enum ClusterConfig {
    Ls(ClusterLs),
}

/// The commands on the running cluster.
#[derive(Debug)]
pub enum ClusterRuntime {
    Start(ClusterStart),
    Stop(ClusterStop),
    Check(ClusterCheck),
}

/// Every command, by group.
#[derive(Debug)]
pub enum ClusterCommand {
    Config(ClusterConfig),
    Cluster(ClusterRuntime),
}

/// What the operator asked for.
#[derive(Debug)]
pub struct RootCommand {
    pub cmd: ClusterCommand,
}

/// What a command has come to once the directory it searches was walked.
#[derive(Debug)]
pub enum Outcome {
    /// Lines to show; the command is done.
    Listed(Vec<String>),
    /// A run to carry out.
    Begun(Run),
    /// The command failed; what to tell the operator.
    Refused(String),
}

/// An [`Outcome`] by its contents.
pub enum OutcomeView {
    Listed(Seq<Seq<char>>),
    Begun(RunView),
    Refused(Seq<char>),
}

impl View for Outcome {
    type V = OutcomeView;

    open spec fn view(&self) -> OutcomeView {
        match self {
            Outcome::Listed(lines) => OutcomeView::Listed(strings_view(lines@)),
            Outcome::Begun(run) => OutcomeView::Begun(run@),
            Outcome::Refused(message) => OutcomeView::Refused(message@),
        }
    }
}

/// The directory that a command searches where `base_dir` was given to it.
pub open spec fn base_path(base_dir: Option<String>) -> Seq<char> {
    match base_dir {
        Some(path) => path@,
        None => DEFAULT_BASE_CONF_PATH@,
    }
}

/// The files that a walk found, by their contents.
pub open spec fn found_view(found: Option<&Vec<String>>) -> Option<Seq<Seq<char>>> {
    match found {
        Some(files) => Some(strings_view(files@)),
        None => None,
    }
}

/// What `config ls` shows of the directory `base`: an error where it does not
/// exist or is no directory, else its configuration files and their number.
pub open spec fn listing(base: Seq<char>, exists: bool, found: Option<Seq<Seq<char>>>) -> Result<
    Seq<Seq<char>>,
    Seq<char>,
> {
    if !exists {
        Err("The given base_dir does not exist."@)
    } else {
        match found {
            Some(files) => Ok(conf_paths(files).push(found_line(conf_paths(files).len()))),
            None => Err(not_a_directory(base)),
        }
    }
}

/// The configuration files that `cluster start` launches nodes for: those under
/// the directory `base`, which must be a directory and hold one at least.
pub open spec fn start_files(base: Seq<char>, found: Option<Seq<Seq<char>>>) -> Result<
    Seq<Seq<char>>,
    Seq<char>,
> {
    match found {
        Some(files) => if conf_paths(files).len() == 0 {
            Err("No configuration files found in path: "@ + base)
        } else {
            Ok(conf_paths(files))
        },
        None => Err(not_a_directory(base)),
    }
}

/// What `cmd` comes to, given whether the directory it searches exists and what
/// a walk of it found.
pub open spec fn outcome(cmd: ClusterCommand, exists: bool, found: Option<Seq<Seq<char>>>) -> OutcomeView {
    match cmd {
        ClusterCommand::Config(ClusterConfig::Ls(ls)) => match listing(
            base_path(ls.base_dir),
            exists,
            found,
        ) {
            Ok(lines) => OutcomeView::Listed(lines),
            Err(message) => OutcomeView::Refused(message),
        },
        ClusterCommand::Cluster(ClusterRuntime::Start(start)) => match start_files(
            base_path(start.base_dir),
            found,
        ) {
            Ok(files) => OutcomeView::Begun(initial(Operation::Start, start.cluster_host@, files)),
            Err(message) => OutcomeView::Refused(message),
        },
        ClusterCommand::Cluster(ClusterRuntime::Stop(_)) => OutcomeView::Begun(
            initial(Operation::Stop, Seq::empty(), Seq::empty()),
        ),
        ClusterCommand::Cluster(ClusterRuntime::Check(check)) => OutcomeView::Begun(
            initial(Operation::Check, check.cluster_host@, Seq::empty()),
        ),
    }
}

impl ClusterLs {
    /// The directory to search.
    pub fn base_path(&self) -> (r: String)
        ensures
            r@ == base_path(self.base_dir),
    {
        resolve_base_file_path(&self.base_dir)
    }

    /// The lines of the listing: the configuration files, then their number.
    /// `exists` says whether the directory to search exists; `found` holds the
    /// paths of the regular files met while walking it, or nothing where it is
    /// no directory.
    pub fn execute(&self, exists: bool, found: Option<&Vec<String>>) -> (r: Result<
        Vec<String>,
        String,
    >)
        ensures
            match listing(base_path(self.base_dir), exists, found_view(found)) {
                Ok(lines) => r is Ok && strings_view(r->Ok_0@) == lines,
                Err(message) => r is Err && r->Err_0@ == message,
            },
    {
        if !exists {
            Err("The given base_dir does not exist.".to_string())
        } else {
            let base = self.base_path();
            list_conf_files(base.as_str(), found)
        }
    }
}

impl ClusterStart {
    /// The directory to search.
    pub fn base_path(&self) -> (r: String)
        ensures
            r@ == base_path(self.base_dir),
    {
        resolve_base_file_path(&self.base_dir)
    }

    /// Begins the start with the configuration files under the directory to
    /// search, and fails where there is none. `found` is as for
    /// [`ClusterLs::execute`].
    pub fn execute(&self, found: Option<&Vec<String>>) -> (r: Result<Run, String>)
        ensures
            match start_files(base_path(self.base_dir), found_view(found)) {
                Ok(files) => r is Ok && r->Ok_0.wf() && r->Ok_0@ == initial(
                    Operation::Start,
                    self.cluster_host@,
                    files,
                ),
                Err(message) => r is Err && r->Err_0@ == message,
            },
    {
        let base = self.base_path();
        match aggregate_config_files(base.as_str(), found) {
            Ok(conf_list) => {
                if conf_list.len() == 0 {
                    let mut msg = "No configuration files found in path: ".to_string();
                    msg.append(base.as_str());
                    Err(msg)
                } else {
                    Ok(start_cluster(&self.cluster_host, conf_list))
                }
            },
            Err(err) => Err(err),
        }
    }
}

impl ClusterStop {
    /// Begins the stop.
    pub fn execute(&self) -> (run: Run)
        ensures
            run.wf(),
            run@ == initial(Operation::Stop, Seq::empty(), Seq::empty()),
    {
        stop_cluster()
    }
}

impl ClusterCheck {
    /// Begins the health check.
    pub fn execute(&self) -> (run: Run)
        ensures
            run.wf(),
            run@ == initial(Operation::Check, self.cluster_host@, Seq::empty()),
    {
        check_cluster_health(&self.cluster_host)
    }
}

impl RootCommand {
    /// The directory that the command searches, if it searches one.
    pub fn base_path(&self) -> (r: Option<String>)
        ensures
            match self.cmd {
                ClusterCommand::Config(ClusterConfig::Ls(ls)) => r is Some && r->0@ == base_path(
                    ls.base_dir,
                ),
                ClusterCommand::Cluster(ClusterRuntime::Start(start)) => r is Some && r->0@
                    == base_path(start.base_dir),
                _ => r is None,
            },
    {
        match &self.cmd {
            ClusterCommand::Config(ClusterConfig::Ls(ls)) => Some(ls.base_path()),
            ClusterCommand::Cluster(ClusterRuntime::Start(start)) => Some(start.base_path()),
            _ => None,
        }
    }

    /// What the command comes to. `exists` and `found` are as for
    /// [`ClusterLs::execute`]; a command that searches no directory heeds
    /// neither.
    pub fn execute(&self, exists: bool, found: Option<&Vec<String>>) -> (r: Outcome)
        ensures
            r@ == outcome(self.cmd, exists, found_view(found)),
            r matches Outcome::Begun(run) ==> run.wf(),
    {
        match &self.cmd {
            ClusterCommand::Config(ClusterConfig::Ls(ls)) => match ls.execute(exists, found) {
                Ok(lines) => Outcome::Listed(lines),
                Err(message) => Outcome::Refused(message),
            },
            ClusterCommand::Cluster(ClusterRuntime::Start(start)) => match start.execute(found) {
                Ok(run) => Outcome::Begun(run),
                Err(message) => Outcome::Refused(message),
            },
            ClusterCommand::Cluster(ClusterRuntime::Stop(stop)) => Outcome::Begun(stop.execute()),
            ClusterCommand::Cluster(ClusterRuntime::Check(check)) => Outcome::Begun(
                check.execute(),
            ),
        }
    }
}

} // verus!
