//! Where the PID file is kept: a hidden directory in the user's home.

use crate::text::{push_char, to_chars};
use vstd::prelude::*;

verus! {

/// The name of the per-user directory that holds the PID file.
pub const CONFIG_DIR_NAME: &'static str = ".rr";

/// The name of the PID file.
pub const SERVER_PID_FILE_NAME: &'static str = "servers.pid";

/// What went wrong when the PID file was loaded or saved.
#[derive(Debug, Clone, Copy, PartialEq, Eq, Structural)]
pub enum StoreFault {
    /// The directory that holds the PID file cannot be found or made.
    ConfigDirUnavailable,
    /// The PID file cannot be opened, made, read or written.
    RegistryIOError,
}

/// The path of `name` inside the directory `base`: the two with one `/` between
/// them, which an empty `base`, or one that ends in `/`, does not need.
pub open spec fn joined(base: Seq<char>, name: Seq<char>) -> Seq<char> {
    if base.len() == 0 || base.last() == '/' {
        base + name
    } else {
        base.push('/') + name
    }
}

/// The path of the relative `name` inside the directory `base`.
pub fn join_path(base: &str, name: &str) -> (r: String)
    ensures
        r@ == joined(base@, name@),
{
    let chars = to_chars(base);
    let mut r = base.to_string();
    if chars.len() > 0 && chars[chars.len() - 1] != '/' {
        push_char(&mut r, '/');
    }
    r.append(name);
    r
}

/// The path of the configuration directory, given the user's home directory;
/// without a home there is none.
pub fn local_config_dir(home: Option<&str>) -> (r: Result<String, StoreFault>)
    ensures
        match home {
            Some(dir) => r is Ok && r->Ok_0@ == joined(dir@, CONFIG_DIR_NAME@),
            None => r == Err::<String, StoreFault>(StoreFault::ConfigDirUnavailable),
        },
{
    match home {
        Some(dir) => Ok(join_path(dir, CONFIG_DIR_NAME)),
        None => Err(StoreFault::ConfigDirUnavailable),
    }
}

/// The path of the PID file, given the user's home directory.
pub fn pid_file_path(home: Option<&str>) -> (r: Result<String, StoreFault>)
    ensures
        match home {
            Some(dir) => r is Ok && r->Ok_0@ == joined(
                joined(dir@, CONFIG_DIR_NAME@),
                SERVER_PID_FILE_NAME@,
            ),
            None => r == Err::<String, StoreFault>(StoreFault::ConfigDirUnavailable),
        },
{
    match local_config_dir(home) {
        Ok(dir) => Ok(join_path(dir.as_str(), SERVER_PID_FILE_NAME)),
        Err(fault) => Err(fault),
    }
}

} // verus!
