//! The places and lines that the daemon writes to disk.
use vstd::prelude::*;

use crate::text::{trim, trimmed};

verus! {

/// The home directory where the environment names none.
pub const DEFAULT_HOME: &'static str = "/Users/raza.jamil";

/// The home directory, given what the environment says.
pub fn home(var: Option<String>) -> (dir: String)
    ensures
        dir@ == match var {
            Some(dir) => dir@,
            None => DEFAULT_HOME@,
        },
{
    match var {
        Some(dir) => dir,
        None => DEFAULT_HOME.to_string(),
    }
}

/// The socket of the server.
pub fn sock_path(home: &str) -> (path: String)
    ensures
        path@ == home@ + "/.config/herdr/herdr.sock"@,
{
    let mut path = home.to_string();
    path.append("/.config/herdr/herdr.sock");
    path
}

/// The log of the daemon.
pub fn log_path(home: &str) -> (path: String)
    ensures
        path@ == home@ + "/.config/herdr/herdr-notify-bridge.log"@,
{
    let mut path = home.to_string();
    path.append("/.config/herdr/herdr-notify-bridge.log");
    path
}

/// The file that holds the id of the pane that last wanted attention.
pub fn attention_path(home: &str) -> (path: String)
    ensures
        path@ == home@ + "/.config/herdr/last-attention-pane"@,
{
    let mut path = home.to_string();
    path.append("/.config/herdr/last-attention-pane");
    path
}

/// The time for the log, given what the `date` program printed: empty where it printed nothing
/// that can be read.
pub fn now(printed: Option<String>) -> (time: String)
    ensures
        time@ == match printed {
            Some(printed) => trimmed(printed@),
            None => Seq::<char>::empty(),
        },
{
    match printed {
        Some(printed) => trim(printed.as_str()).to_string(),
        None => String::new(),
    }
}

/// A line of the log.
pub fn log_line(time: &str, msg: &str) -> (line: String)
    ensures
        line@ == time@ + " "@ + msg@ + "\n"@,
{
    let mut line = time.to_string();
    line.append(" ");
    line.append(msg);
    line.append("\n");
    line
}

} // verus!
