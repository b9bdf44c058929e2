//! The configuration data the monitor is built from: a global section
//! and one definition per named event.  Loading and merging the
//! layered configuration files is plumbing outside this library; it
//! hands these plain values in.

use vstd::prelude::*;

verus! {

/// The script-execution timeout applied when the configuration names
/// none, in seconds.
pub const DEFAULT_SCRIPT_TIMEOUT: u64 = 20;

/// The global configuration section.
#[derive(Debug, Clone, PartialEq, Eq)]
pub struct Global {
    /// Raw `field=value` filter strings for the log stream.
    pub filters: Option<Vec<String>>,
    /// Script-execution timeout in seconds.
    pub script_timeout: Option<u64>,
}

/// One configured event definition.
#[derive(Debug, Clone)]
pub struct Event {
    /// The pattern matched against each record's message.
    pub message: String,
    /// Debounce window in nanoseconds; absent means "always fire".
    pub next_watch_delay: Option<u64>,
    /// Path of the script to execute on a match.
    pub script: String,
    /// Whether the execution timeout applies; absent or `true` means
    /// wait, `false` means fire and forget.
    pub script_wait: Option<bool>,
}

/// The default for an absent wait flag: wait for the script.
pub fn default_true() -> (r: Option<bool>)
    ensures
        r == Some(true),
{
    Some(true)
}

impl Event {
    /// The execution timeout this event's script runs under: the
    /// global timeout, unless the event opted out of waiting.
    pub fn effective_timeout(&self, global_timeout: Option<u64>) -> (r: Option<u64>)
        ensures
            r == (if self.script_wait == Some(false) {
                Option::<u64>::None
            } else {
                global_timeout
            }),
    {
        match self.script_wait {
            Some(false) => None,
            _ => global_timeout,
        }
    }
}

} // verus!
