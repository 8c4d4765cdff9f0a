//! Collaborator-owned configuration: the CPU threshold used for the
//! high-CPU filter and the auto-refresh cadence. The core takes its sort
//! key per call and persists nothing itself.

use vstd::prelude::*;

verus! {

/// Configuration data a host persists between runs; `None` means the host
/// falls back to its own default.
#[derive(Debug, Clone, PartialEq)]
pub struct Config {
    /// CPU threshold for filtering processes, as a percentage.
    pub cpu_threshold: Option<u32>,
    /// Auto-refresh interval in seconds.
    pub refresh_interval: Option<u32>,
}

impl Default for Config {
    /// A configuration with nothing set, leaving every choice to the host.
    fn default() -> (r: Self)
        ensures
            r.cpu_threshold is None,
            r.refresh_interval is None,
    {
        Config { cpu_threshold: None, refresh_interval: None }
    }
}

} // verus!
