//! The configuration values the engine and its shell agree on. Loading and
//! merging configuration files happens outside; these are the plain values
//! that come out of it, with their documented defaults.

use vstd::prelude::*;

use crate::state::SessionConfig;

verus! {

/// The whole configuration.
#[derive(Clone, Copy, Debug, PartialEq, Eq, Structural)]
pub struct Config {
    pub debug: bool,
    pub summary: ConfigSummary,
    pub log_history: ConfigLogHistory,
    pub log_window: ConfigLogWindow,
}

/// What finished downloads report.
#[derive(Clone, Copy, Debug, PartialEq, Eq, Structural)]
pub struct ConfigSummary {
    pub download: bool,
}

/// How much of a unit's log history is kept.
#[derive(Clone, Copy, Debug, PartialEq, Eq, Structural)]
pub struct ConfigLogHistory {
    pub size: usize,
    pub failure_size: usize,
}

/// How many lines the shared log window shows.
#[derive(Clone, Copy, Debug, PartialEq, Eq, Structural)]
pub struct ConfigLogWindow {
    pub size: usize,
}

/// The default log-history length.
pub fn df_log_history_size() -> (r: usize)
    ensures
        r == 1000,
{
    1000
}

/// The default log-window height.
pub fn df_log_window_size() -> (r: usize)
    ensures
        r == 10,
{
    10
}

/// The default for the flags that are off unless asked for.
pub fn df_false() -> (r: bool)
    ensures
        !r,
{
    false
}

impl Default for Config {
    fn default() -> (r: Self)
        ensures
            !r.debug,
            r.summary == (ConfigSummary { download: false }),
            r.log_history == (ConfigLogHistory { size: 1000, failure_size: 1000 }),
            r.log_window == (ConfigLogWindow { size: 10 }),
    {
        Config {
            debug: df_false(),
            summary: ConfigSummary::default(),
            log_history: ConfigLogHistory::default(),
            log_window: ConfigLogWindow::default(),
        }
    }
}

impl Default for ConfigSummary {
    fn default() -> (r: Self)
        ensures
            !r.download,
    {
        ConfigSummary { download: df_false() }
    }
}

impl Default for ConfigLogHistory {
    fn default() -> (r: Self)
        ensures
            r.size == 1000,
            r.failure_size == 1000,
    {
        ConfigLogHistory { size: df_log_history_size(), failure_size: df_log_history_size() }
    }
}

impl Default for ConfigLogWindow {
    fn default() -> (r: Self)
        ensures
            r.size == 10,
    {
        ConfigLogWindow { size: df_log_window_size() }
    }
}

impl Config {
    /// The slice of the configuration the dispatch engine uses. A window
    /// height beyond what a terminal can show is capped.
    pub fn session(&self) -> (r: SessionConfig)
        ensures
            r.debug == self.debug,
            r.summary_download == self.summary.download,
            r.log_window_size == if self.log_window.size > 65535 {
                65535u16
            } else {
                self.log_window.size as u16
            },
    {
        let log_window_size: u16 = if self.log_window.size > 65535 {
            65535
        } else {
            self.log_window.size as u16
        };
        SessionConfig {
            debug: self.debug,
            summary_download: self.summary.download,
            log_window_size,
        }
    }
}

} // verus!
