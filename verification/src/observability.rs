//! Request context and logger configuration.
//!
//! Only the data lives here: what to log and how the logger should be set
//! up. Emitting log lines and installing the logger are I/O and sit with
//! the host application.

use vstd::prelude::*;
use vstd::string::StringExecFns;

verus! {

/// The request being validated, for reporting.
#[derive(Debug, Clone)]
pub struct RequestContext {
    pub method: String,
    pub path: String,
}

impl RequestContext {
    /// Bundles the method and path of one request.
    pub fn new(method: String, path: String) -> (r: Self)
        ensures
            r.method == method,
            r.path == path,
    {
        RequestContext { method, path }
    }
}

/// Logger configuration.
#[derive(Debug, Clone)]
pub struct LogConfig {
    /// Log level (`trace`, `debug`, `info`, `warn`, `error`).
    pub level: String,
    /// Log file path, when file output is wanted.
    pub log_file: Option<String>,
    /// Whether to write to the console.
    pub console_output: bool,
    /// Whether each line carries a timestamp.
    pub show_timestamp: bool,
    /// Whether each line names the code location.
    pub show_target: bool,
    /// Whether each line names the thread.
    pub show_thread: bool,
}

impl Default for LogConfig {
    /// The defaults: level `info`, console only, timestamps on.
    fn default() -> (r: Self)
        ensures
            r.level@ == "info"@,
            r.log_file is None,
            r.console_output,
            r.show_timestamp,
            !r.show_target,
            !r.show_thread,
    {
        LogConfig {
            level: String::from_str("info"),
            log_file: Option::None,
            console_output: true,
            show_timestamp: true,
            show_target: false,
            show_thread: false,
        }
    }
}

impl LogConfig {
    /// The default configuration.
    pub fn new() -> (r: Self)
        ensures
            r.level@ == "info"@,
            r.log_file is None,
            r.console_output,
            r.show_timestamp,
            !r.show_target,
            !r.show_thread,
    {
        Self::default()
    }

    /// Sets the log level.
    pub fn with_level(self, level: &str) -> (r: Self)
        ensures
            r.level@ == level@,
            r.log_file == self.log_file,
            r.console_output == self.console_output,
            r.show_timestamp == self.show_timestamp,
            r.show_target == self.show_target,
            r.show_thread == self.show_thread,
    {
        LogConfig { level: String::from_str(level), ..self }
    }

    /// Sets the log file path.
    pub fn with_log_file(self, file: &str) -> (r: Self)
        ensures
            r.log_file matches Option::Some(f) && f@ == file@,
            r.level == self.level,
            r.console_output == self.console_output,
            r.show_timestamp == self.show_timestamp,
            r.show_target == self.show_target,
            r.show_thread == self.show_thread,
    {
        LogConfig { log_file: Option::Some(String::from_str(file)), ..self }
    }

    /// Turns console output on or off.
    pub fn with_console_output(self, enabled: bool) -> (r: Self)
        ensures
            r.console_output == enabled,
            r.level == self.level,
            r.log_file == self.log_file,
            r.show_timestamp == self.show_timestamp,
            r.show_target == self.show_target,
            r.show_thread == self.show_thread,
    {
        LogConfig { console_output: enabled, ..self }
    }

    /// Turns timestamps on or off.
    pub fn with_timestamp(self, enabled: bool) -> (r: Self)
        ensures
            r.show_timestamp == enabled,
            r.level == self.level,
            r.log_file == self.log_file,
            r.console_output == self.console_output,
            r.show_target == self.show_target,
            r.show_thread == self.show_thread,
    {
        LogConfig { show_timestamp: enabled, ..self }
    }

    /// Turns code-location reporting on or off.
    pub fn with_target(self, enabled: bool) -> (r: Self)
        ensures
            r.show_target == enabled,
            r.level == self.level,
            r.log_file == self.log_file,
            r.console_output == self.console_output,
            r.show_timestamp == self.show_timestamp,
            r.show_thread == self.show_thread,
    {
        LogConfig { show_target: enabled, ..self }
    }

    /// Turns thread naming on or off.
    pub fn with_thread(self, enabled: bool) -> (r: Self)
        ensures
            r.show_thread == enabled,
            r.level == self.level,
            r.log_file == self.log_file,
            r.console_output == self.console_output,
            r.show_timestamp == self.show_timestamp,
            r.show_target == self.show_target,
    {
        LogConfig { show_thread: enabled, ..self }
    }
}

} // verus!
