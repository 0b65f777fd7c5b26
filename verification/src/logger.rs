//! Logger configuration and the log-reading arithmetic.
//!
//! Writing, rotating and clearing log files is I/O the caller performs;
//! what lives here is the configuration a logger runs under and the exact
//! tail computation a bounded log read uses.

use vstd::prelude::*;
use vstd::string::StringExecFns;

verus! {

/// A log verbosity level.
#[derive(Debug, Clone, Copy, PartialEq, Eq, Structural)]
pub enum LogLevel {
    /// Errors only.
    Error,
    /// Warnings and up.
    Warning,
    /// Informational and up.
    Info,
    /// Debugging detail.
    Debug,
    /// Everything.
    Trace,
}

/// One log line, parsed.
#[derive(Debug, Clone)]
pub struct LogEntry {
    /// When the line was written, as Unix milliseconds.
    pub timestamp: u64,
    /// Its level.
    pub level: LogLevel,
    /// The module that wrote it.
    pub module: String,
    /// The message.
    pub message: String,
}

/// What a logger runs under.
#[derive(Debug, Clone)]
pub struct LoggerConfig {
    /// The log file's path.
    pub log_file: String,
    /// The level below which lines are dropped.
    pub level: LogLevel,
    /// Whether lines also go to the console.
    pub console_output: bool,
    /// Rotation threshold in bytes.
    pub max_file_size: u64,
    /// How many rotated files are kept.
    pub max_files: usize,
}

impl Default for LoggerConfig {
    /// A console logger at `Info` over `camera-server.log`, rotating at
    /// 10 MiB with 5 files kept.
    fn default() -> (r: Self)
        ensures
            r.log_file@ == "camera-server.log"@,
            r.level == LogLevel::Info,
            r.console_output == true,
            r.max_file_size == 10485760,
            r.max_files == 5,
    {
        LoggerConfig {
            log_file: String::from_str("camera-server.log"),
            level: LogLevel::Info,
            console_output: true,
            max_file_size: 10485760,
            max_files: 5,
        }
    }
}

/// The logger: it owns its configuration; the sinks are the caller's.
pub struct Logger {
    config: LoggerConfig,
}

impl Logger {
    /// The configuration the logger runs under.
    pub closed spec fn spec_config(&self) -> LoggerConfig {
        self.config
    }

    /// Makes a logger over the given configuration.
    pub fn new(config: LoggerConfig) -> (r: Self)
        ensures
            r.spec_config() == config,
    {
        Logger { config }
    }

    /// The path of the log file.
    pub fn log_file_path(&self) -> (r: &String)
        ensures
            *r == self.spec_config().log_file,
    {
        &self.config.log_file
    }

    /// Changes the level below which lines are dropped.
    pub fn set_level(&mut self, level: LogLevel) -> (r: Result<(), ()>)
        ensures
            r is Ok,
            final(self).spec_config() == (LoggerConfig { level, ..old(self).spec_config() }),
    {
        self.config.level = level;
        Ok(())
    }

    /// Whether a log file of the given size is due for rotation.
    pub fn needs_rotation(&self, file_size: u64) -> (r: bool)
        ensures
            r == (file_size >= self.spec_config().max_file_size),
    {
        file_size >= self.config.max_file_size
    }
}

/// The last `max_lines` lines of a log, all of them when there are fewer:
/// exactly what a bounded log read returns once the file is split into
/// lines.
pub fn tail_lines(lines: Vec<String>, max_lines: usize) -> (r: Vec<String>)
    ensures
        r@ == if lines@.len() <= max_lines {
            lines@
        } else {
            lines@.subrange(lines@.len() - max_lines, lines@.len() as int)
        },
{
    let n = lines.len();
    if n <= max_lines {
        return lines;
    }
    let mut out: Vec<String> = Vec::new();
    let start = n - max_lines;
    let mut k: usize = start;
    while k < n
        invariant
            start <= k <= n,
            n == lines@.len(),
            start == n - max_lines,
            out@ =~= lines@.subrange(start as int, k as int),
        decreases n - k,
    {
        out.push(lines[k].clone());
        proof {
            assert(out@ =~= lines@.subrange(start as int, k as int + 1));
        }
        k += 1;
    }
    out
}

} // verus!
