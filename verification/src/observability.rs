//! Configuration of the observability components: logging levels, formats and
//! outputs, tracing exporters and the metrics server address.
use vstd::prelude::*;

use crate::text::{decimal, push_decimal, push_text};

verus! {

#[verifier::external_type_specification]
#[verifier::external_body]
pub struct ExPathBuf(std::path::PathBuf);

/// `PathBuf::clone` from std, reached through the derived `Clone` of
/// `LogOutput`: it hands back a copy of the path. Nothing is stated of the
/// copy, since no verified logic reads a path.
pub assume_specification[<std::path::PathBuf as Clone>::clone](p: &std::path::PathBuf) -> (r: std::path::PathBuf);

/// Log level enumeration, from most to least verbose.
#[derive(Debug, Clone, Copy, PartialEq, Eq, PartialOrd, Ord)]
pub enum LogLevel {
    /// Trace level - most verbose
    Trace,
    /// Debug level - detailed information
    Debug,
    /// Info level - general information
    Info,
    /// Warn level - warnings
    Warn,
    /// Error level - errors only
    Error,
}

/// The filter directive of a level.
pub open spec fn directive_of(level: LogLevel) -> Seq<char> {
    match level {
        LogLevel::Trace => "trace"@,
        LogLevel::Debug => "debug"@,
        LogLevel::Info => "info"@,
        LogLevel::Warn => "warn"@,
        LogLevel::Error => "error"@,
    }
}

/// The position of a level from most verbose (0) to least verbose (4).
pub open spec fn verbosity_rank(level: LogLevel) -> int {
    match level {
        LogLevel::Trace => 0,
        LogLevel::Debug => 1,
        LogLevel::Info => 2,
        LogLevel::Warn => 3,
        LogLevel::Error => 4,
    }
}

impl LogLevel {
    /// Convert to filter directive string for EnvFilter
    pub fn to_filter_directive(&self) -> (r: &'static str)
        ensures
            r@ == directive_of(*self),
    {
        match self {
            LogLevel::Trace => "trace",
            LogLevel::Debug => "debug",
            LogLevel::Info => "info",
            LogLevel::Warn => "warn",
            LogLevel::Error => "error",
        }
    }

    /// The position of the level from most verbose (0) to least verbose (4),
    /// the order in which levels compare.
    pub fn rank(&self) -> (r: u8)
        ensures
            r == verbosity_rank(*self),
    {
        match self {
            LogLevel::Trace => 0,
            LogLevel::Debug => 1,
            LogLevel::Info => 2,
            LogLevel::Warn => 3,
            LogLevel::Error => 4,
        }
    }
}

/// Log output format
#[derive(Debug, Clone, Copy, PartialEq, Eq)]
pub enum LogFormat {
    /// Human-readable format for development
    Pretty,
    /// JSON format for production log aggregation
    Json,
    /// Compact format for high-throughput scenarios
    Compact,
}

/// Log output destination
#[derive(Debug, Clone, PartialEq, Eq)]
pub enum LogOutput {
    /// Write to stdout
    Stdout,
    /// Write to stderr
    Stderr,
    /// Write to a file
    File(std::path::PathBuf),
}

/// Configuration for the logging system
#[derive(Debug, Clone)]
pub struct LoggingConfig {
    /// Log level threshold
    pub level: LogLevel,
    /// Output format
    pub format: LogFormat,
    /// Output destination
    pub output: LogOutput,
}

impl Default for LoggingConfig {
    fn default() -> (c: Self)
        ensures
            c.level == LogLevel::Info,
            c.format == LogFormat::Pretty,
            c.output is Stdout,
    {
        LoggingConfig { level: LogLevel::Info, format: LogFormat::Pretty, output: LogOutput::Stdout }
    }
}

/// Errors that can occur during logging initialization
#[derive(Debug, Clone, PartialEq, Eq)]
pub enum LoggingError {
    /// Logging has already been initialized
    AlreadyInitialized,
    /// Failed to set global default subscriber
    SetGlobalDefaultFailed(String),
    /// Failed to open log file (with the I/O error's message)
    FileOpenFailed(String),
}

/// Tracing exporter types
#[derive(Debug, Clone)]
pub enum TracingExporter {
    /// Jaeger exporter (agent endpoint)
    Jaeger { endpoint: String },
    /// Zipkin exporter (collector endpoint)
    Zipkin { endpoint: String },
    /// OTLP exporter
    Otlp { endpoint: String },
    /// No exporter (tracing disabled)
    Disabled,
}

impl TracingExporter {
    /// Whether spans are exported at all: every exporter but `Disabled`.
    pub fn is_enabled(&self) -> (r: bool)
        ensures
            r == !(*self is Disabled),
    {
        match self {
            TracingExporter::Disabled => false,
            _ => true,
        }
    }

    /// The endpoint spans are sent to, where there is one.
    pub fn endpoint(&self) -> (r: Option<&String>)
        ensures
            match *self {
                TracingExporter::Jaeger { endpoint } => r == Some(&endpoint),
                TracingExporter::Zipkin { endpoint } => r == Some(&endpoint),
                TracingExporter::Otlp { endpoint } => r == Some(&endpoint),
                TracingExporter::Disabled => r is None,
            },
    {
        match self {
            TracingExporter::Jaeger { endpoint } => Some(endpoint),
            TracingExporter::Zipkin { endpoint } => Some(endpoint),
            TracingExporter::Otlp { endpoint } => Some(endpoint),
            TracingExporter::Disabled => None,
        }
    }
}

/// Configuration for the metrics HTTP server.
#[derive(Debug, Clone)]
pub struct MetricsServerConfig {
    /// Address to bind to (e.g. "0.0.0.0" or "127.0.0.1")
    pub bind_address: String,
    /// Port to listen on
    pub port: u16,
}

impl Default for MetricsServerConfig {
    fn default() -> (c: Self)
        ensures
            c.bind_address@ == "0.0.0.0"@,
            c.port == 9090,
    {
        MetricsServerConfig { bind_address: "0.0.0.0".to_owned(), port: 9090 }
    }
}

impl MetricsServerConfig {
    /// The `address:port` text the server binds to.
    pub fn socket_address(&self) -> (r: String)
        ensures
            r@ == self.bind_address@ + ":"@ + decimal(self.port as nat),
    {
        let mut r = String::new();
        push_text(&mut r, self.bind_address.as_str());
        push_text(&mut r, ":");
        push_decimal(&mut r, self.port as u64);
        r
    }
}

/// Errors of the metrics server.
#[derive(Debug, Clone, PartialEq, Eq)]
pub enum MetricsServerError {
    /// Failed to bind to the address (address, I/O error message)
    BindError(String, String),
    /// Server error
    ServerError(String),
}

} // verus!
