use elara::observability::{
    LogFormat, LogLevel, LogOutput, LoggingConfig, LoggingError, MetricsServerConfig, TracingExporter,
};
use std::path::PathBuf;

#[test]
fn test_log_level_ordering() {
    assert!(LogLevel::Trace < LogLevel::Debug);
    assert!(LogLevel::Debug < LogLevel::Info);
    assert!(LogLevel::Info < LogLevel::Warn);
    assert!(LogLevel::Warn < LogLevel::Error);
}

#[test]
fn test_default_config() {
    let config = LoggingConfig::default();
    assert_eq!(config.level, LogLevel::Info);
    assert_eq!(config.format, LogFormat::Pretty);
    assert_eq!(config.output, LogOutput::Stdout);
}

#[test]
fn test_log_level_conversions() {
    assert!(LogLevel::Trace < LogLevel::Debug);
    assert!(LogLevel::Debug < LogLevel::Info);
    assert!(LogLevel::Info < LogLevel::Warn);
    assert!(LogLevel::Warn < LogLevel::Error);
}

#[test]
fn test_logging_config_default() {
    let config = LoggingConfig::default();
    assert_eq!(config.level, LogLevel::Info);
    assert_eq!(config.format, LogFormat::Pretty);
    assert_eq!(config.output, LogOutput::Stdout);
}

#[test]
fn test_log_output_variants() {
    let _stdout = LogOutput::Stdout;
    let _stderr = LogOutput::Stderr;
    let _file = LogOutput::File(PathBuf::from("/tmp/test.log"));

    assert_eq!(LogOutput::Stdout, LogOutput::Stdout);
    assert_eq!(LogOutput::Stderr, LogOutput::Stderr);
    assert_ne!(LogOutput::Stdout, LogOutput::Stderr);
}

#[test]
fn test_log_format_variants() {
    let _pretty = LogFormat::Pretty;
    let _json = LogFormat::Json;
    let _compact = LogFormat::Compact;

    assert_eq!(LogFormat::Pretty, LogFormat::Pretty);
    assert_eq!(LogFormat::Json, LogFormat::Json);
    assert_eq!(LogFormat::Compact, LogFormat::Compact);
    assert_ne!(LogFormat::Pretty, LogFormat::Json);
}

#[test]
fn filter_directives_and_ranks() {
    let levels = [LogLevel::Trace, LogLevel::Debug, LogLevel::Info, LogLevel::Warn, LogLevel::Error];
    let directives: Vec<&str> = levels.iter().map(|l| l.to_filter_directive()).collect();
    assert_eq!(directives, vec!["trace", "debug", "info", "warn", "error"]);
    let ranks: Vec<u8> = levels.iter().map(|l| l.rank()).collect();
    assert_eq!(ranks, vec![0, 1, 2, 3, 4]);
}

#[test]
fn logging_errors_compare() {
    assert_eq!(LoggingError::AlreadyInitialized, LoggingError::AlreadyInitialized);
    assert_ne!(
        LoggingError::FileOpenFailed("a".to_string()),
        LoggingError::SetGlobalDefaultFailed("a".to_string())
    );
}

#[test]
fn tracing_exporters() {
    let disabled = TracingExporter::Disabled;
    assert!(!disabled.is_enabled());
    assert!(disabled.endpoint().is_none());
    let jaeger = TracingExporter::Jaeger { endpoint: "http://localhost:14268/api/traces".to_string() };
    assert!(jaeger.is_enabled());
    assert_eq!(jaeger.endpoint().map(|s| s.as_str()), Some("http://localhost:14268/api/traces"));
    let otlp = TracingExporter::Otlp { endpoint: "http://localhost:4317".to_string() };
    assert_eq!(otlp.endpoint().map(|s| s.as_str()), Some("http://localhost:4317"));
    let zipkin = TracingExporter::Zipkin { endpoint: "http://localhost:9411/api/v2/spans".to_string() };
    assert!(zipkin.is_enabled());
}

#[test]
fn metrics_server_address() {
    let config = MetricsServerConfig::default();
    assert_eq!(config.bind_address, "0.0.0.0");
    assert_eq!(config.port, 9090);
    assert_eq!(config.socket_address(), "0.0.0.0:9090");
    let config = MetricsServerConfig { bind_address: "127.0.0.1".to_string(), port: 0 };
    assert_eq!(config.socket_address(), "127.0.0.1:0");
}
