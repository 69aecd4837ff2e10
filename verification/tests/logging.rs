use rspf::config::LogLevel;
use rspf::logging::to_tracing_level;
use tracing::Level;

#[test]
fn maps_all_log_levels() {
    assert_eq!(to_tracing_level(LogLevel::Off), None);
    assert_eq!(to_tracing_level(LogLevel::Error), Some(Level::ERROR));
    assert_eq!(to_tracing_level(LogLevel::Warn), Some(Level::WARN));
    assert_eq!(to_tracing_level(LogLevel::Info), Some(Level::INFO));
    assert_eq!(to_tracing_level(LogLevel::Debug), Some(Level::DEBUG));
    assert_eq!(to_tracing_level(LogLevel::Trace), Some(Level::TRACE));
}

#[test]
fn default_log_level_is_info() {
    assert_eq!(LogLevel::default(), LogLevel::Info);
    assert_eq!(to_tracing_level(LogLevel::default()), Some(Level::INFO));
}
