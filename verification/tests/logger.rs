use elohim::logger::{LogLevel, Logger};

#[test]
fn log_lines() {
    let l = Logger {};
    assert_eq!(l.log(LogLevel::Info, "Hello world from elohim"), b"INFO: Hello world from elohim\n".to_vec());
    assert_eq!(l.log(LogLevel::Error, "x"), b"ERROR: x\n".to_vec());
    assert_eq!(l.log(LogLevel::Warn, ""), b"WARN: \n".to_vec());
    assert_eq!(l.log(LogLevel::Debug, "d"), b"DEBUG: d\n".to_vec());
    assert_eq!(l.log(LogLevel::Trace, "t"), b"TRACE: t\n".to_vec());
}

#[test]
fn level_names_match_log_crate() {
    let l = Logger {};
    for (ours, theirs) in [
        (LogLevel::Error, log::Level::Error),
        (LogLevel::Warn, log::Level::Warn),
        (LogLevel::Info, log::Level::Info),
        (LogLevel::Debug, log::Level::Debug),
        (LogLevel::Trace, log::Level::Trace),
    ] {
        assert_eq!(l.log(ours, "m"), format!("{}: m\n", theirs).into_bytes());
    }
}

#[test]
fn logger_accepts_everything() {
    let l = Logger {};
    assert!(l.enabled(LogLevel::Trace));
    assert!(l.enabled(LogLevel::Error));
    l.flush();
    assert_eq!(Logger::max_level(), LogLevel::Info);
}
