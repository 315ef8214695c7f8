use repo_saver::activity_log::{
    init_log_buffer, log_clear, log_line, log_snapshot, LogBuffer, LogLevel, MAX_LOG_LINES,
};

#[test]
fn log_keeps_the_most_recent_lines() {
    let mut b = LogBuffer::new();
    for i in 0..(MAX_LOG_LINES + 5) {
        b.push(format!("line {i}"));
    }
    let lines = b.snapshot();
    assert_eq!(lines.len(), MAX_LOG_LINES);
    assert_eq!(lines[0], "line 5");
    assert_eq!(lines[MAX_LOG_LINES - 1], format!("line {}", MAX_LOG_LINES + 4));
    b.clear();
    assert!(b.snapshot().is_empty());
}

#[test]
fn log_keeps_everything_while_not_full() {
    let mut b = LogBuffer::new();
    b.push("a".to_string());
    b.push("b".to_string());
    assert_eq!(b.snapshot(), vec!["a".to_string(), "b".to_string()]);
}

#[test]
fn which_records_are_logged() {
    assert!(LogBuffer::enabled(LogLevel::Warn, "notify"));
    assert!(LogBuffer::enabled(LogLevel::Error, "notify"));
    assert!(!LogBuffer::enabled(LogLevel::Info, "eframe"));
    assert!(!LogBuffer::enabled(LogLevel::Trace, "x"));
    assert!(LogBuffer::enabled(LogLevel::Info, "repo_saver::backup"));
    assert!(LogBuffer::enabled(LogLevel::Error, "repo_saver::backup"));
}

#[test]
fn log_formats_lines() {
    let mut b = LogBuffer::new();
    assert_eq!(b.log(LogLevel::Warn, "repo_saver", "hello"), Some("[WARN] hello".to_string()));
    assert_eq!(b.log(LogLevel::Error, "repo_saver::x", "bad"), Some("[ERROR] bad".to_string()));
    assert_eq!(b.log(LogLevel::Info, "other", "hidden"), None);
    assert_eq!(b.log(LogLevel::Error, "notify", "seen"), Some("[ERROR] seen".to_string()));
    assert_eq!(
        b.snapshot(),
        vec!["[WARN] hello".to_string(), "[ERROR] bad".to_string(), "[ERROR] seen".to_string()]
    );
}

#[test]
fn global_log_helpers() {
    let mut none: Option<LogBuffer> = None;
    log_line(&mut none, "x".to_string());
    assert!(none.is_none());
    assert!(log_snapshot(&none).is_empty());
    log_clear(&mut none);
    assert!(none.is_none());
    let mut some = Some(LogBuffer::new());
    log_line(&mut some, "x".to_string());
    assert_eq!(log_snapshot(&some), vec!["x".to_string()]);
    log_clear(&mut some);
    assert!(log_snapshot(&some).is_empty());
}

#[test]
fn log_buffer_is_created_once() {
    let mut log: Option<LogBuffer> = None;
    init_log_buffer(&mut log);
    assert!(log_snapshot(&log).is_empty());
    log_line(&mut log, "kept".to_string());
    init_log_buffer(&mut log);
    assert_eq!(log_snapshot(&log), vec!["kept".to_string()]);
}
