use gpu_governor::utils::log_level_manager::{
    LogLevel, LogLevelManager, MonitorAction, WatchEvent, WATCH_BACKOFF_MILLIS,
};

#[test]
fn manager_starts_at_info() {
    let m = LogLevelManager::new();
    assert_eq!(m.get_current_level(), LogLevel::Info);
}

#[test]
fn level_file_names_the_level() {
    assert_eq!(LogLevelManager::read_log_level_config(Some(b"debug")), LogLevel::Debug);
    assert_eq!(LogLevelManager::read_log_level_config(Some(b"info")), LogLevel::Info);
    assert_eq!(LogLevelManager::read_log_level_config(Some(b"warn")), LogLevel::Warn);
    assert_eq!(LogLevelManager::read_log_level_config(Some(b"error")), LogLevel::Error);
    assert_eq!(LogLevelManager::read_log_level_config(Some(b"  DeBuG\n")), LogLevel::Debug);
    assert_eq!(LogLevelManager::read_log_level_config(Some(b"ERROR\r\n")), LogLevel::Error);
}

#[test]
fn other_content_means_info() {
    for text in [&b""[..], b"trace", b"off", b"warning", b"debug!", b"de bug", b"d\x45bug\x00", b"\xffdebug"] {
        assert_eq!(LogLevelManager::read_log_level_config(Some(text)), LogLevel::Info);
    }
    assert_eq!(LogLevelManager::read_log_level_config(None), LogLevel::Info);
}

#[test]
fn update_reports_a_change_once() {
    let mut m = LogLevelManager::new();
    assert!(!m.update_level(LogLevel::Info));
    assert!(m.update_level(LogLevel::Warn));
    assert_eq!(m.get_current_level(), LogLevel::Warn);
    assert!(!m.update_level(LogLevel::Warn));
    assert!(m.update_level(LogLevel::Info));
    assert_eq!(m.get_current_level(), LogLevel::Info);
}

#[test]
fn update_sets_the_facade_level() {
    let mut m = LogLevelManager::new();
    let pairs = [
        (LogLevel::Debug, log::LevelFilter::Debug),
        (LogLevel::Error, log::LevelFilter::Error),
        (LogLevel::Trace, log::LevelFilter::Trace),
        (LogLevel::Off, log::LevelFilter::Off),
        (LogLevel::Warn, log::LevelFilter::Warn),
        (LogLevel::Info, log::LevelFilter::Info),
    ];
    for (level, filter) in pairs {
        assert!(m.update_level(level));
        assert_eq!(log::max_level(), filter);
    }
}

#[test]
fn monitor_backs_off_one_second_after_a_wait_error() {
    let mut m = LogLevelManager::new();
    assert_eq!(m.monitor_step(WatchEvent::WaitFailed), MonitorAction::Backoff(1000));
    assert_eq!(WATCH_BACKOFF_MILLIS, 1000);
    assert_eq!(m.get_current_level(), LogLevel::Info);
}

#[test]
fn monitor_ignores_a_missing_file() {
    let mut m = LogLevelManager::new();
    m.update_level(LogLevel::Error);
    assert_eq!(m.monitor_step(WatchEvent::Missing), MonitorAction::Wait);
    assert_eq!(m.get_current_level(), LogLevel::Error);
}

#[test]
fn monitor_announces_only_changes() {
    let mut m = LogLevelManager::new();
    assert_eq!(m.monitor_step(WatchEvent::Level(LogLevel::Info)), MonitorAction::Wait);
    assert_eq!(m.monitor_step(WatchEvent::Level(LogLevel::Debug)), MonitorAction::Notify(LogLevel::Debug));
    assert_eq!(m.get_current_level(), LogLevel::Debug);
    assert_eq!(m.monitor_step(WatchEvent::Level(LogLevel::Debug)), MonitorAction::Wait);
    assert_eq!(m.monitor_step(WatchEvent::WaitFailed), MonitorAction::Backoff(1000));
    assert_eq!(m.monitor_step(WatchEvent::Level(LogLevel::Warn)), MonitorAction::Notify(LogLevel::Warn));
}
