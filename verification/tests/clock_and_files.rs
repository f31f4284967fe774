use task_manager::clock::has_day;
use task_manager::clock::minutes_between;
use task_manager::clock::ClockReading;
use task_manager::clock::Timestamp;
use task_manager::clock::Weekday;
use task_manager::config::Config;
use task_manager::logger::LogManager;
use task_manager::logger::LogWriter;

fn clock() -> ClockReading {
    ClockReading {
        now: Timestamp { secs: 1_706_688_300, nanos: 0 },
        day: 19753,
        weekday: Weekday::Wed,
        year: 2024,
        month: 1,
        day_of_month: 31,
        hour: 8,
        minute: 5,
        second: 0,
    }
}

#[test]
fn stamps_show_date_and_time() {
    assert_eq!(clock().stamp(), "2024-01-31 08:05:00");
    assert_eq!(clock().stamped("hello"), "[2024-01-31 08:05:00] hello");
    let mut old = clock();
    old.year = -5;
    assert_eq!(old.stamp(), "-0005-01-31 08:05:00");
    old.year = 12345;
    assert_eq!(old.stamp(), "+12345-01-31 08:05:00");
}

#[test]
fn log_files_are_named_after_the_day() {
    assert_eq!(clock().log_file_name(), "01-31-24.log");
    let mut c = clock();
    c.year = 2005;
    c.month = 12;
    c.day_of_month = 9;
    assert_eq!(c.log_file_name(), "12-09-05.log");
}

#[test]
fn minutes_are_counted_towards_zero() {
    let at = |secs: i64, nanos: u32| Timestamp { secs, nanos };
    assert_eq!(minutes_between(at(60, 0), at(0, 0)), 1);
    assert_eq!(minutes_between(at(119, 999_999_999), at(0, 0)), 1);
    assert_eq!(minutes_between(at(60, 0), at(0, 1)), 0);
    assert_eq!(minutes_between(at(0, 0), at(119, 0)), -1);
    assert_eq!(minutes_between(at(0, 0), at(59, 0)), 0);
}

#[test]
fn days_are_found_in_lists() {
    let days = vec![Weekday::Mon, Weekday::Sun];
    assert!(has_day(&days, Weekday::Sun));
    assert!(!has_day(&days, Weekday::Tue));
    assert_eq!(Weekday::Thu.name(), "Thu");
}

#[test]
fn files_lie_below_the_base_directory() {
    assert_eq!(Config::base_dir(Some("/exe".to_string()), Some("/cwd".to_string())), "/exe");
    assert_eq!(Config::base_dir(None, Some("/cwd".to_string())), "/cwd");
    assert_eq!(Config::base_dir(None, None), ".");
    let names = [
        (Config::config_path("/b"), "config.json"),
        (Config::log_dir("/b"), "logs"),
        (Config::status_path("/b"), "status.json"),
        (Config::status_temp_path("/b"), "status.tmp"),
        (Config::pid_path("/b"), "service.pid"),
        (Config::command_path("/b"), "command.json"),
    ];
    for (path, name) in names {
        assert_eq!(path.dir, "/b");
        assert_eq!(path.name, name);
    }
}

#[test]
fn missing_configuration_is_empty() {
    let config = Config::load(None);
    assert_eq!(config.smtp_port, 0);
    assert!(config.tasks.is_empty());
    assert!(config.password_verifier.is_none());
    let mut stored = Config::default();
    stored.smtp_port = 2525;
    assert_eq!(Config::load(Some(stored)).smtp_port, 2525);
}

#[test]
fn messages_wait_in_order() {
    let mut manager = LogManager::new();
    manager.log("a".to_string());
    manager.log("b".to_string());
    let mut writer = LogWriter::new(&clock());
    let step = manager.writer_thread(&mut writer, &clock(), true);
    assert_eq!(step.lines, vec!["[2024-01-31 08:05:00] a", "[2024-01-31 08:05:00] b"]);
    assert!(manager.writer_thread(&mut writer, &clock(), true).lines.is_empty());
}

#[test]
fn files_roll_over_with_the_day() {
    let mut writer = LogWriter::new(&clock());
    let mut manager = LogManager::new();
    let step = manager.writer_thread(&mut writer, &clock(), false);
    assert_eq!((step.file.as_str(), step.opens), ("01-31-24.log", true));
    let step = manager.writer_thread(&mut writer, &clock(), true);
    assert_eq!((step.file.as_str(), step.opens), ("01-31-24.log", false));
    let mut next = clock();
    next.day += 1;
    next.month = 2;
    next.day_of_month = 1;
    manager.log("late".to_string());
    let step = manager.writer_thread(&mut writer, &next, true);
    assert_eq!((step.file.as_str(), step.opens), ("02-01-24.log", true));
    assert_eq!(step.lines, vec!["[2024-02-01 08:05:00] late"]);
    assert_eq!(writer.day, next.day);
}

#[test]
fn old_logs_expire_after_a_week() {
    assert!(!LogWriter::is_expired(100, 107));
    assert!(LogWriter::is_expired(99, 107));
    assert!(!LogWriter::is_expired(200, 107));
}
