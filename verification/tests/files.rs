use std::path::{Path, PathBuf};
use zeron::files::{
    KEEP_DAYS, LogDate, LogFile, MAX_BYTES, component, daily_name, log_name, overflow_name, prune_old_logs,
    rotate_if_oversize, rotated_name,
};
use zeron::mode::LogMode;

const MODES: [LogMode; 4] = [LogMode::Headed, LogMode::Headless, LogMode::Mcp, LogMode::Cli];
const DAY: u128 = 86_400_000_000_000;

fn file(name: &str, age: u128) -> LogFile {
    LogFile { name: Some(String::from(name)), age: Some(age) }
}

#[test]
fn daily_log_name_shape() {
    let dir = Path::new("/tmp");
    let date = LogDate::new(2026, 9, 25).unwrap();
    assert_eq!(
        dir.join(daily_name(LogMode::Headless, date)),
        PathBuf::from("/tmp/zeron-headless-2026-09-25.log")
    );
}

#[test]
fn oversize_log_rotates() {
    assert_eq!(
        rotate_if_oversize("zeron-cli-test.log", Some(64), 16),
        Some(String::from("zeron-cli-test.log.1"))
    );
    assert_eq!(rotate_if_oversize("zeron-cli-small.log", Some(8), 16), None);
}

#[test]
fn a_log_at_the_cap_stays() {
    let name = "zeron-mcp-2026-09-25.log";
    assert_eq!(MAX_BYTES, 26_214_400);
    assert_eq!(rotate_if_oversize(name, Some(MAX_BYTES), MAX_BYTES), None);
    assert_eq!(
        rotate_if_oversize(name, Some(MAX_BYTES + 1), MAX_BYTES),
        Some(String::from("zeron-mcp-2026-09-25.log.1"))
    );
    assert_eq!(rotate_if_oversize(name, None, 0), None);
}

#[test]
fn old_logs_pruned_by_mtime() {
    let files = vec![
        file("zeron-headed-2026-09-25.log", 0),
        file("zeron-headed-2026-01-01.log", (KEEP_DAYS as u128 + 1) * DAY),
        file("notes.txt", 0),
    ];
    assert_eq!(prune_old_logs(&files), vec![1]);
}

#[test]
fn only_stale_logs_are_pruned() {
    let week = KEEP_DAYS as u128 * DAY;
    let files = vec![
        file("zeron-headed-2026-01-01.log", week),
        file("zeron-headed-2026-01-01.log", week + 1),
        file("zeron-headed-2026-01-01.log.1", week + 1),
        file("zeron-mcp.4711.log", week + 1),
        file("zeron-mcp.4711.log.2", week + 1),
        file("notes.txt", 100 * week),
        file("old-zeron-headed.log", 100 * week),
        LogFile { name: None, age: Some(100 * week) },
        LogFile { name: Some(String::from("zeron-x.log")), age: None },
        file("zeron-.log", u128::MAX),
    ];
    assert_eq!(prune_old_logs(&files), vec![1, 2, 3, 9]);
    assert_eq!(prune_old_logs(&vec![]), Vec::<usize>::new());
}

#[test]
fn every_log_of_a_process_is_swept() {
    let date = LogDate::new(2026, 8, 4).unwrap();
    for mode in MODES {
        let daily = daily_name(mode, date);
        let overflow = overflow_name(mode, 4711);
        let rotated = rotated_name(&daily);
        assert_eq!(rotated, format!("{daily}.1"));
        assert_eq!(overflow, format!("zeron-{}.4711.log", mode.as_str()));
        assert!(log_name(&daily));
        assert!(log_name(&overflow));
        assert!(log_name(&rotated));
        assert_ne!(daily, overflow);
    }
}

#[test]
fn log_names_are_unique() {
    let mut names: Vec<String> = Vec::new();
    for mode in MODES {
        for day in 1..=31 {
            names.push(daily_name(mode, LogDate::new(2026, 12, day).unwrap()));
        }
        for pid in [0, 1, 10, u32::MAX] {
            names.push(overflow_name(mode, pid));
        }
    }
    let all = names.len();
    names.sort();
    names.dedup();
    assert_eq!(names.len(), all);
}

#[test]
fn rotated_names_replace_the_extension() {
    assert_eq!(rotated_name("a.log"), "a.log.1");
    assert_eq!(rotated_name("a.b.txt"), "a.b.log.1");
    assert_eq!(rotated_name("a"), "a.log.1");
    assert_eq!(rotated_name("..a"), "..");
    let mut names = vec![String::new()];
    let mut from = 0;
    for _ in 0..6 {
        let to = names.len();
        for i in from..to {
            for c in ['a', '.', 'é', '-'] {
                names.push(format!("{}{c}", names[i]));
            }
        }
        from = to;
    }
    for name in names {
        let path = Path::new(&name).with_extension("log.1");
        assert_eq!(rotated_name(&name), path.to_str().unwrap(), "{name}");
    }
}

#[test]
fn components_hold_no_separator() {
    assert!(component(""));
    assert!(component("zeron-cli-test.log"));
    assert!(!component("a.d/b"));
    assert!(!component("a\\b"));
    assert!(!component("/"));
    for mode in MODES {
        assert!(component(&daily_name(mode, LogDate::new(-1, 1, 1).unwrap())));
        assert!(component(&overflow_name(mode, 1)));
    }
}

#[test]
fn dates_are_those_of_the_calendar() {
    for year in [-262144, -262143, -400, -100, -4, -1, 0, 1900, 2000, 2023, 2024, 262142, 262143] {
        for month in 0..=13 {
            for day in 0..=32 {
                let known = chrono::NaiveDate::from_ymd_opt(year, month, day);
                let date = LogDate::new(year, month, day);
                assert_eq!(date.is_some(), known.is_some(), "{year}-{month}-{day}");
                if let (Some(date), Some(known)) = (date, known) {
                    assert_eq!(date.text(), known.format("%Y-%m-%d").to_string());
                }
            }
        }
    }
}

#[test]
fn dates_are_written_with_padding_and_sign() {
    let text = |year, month, day| LogDate::new(year, month, day).unwrap().text();
    assert_eq!(text(2026, 9, 25), "2026-09-25");
    assert_eq!(text(7, 12, 1), "0007-12-01");
    assert_eq!(text(0, 1, 1), "0000-01-01");
    assert_eq!(text(-1, 1, 1), "-0001-01-01");
    assert_eq!(text(-12345, 1, 1), "-12345-01-01");
    assert_eq!(text(10000, 10, 31), "+10000-10-31");
    assert_eq!(text(9999, 2, 28), "9999-02-28");
}
