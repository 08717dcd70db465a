use digital_wellbeing::log::{DailyLog, LogError};

#[test]
fn new_log_is_empty() {
    let log = DailyLog::new();
    assert!(log.is_empty());
    assert_eq!(log.len(), 0);
    assert_eq!(log.get("Notepad"), None);
    assert_eq!(log.find("Notepad"), None);
}

#[test]
fn first_tick_counts_the_increment() {
    let mut log = DailyLog::new();
    assert_eq!(log.accumulate("Notepad", 3), Ok(3));
    assert_eq!(log.get("Notepad"), Some(3));
    assert_eq!(log.len(), 1);
}

#[test]
fn each_tick_adds_exactly_the_increment() {
    let mut log = DailyLog::new();
    let mut expected = 0u64;
    for _ in 0..10 {
        let before = log.get("Editor").unwrap_or(0);
        assert_eq!(before, expected);
        expected += 3;
        assert_eq!(log.accumulate("Editor", 3), Ok(expected));
        assert!(log.get("Editor").unwrap() > before);
    }
    assert_eq!(log.get("Editor"), Some(30));
}

#[test]
fn other_counts_do_not_move() {
    let mut log = DailyLog::new();
    log.accumulate("Notepad", 3).unwrap();
    log.accumulate("Chrome", 3).unwrap();
    log.accumulate("Chrome", 3).unwrap();
    assert_eq!(log.get("Notepad"), Some(3));
    assert_eq!(log.get("Chrome"), Some(6));
    assert_eq!(log.get("Paint"), None);
    assert_eq!(log.len(), 2);
}

#[test]
fn names_keep_the_order_of_first_appearance() {
    let mut log = DailyLog::new();
    log.accumulate("b", 1).unwrap();
    log.accumulate("a", 1).unwrap();
    log.accumulate("b", 1).unwrap();
    log.accumulate("c", 1).unwrap();
    assert_eq!(log.len(), 3);
    assert_eq!(log.name_at(0), "b");
    assert_eq!(log.name_at(1), "a");
    assert_eq!(log.name_at(2), "c");
    assert_eq!(log.seconds_at(0), 2);
    assert_eq!(log.seconds_at(1), 1);
    assert_eq!(log.seconds_at(2), 1);
    assert_eq!(log.find("a"), Some(1));
}

#[test]
fn names_differ_by_case_and_space() {
    let mut log = DailyLog::new();
    log.accumulate("notepad", 3).unwrap();
    log.accumulate("Notepad", 3).unwrap();
    log.accumulate("Notepad ", 3).unwrap();
    assert_eq!(log.len(), 3);
}

#[test]
fn set_replaces_or_appends() {
    let mut log = DailyLog::new();
    log.set("a", 5);
    log.set("b", 7);
    log.set("a", 2);
    assert_eq!(log.len(), 2);
    assert_eq!(log.get("a"), Some(2));
    assert_eq!(log.get("b"), Some(7));
    assert_eq!(log.name_at(0), "a");
}

#[test]
fn a_count_that_would_not_fit_is_refused() {
    let mut log = DailyLog::new();
    log.set("a", u64::MAX - 2);
    assert_eq!(log.accumulate("a", 3), Err(LogError::CountOverflow));
    assert_eq!(log.get("a"), Some(u64::MAX - 2));
    assert_eq!(log.accumulate("a", 2), Ok(u64::MAX));
    assert_eq!(log.accumulate("a", 1), Err(LogError::CountOverflow));
    assert_eq!(log.accumulate("a", 0), Ok(u64::MAX));
    assert_eq!(log.len(), 1);
}

#[test]
fn zero_increment_still_enters_the_name() {
    let mut log = DailyLog::new();
    assert_eq!(log.accumulate("idle", 0), Ok(0));
    assert_eq!(log.get("idle"), Some(0));
}
