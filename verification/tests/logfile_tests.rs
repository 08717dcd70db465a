use digital_wellbeing::log::DailyLog;
use digital_wellbeing::logfile::{load_day, parse, serialize};

fn records(log: &DailyLog) -> Vec<(String, u64)> {
    let mut out = Vec::new();
    for i in 0..log.len() {
        out.push((log.name_at(i).clone(), log.seconds_at(i)));
    }
    out
}

fn pair(name: &str, seconds: u64) -> (String, u64) {
    (name.to_string(), seconds)
}

#[test]
fn parse_reads_records_in_order() {
    let outcome = parse("Notepad:9\nChrome:6\n");
    assert_eq!(outcome.skipped, 0);
    assert_eq!(records(&outcome.log), vec![pair("Notepad", 9), pair("Chrome", 6)]);
}

#[test]
fn parse_of_nothing_is_empty() {
    let outcome = parse("");
    assert!(outcome.log.is_empty());
    assert_eq!(outcome.skipped, 0);
}

#[test]
fn last_line_needs_no_line_feed() {
    let outcome = parse("a:1\nb:2");
    assert_eq!(outcome.skipped, 0);
    assert_eq!(records(&outcome.log), vec![pair("a", 1), pair("b", 2)]);
}

#[test]
fn empty_lines_are_passed_over() {
    let outcome = parse("\n\na:1\n\nb:2\n\n");
    assert_eq!(outcome.skipped, 0);
    assert_eq!(records(&outcome.log), vec![pair("a", 1), pair("b", 2)]);
}

#[test]
fn white_space_around_the_count_is_ignored() {
    let outcome = parse("a: 12 \r\nb:\t7\r\n");
    assert_eq!(outcome.skipped, 0);
    assert_eq!(records(&outcome.log), vec![pair("a", 12), pair("b", 7)]);
}

#[test]
fn a_line_without_colon_is_skipped() {
    let outcome = parse("a:1\nno delimiter here\nb:2\n");
    assert_eq!(outcome.skipped, 1);
    assert_eq!(records(&outcome.log), vec![pair("a", 1), pair("b", 2)]);
}

#[test]
fn a_count_that_is_no_number_is_skipped() {
    let outcome = parse("a:one\nb:2\nc:\nd:-4\ne:1 2\nf:3.5\ng:+3\n");
    assert_eq!(outcome.skipped, 6);
    assert_eq!(records(&outcome.log), vec![pair("b", 2)]);
}

#[test]
fn a_line_of_white_space_is_skipped() {
    let outcome = parse("  \na:1\n");
    assert_eq!(outcome.skipped, 1);
    assert_eq!(records(&outcome.log), vec![pair("a", 1)]);
}

#[test]
fn the_largest_count_is_read_and_the_next_is_skipped() {
    let outcome = parse("a:18446744073709551615\nb:18446744073709551616\nc:99999999999999999999999\n");
    assert_eq!(outcome.skipped, 2);
    assert_eq!(records(&outcome.log), vec![pair("a", u64::MAX)]);
}

#[test]
fn leading_zeros_are_read() {
    let outcome = parse("a:007\nb:0\n");
    assert_eq!(outcome.skipped, 0);
    assert_eq!(records(&outcome.log), vec![pair("a", 7), pair("b", 0)]);
}

#[test]
fn the_name_ends_at_the_first_colon() {
    let outcome = parse("C:12\nweb: chat:5\n:4\n");
    assert_eq!(outcome.skipped, 1);
    assert_eq!(records(&outcome.log), vec![pair("C", 12), pair("", 4)]);
}

#[test]
fn a_name_is_kept_as_written() {
    let outcome = parse(" Spaced Name :3\nÉditeur:6\n");
    assert_eq!(outcome.skipped, 0);
    assert_eq!(records(&outcome.log), vec![pair(" Spaced Name ", 3), pair("Éditeur", 6)]);
}

#[test]
fn a_later_line_replaces_the_count_of_an_earlier_one() {
    let outcome = parse("a:1\nb:2\na:5\n");
    assert_eq!(outcome.skipped, 0);
    assert_eq!(records(&outcome.log), vec![pair("a", 5), pair("b", 2)]);
}

#[test]
fn load_of_a_day_without_file_is_empty() {
    let outcome = load_day(None);
    assert!(outcome.log.is_empty());
    assert_eq!(outcome.skipped, 0);
}

#[test]
fn load_of_a_stored_day_reads_it() {
    let outcome = load_day(Some("a:1\nbad\n"));
    assert_eq!(outcome.skipped, 1);
    assert_eq!(records(&outcome.log), vec![pair("a", 1)]);
}

#[test]
fn load_of_an_empty_file_is_empty() {
    let outcome = load_day(Some(""));
    assert!(outcome.log.is_empty());
    assert_eq!(outcome.skipped, 0);
}

#[test]
fn serialize_of_nothing_is_empty() {
    assert_eq!(serialize(&DailyLog::new()), "");
}

#[test]
fn serialize_writes_one_line_per_record() {
    let mut log = DailyLog::new();
    log.accumulate("Notepad", 3).unwrap();
    log.accumulate("Chrome", 3).unwrap();
    log.accumulate("Notepad", 3).unwrap();
    assert_eq!(serialize(&log), "Notepad:6\nChrome:3\n");
}

#[test]
fn serialize_writes_counts_in_full() {
    let mut log = DailyLog::new();
    log.set("zero", 0);
    log.set("ten", 10);
    log.set("big", u64::MAX);
    log.set("round", 1000);
    assert_eq!(serialize(&log), "zero:0\nten:10\nbig:18446744073709551615\nround:1000\n");
}

#[test]
fn stored_and_read_back_is_the_same_log() {
    let mut log = DailyLog::new();
    log.set("Notepad", 9);
    log.set("", 1);
    log.set("Visual Studio Code", 12345);
    log.set(" padded ", 0);
    log.set("Éditeur\tß", u64::MAX);
    let text = serialize(&log);
    let outcome = parse(&text);
    assert_eq!(outcome.skipped, 0);
    assert_eq!(records(&outcome.log), records(&log));
    assert_eq!(serialize(&outcome.log), text);
}

#[test]
fn a_name_with_a_colon_does_not_come_back() {
    let mut log = DailyLog::new();
    log.set("a:b", 3);
    let outcome = parse(&serialize(&log));
    assert_eq!(outcome.skipped, 1);
    assert!(outcome.log.is_empty());
}

#[test]
fn a_name_with_a_line_feed_does_not_come_back() {
    let mut log = DailyLog::new();
    log.set("a\nb", 3);
    let outcome = parse(&serialize(&log));
    assert_eq!(outcome.skipped, 1);
    assert_eq!(records(&outcome.log), vec![pair("b", 3)]);
}
