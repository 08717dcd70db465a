use digital_wellbeing::date::Date;
use digital_wellbeing::log::DailyLog;
use digital_wellbeing::logfile::parse;
use digital_wellbeing::sampler::{Action, Phase, Sampler, TICK_SECONDS};

fn day(year: i32, month: u32, day: u32) -> Date {
    Date::new(year, month, day).unwrap()
}

fn records(log: &DailyLog) -> Vec<(String, u64)> {
    let mut out = Vec::new();
    for i in 0..log.len() {
        out.push((log.name_at(i).clone(), log.seconds_at(i)));
    }
    out
}

fn pair(name: &str, seconds: u64) -> (String, u64) {
    (name.to_string(), seconds)
}

/// A sampler on `today` whose log has been loaded from `stored`.
fn running(today: Date, stored: Option<&str>) -> Sampler {
    let mut sampler = Sampler::new(today);
    assert!(matches!(sampler.begin_tick(today), Action::Load { date } if date == today));
    assert!(matches!(sampler.loaded(stored), Action::Sample));
    assert_eq!(sampler.phase(), Phase::Running);
    sampler
}

/// One whole tick on `today` that observes `process` with `title`.
fn tick(sampler: &mut Sampler, today: Date, process: Option<&str>, title: &str) -> Action {
    match sampler.begin_tick(today) {
        Action::Sample => sampler.sampled(process, title),
        Action::Load { date } => {
            assert_eq!(date, today);
            assert!(matches!(sampler.loaded(None), Action::Sample));
            sampler.sampled(process, title)
        }
        other => panic!("a tick began with {:?}", other),
    }
}

#[test]
fn a_tick_stands_for_three_seconds() {
    assert_eq!(TICK_SECONDS, 3);
}

#[test]
fn a_new_sampler_asks_for_the_log_of_its_day() {
    let today = day(2024, 1, 1);
    let mut sampler = Sampler::new(today);
    assert_eq!(sampler.phase(), Phase::DayRolled);
    assert_eq!(sampler.date(), today);
    assert!(sampler.log().is_empty());
    match sampler.begin_tick(today) {
        Action::Load { date } => assert_eq!(date, today),
        other => panic!("expected a load, got {:?}", other),
    }
    assert_eq!(sampler.phase(), Phase::DayRolled);
}

#[test]
fn notepad_three_times_then_chrome_twice() {
    let today = day(2024, 1, 1);
    let mut sampler = running(today, None);
    let mut last = String::new();
    for _ in 0..3 {
        match tick(&mut sampler, today, Some("notepad.exe"), "Untitled - Notepad") {
            Action::Save { date, text } => {
                assert_eq!(date, today);
                last = text;
            }
            other => panic!("expected a save, got {:?}", other),
        }
    }
    assert_eq!(last, "Notepad:9\n");
    for _ in 0..2 {
        match tick(&mut sampler, today, Some("chrome.exe"), "New Tab") {
            Action::Save { date, text } => {
                assert_eq!(date, today);
                last = text;
            }
            other => panic!("expected a save, got {:?}", other),
        }
    }
    assert_eq!(records(sampler.log()), vec![pair("Notepad", 9), pair("Chrome", 6)]);
    assert_eq!(last, "Notepad:9\nChrome:6\n");
    assert_eq!(records(&parse(&last).log), records(sampler.log()));
}

#[test]
fn a_tick_without_application_changes_nothing() {
    let today = day(2024, 1, 1);
    let mut sampler = running(today, Some("Notepad:9\n"));
    assert!(matches!(tick(&mut sampler, today, None, ""), Action::Wait));
    assert!(matches!(tick(&mut sampler, today, None, "Some title"), Action::Wait));
    assert!(matches!(tick(&mut sampler, today, Some(""), "Some title"), Action::Wait));
    assert!(matches!(tick(&mut sampler, today, Some("ApplicationFrameHost.exe"), ""), Action::Wait));
    assert_eq!(records(sampler.log()), vec![pair("Notepad", 9)]);
}

#[test]
fn the_stored_log_of_the_day_is_taken_up() {
    let today = day(2024, 1, 1);
    let mut sampler = running(today, Some("Notepad:9\nbroken line\nChrome:6\n"));
    assert_eq!(sampler.skipped(), 1);
    match tick(&mut sampler, today, Some("chrome.exe"), "") {
        Action::Save { date, text } => {
            assert_eq!(date, today);
            assert_eq!(text, "Notepad:9\nChrome:9\n");
        }
        other => panic!("expected a save, got {:?}", other),
    }
}

#[test]
fn the_host_process_is_counted_under_the_window_title() {
    let today = day(2024, 1, 1);
    let mut sampler = running(today, None);
    match tick(&mut sampler, today, Some("ApplicationFrameHost.exe"), "Calculator") {
        Action::Save { text, .. } => assert_eq!(text, "Calculator:3\n"),
        other => panic!("expected a save, got {:?}", other),
    }
}

#[test]
fn a_new_day_starts_from_its_own_log() {
    let monday = day(2024, 1, 1);
    let tuesday = day(2024, 1, 2);
    let mut sampler = running(monday, None);
    tick(&mut sampler, monday, Some("notepad.exe"), "");
    tick(&mut sampler, monday, Some("notepad.exe"), "");
    assert_eq!(records(sampler.log()), vec![pair("Notepad", 6)]);

    match sampler.begin_tick(tuesday) {
        Action::Load { date } => assert_eq!(date, tuesday),
        other => panic!("expected a load, got {:?}", other),
    }
    assert_eq!(sampler.phase(), Phase::DayRolled);
    assert_eq!(sampler.date(), tuesday);
    assert!(sampler.log().is_empty());
    assert!(matches!(sampler.loaded(None), Action::Sample));
    assert_eq!(sampler.phase(), Phase::Running);
    match sampler.sampled(Some("notepad.exe"), "") {
        Action::Save { date, text } => {
            assert_eq!(date, tuesday);
            assert_eq!(text, "Notepad:3\n");
        }
        other => panic!("expected a save, got {:?}", other),
    }
}

#[test]
fn every_save_is_for_the_day_of_its_tick() {
    let mut today = day(2023, 12, 30);
    let mut sampler = Sampler::new(today);
    for round in 0..12 {
        if round % 3 == 0 {
            today = today.next().unwrap();
        }
        match tick(&mut sampler, today, Some("notepad.exe"), "") {
            Action::Save { date, .. } => assert_eq!(date, today),
            other => panic!("expected a save, got {:?}", other),
        }
        assert_eq!(sampler.date(), today);
    }
    assert_eq!(records(sampler.log()), vec![pair("Notepad", 9)]);
}

#[test]
fn a_load_that_was_not_reported_is_asked_for_again() {
    let today = day(2024, 1, 1);
    let mut sampler = Sampler::new(today);
    assert!(matches!(sampler.begin_tick(today), Action::Load { .. }));
    assert!(matches!(sampler.begin_tick(today), Action::Load { .. }));
    assert_eq!(sampler.phase(), Phase::DayRolled);
}

#[test]
fn a_sample_before_the_log_is_not_counted() {
    let today = day(2024, 1, 1);
    let mut sampler = Sampler::new(today);
    assert!(matches!(sampler.sampled(Some("notepad.exe"), ""), Action::Wait));
    assert!(sampler.log().is_empty());
    assert_eq!(sampler.phase(), Phase::DayRolled);
}

#[test]
fn a_log_that_was_not_asked_for_is_ignored() {
    let today = day(2024, 1, 1);
    let mut sampler = running(today, Some("Notepad:9\n"));
    assert!(matches!(sampler.loaded(Some("Chrome:100\n")), Action::Wait));
    assert_eq!(records(sampler.log()), vec![pair("Notepad", 9)]);
    assert_eq!(sampler.phase(), Phase::Running);
}

#[test]
fn a_full_count_stops_counting() {
    let today = day(2024, 1, 1);
    let mut sampler = running(today, Some("Notepad:18446744073709551614\n"));
    assert!(matches!(tick(&mut sampler, today, Some("notepad.exe"), ""), Action::Wait));
    assert_eq!(records(sampler.log()), vec![pair("Notepad", u64::MAX - 1)]);
}

#[test]
fn a_sampler_counts_by_its_interval() {
    let today = day(2024, 1, 1);
    assert_eq!(Sampler::new(today).interval(), 3);
    let mut sampler = Sampler::with_interval(today, 10);
    assert_eq!(sampler.interval(), 10);
    for _ in 0..3 {
        tick(&mut sampler, today, Some("notepad.exe"), "");
    }
    assert_eq!(records(sampler.log()), vec![pair("Notepad", 30)]);
}

#[test]
fn the_wait_is_what_is_left_of_the_interval() {
    let sampler = Sampler::new(day(2024, 1, 1));
    assert_eq!(sampler.wait_after(0), 3000);
    assert_eq!(sampler.wait_after(1), 2999);
    assert_eq!(sampler.wait_after(2999), 1);
    assert_eq!(sampler.wait_after(3000), 0);
    assert_eq!(sampler.wait_after(60_000), 0);
    let slow = Sampler::with_interval(day(2024, 1, 1), u64::MAX);
    assert_eq!(slow.wait_after(5), u64::MAX as u128 * 1000 - 5);
}

#[test]
fn a_day_that_was_never_tracked_loads_as_an_empty_log() {
    let date = day(2024, 1, 2);
    let mut sampler = Sampler::new(date);
    assert!(matches!(sampler.begin_tick(date), Action::Load { date: asked } if asked == date));
    assert!(matches!(sampler.loaded(None), Action::Sample));
    assert!(sampler.log().is_empty());
    assert_eq!(sampler.log().len(), 0);
    assert_eq!(sampler.skipped(), 0);
    assert_eq!(sampler.date(), date);
}
