use digital_wellbeing::identity::{display_name, identify, join_initial, EXTENSION_LENGTH};

#[test]
fn extension_goes_and_first_letter_is_capital() {
    assert_eq!(display_name("notepad.exe"), "Notepad");
    assert_eq!(display_name("chrome.exe"), "Chrome");
    assert_eq!(display_name("Code.exe"), "Code");
    assert_eq!(display_name("7zFM.exe"), "7zFM");
    assert_eq!(display_name("zed.exe"), "Zed");
    assert_eq!(display_name("a.exe"), "A");
}

#[test]
fn the_last_four_characters_go_whatever_they_are() {
    assert_eq!(EXTENSION_LENGTH, 4);
    assert_eq!(display_name("firefox"), "Fir");
    assert_eq!(display_name("tool.sh"), "Too");
    assert_eq!(display_name("archive.tar.gz"), "Archive.ta");
}

#[test]
fn short_names_leave_nothing() {
    assert_eq!(display_name(""), "");
    assert_eq!(display_name("a"), "");
    assert_eq!(display_name(".exe"), "");
    assert_eq!(display_name("abcd"), "");
}

#[test]
fn letters_beyond_ascii_are_capitalized_too() {
    assert_eq!(display_name("éditeur.exe"), "Éditeur");
    assert_eq!(display_name("ñu.exe"), "Ñu");
    assert_eq!(display_name("ßeta.exe"), "SSeta");
    assert_eq!(display_name("日本語.exe"), "日本語");
}

#[test]
fn the_extension_is_counted_in_characters() {
    assert_eq!(display_name("éé.éxé"), "Éé");
    assert_eq!(display_name("ßabc"), "");
    assert_eq!(display_name("ßabcd"), "SS");
}

#[test]
fn join_initial_puts_the_initial_in_front() {
    let chars: Vec<char> = "notepad.exe".chars().collect();
    assert_eq!(join_initial(&vec!['N'], &chars, 1, 7), "Notepad");
    assert_eq!(join_initial(&vec!['S', 'S'], &chars, 1, 3), "SSot");
    assert_eq!(join_initial(&vec![], &chars, 0, 0), "");
}

#[test]
fn host_process_takes_the_window_title() {
    assert_eq!(
        identify(Some("ApplicationFrameHost.exe"), "Calculator"),
        Some("Calculator".to_string())
    );
    assert_eq!(
        identify(Some("applicationFrameHost.exe"), "Photos"),
        Some("Photos".to_string())
    );
}

#[test]
fn other_processes_keep_their_name() {
    assert_eq!(identify(Some("notepad.exe"), "Untitled - Notepad"), Some("Notepad".to_string()));
    assert_eq!(
        identify(Some("ApplicationFrameHosts.exe"), "Calculator"),
        Some("ApplicationFrameHosts".to_string())
    );
    assert_eq!(
        identify(Some("applicationframehost.exe"), "Calculator"),
        Some("Applicationframehost".to_string())
    );
}

#[test]
fn no_process_gives_no_name() {
    assert_eq!(identify(None, "Calculator"), None);
    assert_eq!(identify(None, ""), None);
}

#[test]
fn an_empty_name_is_no_name() {
    assert_eq!(identify(Some(""), "Calculator"), None);
    assert_eq!(identify(Some(".exe"), "Calculator"), None);
    assert_eq!(identify(Some("ApplicationFrameHost.exe"), ""), None);
}

#[test]
fn ascii_characters_that_are_no_small_letters_stay() {
    assert_eq!(display_name("ApplicationFrameHost.exe"), "ApplicationFrameHost");
    assert_eq!(display_name("_tool.exe"), "_tool");
    assert_eq!(display_name("{x}.exe"), "{x}");
    assert_eq!(display_name("`x.exe"), "`x");
    assert_eq!(display_name(" x.exe"), " x");
}
