use digital_wellbeing::text::{chars_of, string_of};

#[test]
fn chars_of_gives_the_characters_in_order() {
    assert_eq!(chars_of(""), Vec::<char>::new());
    assert_eq!(chars_of("a:1"), vec!['a', ':', '1']);
    assert_eq!(chars_of("éß日🎵"), vec!['é', 'ß', '日', '🎵']);
}

#[test]
fn string_of_gives_the_part_asked_for() {
    let chars = chars_of("Notepad:9");
    assert_eq!(string_of(&chars, 0, 7), "Notepad");
    assert_eq!(string_of(&chars, 8, 9), "9");
    assert_eq!(string_of(&chars, 3, 3), "");
    assert_eq!(string_of(&chars, 0, chars.len()), "Notepad:9");
}

#[test]
fn characters_and_strings_go_back_and_forth() {
    let text = "Éditeur — 日本語 🎵\tend";
    let chars = chars_of(text);
    assert_eq!(string_of(&chars, 0, chars.len()), text);
}
