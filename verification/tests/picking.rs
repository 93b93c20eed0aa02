//! The group picker.

use stereocord::picker::{
    coverage, default_switches, screen, visible_width, wrap, Choice, Input, Picker,
};
use stereocord::resolve::resolve_all;
use stereocord::sites::{default_groups, groups};

#[test]
fn wrap_respects_width_and_indent() {
    // The width applies to the text, not to the indent in front of it.
    let out = wrap("one two three four five", 9, 2);
    assert_eq!(out, vec!["  one two", "  three", "  four five"]);
}

#[test]
fn wrap_keeps_an_overlong_word_on_its_own_line() {
    let out = wrap("a supercalifragilistic b", 8, 0);
    assert_eq!(out, vec!["a", "supercalifragilistic", "b"]);
}

#[test]
fn visible_width_ignores_escapes() {
    assert_eq!(visible_width("plain"), 5);
    assert_eq!(visible_width("\x1b[1mbold\x1b[0m"), 4);
    assert_eq!(visible_width("\x1b[2mdim\x1b[0m tail"), 8);
}

#[test]
fn wrap_of_empty_text_is_empty() {
    assert!(wrap("   ", 10, 2).is_empty());
}

#[test]
fn the_picker_starts_on_the_recommended_set() {
    let mut p = Picker::new();
    assert_eq!(p.cursor, 0);
    assert_eq!(p.on, default_switches());
    match p.press(Input::Byte(b'\r')) {
        Some(Choice::Apply(names)) => assert_eq!(names, default_groups()),
        _ => panic!("enter applies"),
    }
}

#[test]
fn the_cursor_wraps_at_both_ends() {
    let mut p = Picker::new();
    assert!(p.press(Input::Byte(b'k')).is_none());
    assert_eq!(p.cursor, groups().len() - 1);
    assert!(p.press(Input::Escape(Some((b'[', b'B')))).is_none());
    assert_eq!(p.cursor, 0);
    p.press(Input::Byte(b'j'));
    p.press(Input::Escape(Some((b'[', b'A'))));
    assert_eq!(p.cursor, 0);
}

#[test]
fn space_toggles_and_toggles_back() {
    let mut p = Picker::new();
    let before = p.on.clone();
    p.press(Input::Byte(b' '));
    assert_ne!(p.on, before);
    p.press(Input::Byte(b' '));
    assert_eq!(p.on, before);
}

#[test]
fn all_none_and_defaults_do_as_they_say() {
    let mut p = Picker::new();
    p.press(Input::Byte(b'a'));
    assert!(p.on.iter().all(|&v| v));
    match p.press(Input::Byte(b'\n')) {
        Some(Choice::Apply(names)) => {
            let all: Vec<&str> = groups().iter().map(|g| g.name).collect();
            assert_eq!(names, all);
        }
        _ => panic!("enter applies"),
    }
    p.press(Input::Byte(b'n'));
    match p.press(Input::Byte(b'\n')) {
        Some(Choice::Apply(names)) => assert!(names.is_empty()),
        _ => panic!("enter applies"),
    }
    p.press(Input::Byte(b'd'));
    assert_eq!(p.on, default_switches());
}

#[test]
fn backing_out_cancels() {
    for input in [
        Input::Closed,
        Input::Byte(b'q'),
        Input::Byte(0x03),
        Input::Escape(None),
        Input::Escape(Some((b'O', b'A'))),
    ] {
        let mut p = Picker::new();
        assert!(matches!(p.press(input), Some(Choice::Cancel)));
    }
    let mut p = Picker::new();
    assert!(p.press(Input::Escape(Some((b'[', b'C')))).is_none());
    assert!(p.press(Input::Byte(b'x')).is_none());
}

#[test]
fn an_empty_file_covers_only_what_is_never_needed() {
    let report = resolve_all(&[], None);
    for g in groups() {
        let (found, total) = coverage(&report, g.name);
        assert!(found <= total);
        assert!(total > 0);
    }
    assert_eq!(coverage(&report, "nosuchgroup"), (0, 0));
}

#[test]
fn the_picture_shows_every_group_and_the_keys() {
    let report = resolve_all(&[], None);
    let p = Picker::new();
    let picture = screen("Discord 1.0.1", &p.on, p.cursor, &report, 248);
    assert!(picture.starts_with("\x1b[2J\x1b[H\x1b[1mstereocord\x1b[0m — choose what to change in Discord 1.0.1\r\n"));
    assert!(picture.contains("Bitrate 248 kbps."));
    for g in groups() {
        assert!(picture.contains(g.title), "{}", g.title);
    }
    assert!(picture.contains("› \x1b[32m[x]\x1b[0m \x1b[1mTrue stereo\x1b[0m                      \x1b[33m"));
    assert!(picture.ends_with("enter apply   q cancel\x1b[0m\r\n"));
}
