use citeseer::app::{StatusBar, StatusBarInput};
use citeseer::fields::FieldMap;
use citeseer::keys::{handle_status_bar_input, Key};
use citeseer::reference::{FieldType, Reference, ReferenceType};
use citeseer::ui::{
    clamp_cursor, compare_authors, delete_char, enter_char, move_cursor_left, move_cursor_right,
};
use std::cmp::Ordering;

fn input(text: &str, cursor_position: usize) -> StatusBarInput {
    StatusBarInput { input: text.to_string(), cursor_position }
}

fn typed(status_bar: StatusBar) -> (String, usize) {
    match status_bar {
        StatusBar::Input(i) => (i.input, i.cursor_position),
        StatusBar::Message(m) => panic!("a message: {}", m),
    }
}

#[test]
fn clamp_cursor_stops_one_behind_the_end() {
    let i = input("/abc", 1);
    assert_eq!(clamp_cursor(&i, 0), 0);
    assert_eq!(clamp_cursor(&i, 3), 3);
    assert_eq!(clamp_cursor(&i, 4), 4);
    assert_eq!(clamp_cursor(&i, 5), 5);
    assert_eq!(clamp_cursor(&i, 6), 5);
    assert_eq!(clamp_cursor(&i, usize::MAX), 5);
    assert_eq!(clamp_cursor(&input("", 0), 7), 1);
}

#[test]
fn clamp_cursor_counts_characters() {
    // three characters in five bytes
    let i = input("/éé", 1);
    assert_eq!(clamp_cursor(&i, 3), 3);
    assert_eq!(clamp_cursor(&i, 9), 4);
}

#[test]
fn cursor_moves_by_one_and_saturates() {
    let i = input("/abc", 1);
    assert_eq!(move_cursor_left(&i, 3), 2);
    assert_eq!(move_cursor_left(&i, 1), 0);
    assert_eq!(move_cursor_left(&i, 0), 0);
    assert_eq!(move_cursor_left(&i, 100), 5);
    assert_eq!(move_cursor_right(&i, 0), 1);
    assert_eq!(move_cursor_right(&i, 3), 4);
    assert_eq!(move_cursor_right(&i, 4), 5);
    assert_eq!(move_cursor_right(&i, 5), 5);
    assert_eq!(move_cursor_right(&i, usize::MAX), 5);
}

#[test]
fn enter_char_inserts_at_the_cursor() {
    let next = enter_char(&input("/", 1), 'r');
    assert_eq!((next.input.as_str(), next.cursor_position), ("/r", 2));
    let next = enter_char(&input("/rst", 2), 'u');
    assert_eq!((next.input.as_str(), next.cursor_position), ("/rust", 3));
    let next = enter_char(&input("/ab", 0), 'x');
    assert_eq!((next.input.as_str(), next.cursor_position), ("x/ab", 1));
    // a cursor behind the end types at the end
    let next = enter_char(&input("/ab", 9), 'x');
    assert_eq!((next.input.as_str(), next.cursor_position), ("/abx", 4));
}

#[test]
fn enter_char_takes_any_character() {
    let next = enter_char(&input("/", 1), 'é');
    assert_eq!((next.input.as_str(), next.cursor_position), ("/é", 2));
    let next = enter_char(&next, '漢');
    assert_eq!((next.input.as_str(), next.cursor_position), ("/é漢", 3));
    let next = enter_char(&input("/é漢", 2), 'x');
    assert_eq!((next.input.as_str(), next.cursor_position), ("/éx漢", 3));
}

#[test]
fn delete_char_is_idle_at_the_sentinel() {
    let next = delete_char(&input("/", 1));
    assert_eq!((next.input.as_str(), next.cursor_position), ("/", 1));
    let next = delete_char(&input("/abc", 1));
    assert_eq!((next.input.as_str(), next.cursor_position), ("/abc", 1));
    let next = delete_char(&input("/abc", 0));
    assert_eq!((next.input.as_str(), next.cursor_position), ("/abc", 0));
}

#[test]
fn delete_char_removes_the_character_before_the_cursor() {
    let next = delete_char(&input("/abc", 4));
    assert_eq!((next.input.as_str(), next.cursor_position), ("/ab", 3));
    let next = delete_char(&input("/abc", 3));
    assert_eq!((next.input.as_str(), next.cursor_position), ("/ac", 2));
    let next = delete_char(&input("/abc", 2));
    assert_eq!((next.input.as_str(), next.cursor_position), ("/bc", 1));
    let next = delete_char(&input("/é漢x", 3));
    assert_eq!((next.input.as_str(), next.cursor_position), ("/éx", 2));
    // behind the end nothing is before the cursor, which comes back to the text
    let next = delete_char(&input("/abc", 5));
    assert_eq!((next.input.as_str(), next.cursor_position), ("/abc", 4));
    let next = delete_char(&input("/abc", 50));
    assert_eq!((next.input.as_str(), next.cursor_position), ("/abc", 5));
}

#[test]
fn typing_after_backspace_stays_behind_the_sentinel() {
    let next = delete_char(&input("/abc", 3));
    let next = enter_char(&next, 'x');
    assert_eq!((next.input.as_str(), next.cursor_position), ("/axc", 3));
    let mut line = input("/abc", 4);
    for _ in 0..6 {
        line = delete_char(&line);
    }
    assert_eq!((line.input.as_str(), line.cursor_position), ("/", 1));
    let line = enter_char(&line, 'x');
    assert_eq!((line.input.as_str(), line.cursor_position), ("/x", 2));
}

#[test]
fn status_bar_input_follows_the_key() {
    let i = input("/ab", 3);
    assert_eq!(typed(handle_status_bar_input(&i, Key::Char('c'))), ("/abc".to_string(), 4));
    assert_eq!(typed(handle_status_bar_input(&i, Key::Backspace)), ("/a".to_string(), 2));
    assert_eq!(typed(handle_status_bar_input(&i, Key::Up)), ("/ab".to_string(), 3));
    assert_eq!(typed(handle_status_bar_input(&i, Key::Other)), ("/ab".to_string(), 3));
    assert_eq!(typed(handle_status_bar_input(&i, Key::Char('q'))), ("/abq".to_string(), 4));
    match handle_status_bar_input(&i, Key::Esc) {
        StatusBar::Message(m) => assert_eq!(m, ""),
        StatusBar::Input(_) => panic!("still typing"),
    }
}

fn by(author: Option<&str>) -> Reference {
    let mut fields = FieldMap::new();
    if let Some(a) = author {
        fields.insert(FieldType::Author, a.to_string());
    }
    Reference::new(String::from("k"), ReferenceType::Misc, fields)
}

#[test]
fn compare_authors_goes_by_the_shown_names() {
    // shown as "Smith, J" and "Smith, A"
    assert_eq!(compare_authors(&by(Some("John Smith")), &by(Some("Smith, Adam"))), Ordering::Greater);
    // both shown as "Smith, J"
    assert_eq!(compare_authors(&by(Some("John Smith")), &by(Some("Smith, Jane"))), Ordering::Equal);
    assert_eq!(compare_authors(&by(None), &by(Some("A"))), Ordering::Less);
    assert_eq!(compare_authors(&by(Some("")), &by(None)), Ordering::Greater);
    assert_eq!(compare_authors(&by(None), &by(None)), Ordering::Equal);
    assert_eq!(
        compare_authors(&by(Some("Doe, Jane and Roe, Rick")), &by(Some("Doe, Jane"))),
        Ordering::Greater
    );
}
