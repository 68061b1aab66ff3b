use citeseer::app::{
    constraint_len_calculator, keep, line_widths, max_width, reference_contains, strip_slashes,
    value_contains, widen, App, ScrollState, StatusBar, StatusBarInput, ITEM_HEIGHT,
    PALETTE_COUNT,
};
use citeseer::fields::FieldMap;
use citeseer::keys::{command_for, handle_keyboard_command, Action, Command, Key};
use citeseer::reference::{FieldType, Reference, ReferenceType};

fn reference(key: &str, fields: &[(FieldType, &str)]) -> Reference {
    let mut map = FieldMap::new();
    for (name, value) in fields {
        map.insert(*name, value.to_string());
    }
    Reference::new(key.to_string(), ReferenceType::Article, map)
}

fn catalog() -> Vec<Reference> {
    vec![
        reference("a", &[(FieldType::Title, "Programming in Rust"), (FieldType::Year, "2018")]),
        reference("b", &[(FieldType::Title, "Cooking"), (FieldType::Note, "a RUSTY pan")]),
        reference("c", &[(FieldType::Title, "Gardening"), (FieldType::Author, "Doe, Jane")]),
    ]
}

fn message(app: &App) -> String {
    match &app.status_bar {
        StatusBar::Message(m) => m.clone(),
        StatusBar::Input(i) => panic!("typing {}", i.input),
    }
}

fn keys_of(found: &Vec<Reference>) -> Vec<String> {
    found.iter().map(|r| r.key().unwrap().clone()).collect()
}

#[test]
fn new_app_selects_the_first_entry() {
    let app = App::new(catalog());
    assert_eq!(app.selected, Some(0));
    assert_eq!(app.items.len(), 3);
    assert_eq!(app.vertical_scroll, ScrollState { content_length: 2, position: 0 });
    assert_eq!(app.horizontal_scroll, ScrollState { content_length: 5, position: 0 });
    assert_eq!(
        app.visible_headers,
        vec![FieldType::Key, FieldType::Type, FieldType::Author, FieldType::Year, FieldType::Title]
    );
    assert_eq!(app.color_index, 0);
    assert_eq!(message(&app), "");
    assert!(app.search_results.is_empty());
    assert_eq!(app.longest_item_lens, (1, 7, 6, 4, 19));
}

#[test]
fn new_app_on_an_empty_catalog_selects_nothing() {
    let mut app = App::new(vec![]);
    assert_eq!(app.selected, None);
    assert_eq!(app.vertical_scroll, ScrollState { content_length: 0, position: 0 });
    assert_eq!(app.longest_item_lens, (0, 0, 0, 0, 0));
    app.select_next();
    assert_eq!(app.selected, None);
    app.select_previous();
    assert_eq!(app.selected, None);
    assert_eq!(app.yank(), None);
}

#[test]
fn selection_wraps_around() {
    let mut app = App::new(catalog());
    app.select_next();
    assert_eq!((app.selected, app.vertical_scroll.position), (Some(1), 1));
    app.select_next();
    assert_eq!((app.selected, app.vertical_scroll.position), (Some(2), 2 * ITEM_HEIGHT));
    app.select_next();
    assert_eq!((app.selected, app.vertical_scroll.position), (Some(0), 0));
    app.select_previous();
    assert_eq!((app.selected, app.vertical_scroll.position), (Some(2), 2));
    app.select_previous();
    assert_eq!((app.selected, app.vertical_scroll.position), (Some(1), 1));
    app.selected = None;
    app.select_previous();
    assert_eq!(app.selected, Some(0));
    app.selected = None;
    app.select_next();
    assert_eq!(app.selected, Some(0));
}

#[test]
fn selection_in_a_catalog_of_one() {
    let mut app = App::new(vec![reference("only", &[])]);
    app.select_next();
    assert_eq!(app.selected, Some(0));
    app.select_previous();
    assert_eq!(app.selected, Some(0));
}

#[test]
fn colors_cycle_through_the_palettes() {
    let mut app = App::new(catalog());
    let mut seen = vec![];
    for _ in 0..PALETTE_COUNT + 1 {
        app.next_color();
        seen.push(app.color_index);
    }
    assert_eq!(seen, vec![1, 2, 3, 0, 1]);
    app.previous_color();
    app.previous_color();
    assert_eq!(app.color_index, 3);
    app.previous_color();
    assert_eq!(app.color_index, 2);
    app.color_index = 9;
    app.next_color();
    assert_eq!(app.color_index, 2);
}

#[test]
fn columns_scroll_between_the_first_and_the_last() {
    let mut app = App::new(catalog());
    app.select_previous_column();
    assert_eq!(app.horizontal_scroll.position, 0);
    for expected in [1, 2, 3, 4, 4, 4] {
        app.select_next_column();
        assert_eq!(app.horizontal_scroll.position, expected);
    }
    app.select_previous_column();
    assert_eq!(app.horizontal_scroll.position, 3);
}

#[test]
fn scroll_state_moves_like_a_scrollbar() {
    let mut s = ScrollState::new(3).position(1);
    assert_eq!(s, ScrollState { content_length: 3, position: 1 });
    s.next();
    assert_eq!(s.position, 2);
    s.next();
    assert_eq!(s.position, 2);
    s.prev();
    s.prev();
    s.prev();
    assert_eq!(s.position, 0);
    let mut empty = ScrollState::new(0);
    empty.next();
    assert_eq!(empty.position, 0);
    let mut far = ScrollState::new(3).position(usize::MAX);
    far.next();
    assert_eq!(far.position, 2);
    let mut out = ScrollState::new(3).position(10);
    out.prev();
    assert_eq!(out.position, 9);
}

#[test]
fn yank_gives_the_bibtex_of_the_selected_entry() {
    let mut app = App::new(catalog());
    app.select_next();
    assert_eq!(app.yank(), Some(app.items[1].to_bibtex()));
    assert_eq!(app.selected_reference(), Some(&app.items[1]));
    app.selected = Some(3);
    assert_eq!(app.yank(), None);
    assert_eq!(app.selected_reference(), None);
}

#[test]
fn yank_finished_tells_how_it_went() {
    let mut app = App::new(catalog());
    app.select_next();
    app.yank_finished(true);
    assert_eq!(message(&app), "Copied b to the clipboard as BibTeX.");
    app.yank_finished(false);
    assert_eq!(message(&app), "Yank failed.");
    app.selected = None;
    app.yank_finished(true);
    assert_eq!(message(&app), "Yank failed.");
    let mut keyless = App::new(vec![Reference { fields: FieldMap::new() }]);
    keyless.yank_finished(true);
    assert_eq!(message(&keyless), "Copied  to the clipboard as BibTeX.");
}

#[test]
fn search_finds_without_regard_to_case() {
    let mut app = App::new(catalog());
    app.status_bar = StatusBar::Input(StatusBarInput { input: "/rust".into(), cursor_position: 5 });
    app.search();
    assert_eq!(keys_of(&app.search_results), vec!["a", "b"]);
    assert_eq!(app.search_results[0], app.items[0]);
    app.status_bar = StatusBar::Input(StatusBarInput { input: "/RuSt".into(), cursor_position: 5 });
    app.search();
    assert_eq!(keys_of(&app.search_results), vec!["a", "b"]);
    app.status_bar = StatusBar::Input(StatusBarInput { input: "/jane".into(), cursor_position: 5 });
    app.search();
    assert_eq!(keys_of(&app.search_results), vec!["c"]);
    // the key and the type are fields too
    app.status_bar = StatusBar::Input(StatusBarInput { input: "/ARTICLE".into(), cursor_position: 1 });
    app.search();
    assert_eq!(keys_of(&app.search_results), vec!["a", "b", "c"]);
    app.status_bar = StatusBar::Input(StatusBarInput { input: "/zzz".into(), cursor_position: 1 });
    app.search();
    assert!(app.search_results.is_empty());
}

#[test]
fn search_for_nothing_finds_everything() {
    let mut app = App::new(catalog());
    app.status_bar = StatusBar::Input(StatusBarInput { input: "/".into(), cursor_position: 1 });
    app.search();
    assert_eq!(app.search_results, app.items);
    // an entry without any field has no value to find anything in
    let mut bare = App::new(vec![Reference { fields: FieldMap::new() }]);
    bare.status_bar = StatusBar::Input(StatusBarInput { input: "/".into(), cursor_position: 1 });
    bare.search();
    assert!(bare.search_results.is_empty());
}

#[test]
fn search_cuts_all_leading_slashes() {
    let mut app = App::new(catalog());
    app.status_bar = StatusBar::Input(StatusBarInput { input: "///rust".into(), cursor_position: 1 });
    app.search();
    assert_eq!(keys_of(&app.search_results), vec!["a", "b"]);
    let input: Vec<char> = "//a/b".chars().collect();
    assert_eq!(strip_slashes(&input), &['a', '/', 'b']);
    assert_eq!(strip_slashes(&['/', '/']), &[] as &[char]);
    assert_eq!(strip_slashes(&['x', '/']), &['x', '/']);
}

#[test]
fn search_while_a_message_is_shown_finds_nothing() {
    let mut app = App::new(catalog());
    app.status_bar = StatusBar::Input(StatusBarInput { input: "/".into(), cursor_position: 1 });
    app.search();
    assert_eq!(app.search_results.len(), 3);
    app.status_bar = StatusBar::Message("rust".into());
    app.search();
    assert!(app.search_results.is_empty());
}

#[test]
fn contains_works_on_lowercase_forms() {
    let r = reference("k", &[(FieldType::Title, "Straße und GROSS")]);
    assert!(reference_contains(&r, "gross"));
    assert!(reference_contains(&r, "STRASSE") == "straße und gross".contains("strasse"));
    assert!(reference_contains(&r, "Und"));
    assert!(!reference_contains(&r, "klein"));
    let term: Vec<char> = "ab".chars().collect();
    assert!(value_contains("xxABxx", &term));
    assert!(value_contains("Ab", &term));
    assert!(!value_contains("a b", &term));
    assert!(value_contains("", &[]));
}

#[test]
fn widths_are_those_of_the_widest_line() {
    assert_eq!(line_widths("ab\ncdef\n\ng"), vec![2, 4, 0, 1]);
    assert_eq!(line_widths(""), Vec::<usize>::new());
    // wide characters take two columns, a combining mark none
    assert_eq!(line_widths("漢字\ne\u{301}"), vec![4, 1]);
    assert_eq!(max_width(0, &vec![]), 0);
    assert_eq!(max_width(3, &vec![1, 2]), 3);
    assert_eq!(max_width(0, &vec![1, 5, 2]), 5);
    assert_eq!(widen(2, Some(&String::from("ab\nabcd"))), 4);
    assert_eq!(widen(9, Some(&String::from("ab\nabcd"))), 9);
    assert_eq!(widen(2, None), 2);
    assert_eq!(widen(0, Some(&String::new())), 0);
}

#[test]
fn keep_cuts_to_sixteen_bits() {
    assert_eq!(keep(0), 0);
    assert_eq!(keep(65535), 65535);
    assert_eq!(keep(65536), 0);
    assert_eq!(keep(65537 + 65536), 1);
}

#[test]
fn column_lens_of_a_catalog() {
    let items = vec![
        reference("long-key", &[(FieldType::Title, "T"), (FieldType::Author, "Jane Doe and Plato")]),
        reference("k", &[(FieldType::Title, "Two\nlines of 漢字"), (FieldType::Year, "1999")]),
    ];
    // key, type, authors as shown ("Doe, J; Plato"), year, title
    assert_eq!(constraint_len_calculator(&items), (8, 7, 13, 4, 13));
    assert_eq!(constraint_len_calculator(&[]), (0, 0, 0, 0, 0));
    let wide = "x".repeat(65536 + 3);
    let items = vec![reference("k", &[(FieldType::Title, &wide)])];
    assert_eq!(constraint_len_calculator(&items).4, 3);
}

#[test]
fn keys_stand_for_commands() {
    assert_eq!(command_for(Key::Char('q')), Some(Command::Quit));
    assert_eq!(command_for(Key::Char('j')), Some(Command::SelectNext));
    assert_eq!(command_for(Key::Down), Some(Command::SelectNext));
    assert_eq!(command_for(Key::Char('k')), Some(Command::SelectPrevious));
    assert_eq!(command_for(Key::Up), Some(Command::SelectPrevious));
    assert_eq!(command_for(Key::Char('l')), Some(Command::NextColor));
    assert_eq!(command_for(Key::Right), Some(Command::NextColor));
    assert_eq!(command_for(Key::Char('h')), Some(Command::PreviousColor));
    assert_eq!(command_for(Key::Left), Some(Command::PreviousColor));
    assert_eq!(command_for(Key::Char('y')), Some(Command::Yank));
    assert_eq!(command_for(Key::Char('/')), Some(Command::EnterSearchMode));
    assert_eq!(command_for(Key::Char('Q')), None);
    assert_eq!(command_for(Key::Char('x')), None);
    assert_eq!(command_for(Key::Backspace), None);
    assert_eq!(command_for(Key::Esc), None);
    assert_eq!(command_for(Key::Other), None);
}

#[test]
fn keyboard_commands_change_the_state() {
    let mut app = App::new(catalog());
    assert!(matches!(handle_keyboard_command(&mut app, Key::Char('j')), Action::Continue));
    assert_eq!(app.selected, Some(1));
    assert!(matches!(handle_keyboard_command(&mut app, Key::Up), Action::Continue));
    assert_eq!(app.selected, Some(0));
    assert!(matches!(handle_keyboard_command(&mut app, Key::Char('h')), Action::Continue));
    assert_eq!(app.color_index, 3);
    assert!(matches!(handle_keyboard_command(&mut app, Key::Right), Action::Continue));
    assert_eq!(app.color_index, 0);
    assert!(matches!(handle_keyboard_command(&mut app, Key::Char('q')), Action::Quit));
    assert!(matches!(handle_keyboard_command(&mut app, Key::Char('z')), Action::Continue));
    match handle_keyboard_command(&mut app, Key::Char('y')) {
        Action::Copy(text) => assert_eq!(text, app.items[0].to_bibtex()),
        other => panic!("{:?}", other),
    }
    assert_eq!(message(&app), "");
    assert!(matches!(app.run(Command::NextColumn), Action::Continue));
    assert_eq!(app.horizontal_scroll.position, 1);
    assert!(matches!(app.run(Command::PreviousColumn), Action::Continue));
    assert_eq!(app.horizontal_scroll.position, 0);
    assert!(matches!(handle_keyboard_command(&mut app, Key::Char('/')), Action::Continue));
    match &app.status_bar {
        StatusBar::Input(i) => assert_eq!((i.input.as_str(), i.cursor_position), ("/", 1)),
        StatusBar::Message(_) => panic!("not typing"),
    }
}

#[test]
fn yank_without_a_selection_fails_at_once() {
    let mut app = App::new(vec![]);
    assert!(matches!(handle_keyboard_command(&mut app, Key::Char('y')), Action::Continue));
    assert_eq!(message(&app), "Yank failed.");
}

#[test]
fn a_session_of_keys() {
    let mut app = App::new(catalog());
    app.status_bar = StatusBar::Message("stale".into());
    // any key while browsing empties the message first
    assert!(matches!(app.handle_key(Key::Other), Action::Continue));
    assert_eq!(message(&app), "");
    assert!(matches!(app.handle_key(Key::Char('/')), Action::Continue));
    assert_eq!(app.search_results.len(), 3);
    for c in "rusty".chars() {
        assert!(matches!(app.handle_key(Key::Char(c)), Action::Continue));
    }
    assert_eq!(app.status_bar.text(), "/rusty");
    assert_eq!(keys_of(&app.search_results), vec!["b"]);
    // 'q' and 'j' are typed, they are no commands now
    assert!(matches!(app.handle_key(Key::Char('q')), Action::Continue));
    assert_eq!(app.status_bar.text(), "/rustyq");
    assert!(app.search_results.is_empty());
    assert!(matches!(app.handle_key(Key::Down), Action::Continue));
    assert_eq!(app.selected, Some(0));
    assert!(matches!(app.handle_key(Key::Esc), Action::Continue));
    assert_eq!(message(&app), "");
    assert!(app.search_results.is_empty());
    assert!(matches!(app.handle_key(Key::Char('j')), Action::Continue));
    assert_eq!(app.selected, Some(1));
    match app.handle_key(Key::Char('y')) {
        Action::Copy(text) => assert_eq!(text, app.items[1].to_bibtex()),
        other => panic!("{:?}", other),
    }
    app.yank_finished(true);
    assert_eq!(message(&app), "Copied b to the clipboard as BibTeX.");
    assert!(matches!(app.handle_key(Key::Char('q')), Action::Quit));
    assert_eq!(message(&app), "");
}

#[test]
fn sort_items_orders_by_the_shown_authors() {
    let items = vec![
        reference("1", &[(FieldType::Author, "Zola, Emile")]),
        reference("2", &[(FieldType::Author, "John Smith")]),
        reference("3", &[]),
        reference("4", &[(FieldType::Author, "Smith, Jane")]),
        reference("5", &[(FieldType::Author, "Adams, Douglas and Zola, Emile")]),
        reference("6", &[(FieldType::Author, "Adams, Douglas")]),
        reference("7", &[]),
    ];
    let mut app = App::new(items);
    app.select_next();
    app.sort_items();
    // the two without authors first, then by the shown text; equal ones keep their order
    assert_eq!(keys_of(&app.items), vec!["3", "7", "6", "5", "2", "4", "1"]);
    assert_eq!(app.selected, Some(1));
    app.sort_items();
    assert_eq!(keys_of(&app.items), vec!["3", "7", "6", "5", "2", "4", "1"]);
    let mut empty = App::new(vec![]);
    empty.sort_items();
    assert!(empty.items.is_empty());
}

#[test]
fn backspace_in_a_session_keeps_the_sentinel() {
    let mut app = App::new(catalog());
    app.handle_key(Key::Char('/'));
    for c in "rux".chars() {
        app.handle_key(Key::Char(c));
    }
    app.handle_key(Key::Backspace);
    assert_eq!(app.status_bar.text(), "/ru");
    app.handle_key(Key::Char('s'));
    app.handle_key(Key::Char('t'));
    assert_eq!(app.status_bar.text(), "/rust");
    assert_eq!(keys_of(&app.search_results), vec!["a", "b"]);
    for _ in 0..9 {
        app.handle_key(Key::Backspace);
    }
    assert_eq!(app.status_bar.text(), "/");
    assert_eq!(app.search_results.len(), 3);
    app.handle_key(Key::Char('j'));
    assert_eq!(app.status_bar.text(), "/j");
    match &app.status_bar {
        StatusBar::Input(i) => assert_eq!(i.cursor_position, 2),
        StatusBar::Message(_) => panic!("not typing"),
    }
}
