use std::path::PathBuf;

use sn::app::{App, KeyCode, KeyEvent, ListState};
use sn::notes::Note;

fn note(name: &str, content: &str) -> Note {
    Note {
        name: name.to_string(),
        path: PathBuf::from(format!("/notes/{name}.md")),
        content: content.to_string(),
    }
}

fn app_with(n: usize) -> App {
    let notes = (0..n).map(|i| note(&format!("n{i}"), "one\ntwo\nthree\nfour\nfive")).collect();
    App::new(PathBuf::from("/notes"), 32, notes)
}

fn key(c: char) -> KeyEvent {
    KeyEvent { code: KeyCode::Char(c), modifiers: 0 }
}

#[test]
fn new_selects_the_first_note() {
    let app = app_with(3);
    assert_eq!(app.selected, 0);
    assert_eq!(app.preview_scroll, 0);
    assert!(!app.should_quit);
    assert_eq!(app.list_state, ListState { offset: 0, selected: None });
    assert_eq!(app.selected_note().unwrap().name, "n0");
}

#[test]
fn moving_down_and_up() {
    let mut app = app_with(3);
    app.handle_key(key('j'));
    assert_eq!(app.selected, 1);
    assert_eq!(app.list_state.selected, Some(1));
    app.handle_key(KeyEvent { code: KeyCode::Down, modifiers: 0 });
    assert_eq!(app.selected, 2);
    app.handle_key(key('j'));
    assert_eq!(app.selected, 2);
    app.handle_key(key('k'));
    assert_eq!(app.selected, 1);
    app.handle_key(KeyEvent { code: KeyCode::Up, modifiers: 0 });
    app.handle_key(KeyEvent { code: KeyCode::Up, modifiers: 0 });
    assert_eq!(app.selected, 0);
}

#[test]
fn first_and_last() {
    let mut app = app_with(4);
    app.handle_key(key('G'));
    assert_eq!(app.selected, 3);
    app.handle_key(key('g'));
    assert_eq!(app.selected, 0);
    app.handle_key(KeyEvent { code: KeyCode::Char('g'), modifiers: 1 });
    assert_eq!(app.selected, 3);
    app.handle_key(KeyEvent { code: KeyCode::Char('g'), modifiers: 2 });
    assert_eq!(app.selected, 0);
}

#[test]
fn moving_resets_the_preview_scroll() {
    let mut app = app_with(2);
    app.handle_key(key(']'));
    app.handle_key(key(']'));
    assert_eq!(app.preview_scroll, 2);
    app.handle_key(key('['));
    assert_eq!(app.preview_scroll, 1);
    app.handle_key(key('j'));
    assert_eq!(app.preview_scroll, 0);
    app.handle_key(key('['));
    assert_eq!(app.preview_scroll, 0);
}

#[test]
fn quit_keys() {
    let mut app = app_with(1);
    app.handle_key(key('x'));
    assert!(!app.should_quit);
    app.handle_key(key('q'));
    assert!(app.should_quit);
    let mut app = app_with(0);
    app.handle_key(KeyEvent { code: KeyCode::Esc, modifiers: 0 });
    assert!(app.should_quit);
}

#[test]
fn keys_on_an_empty_list_change_nothing() {
    let mut app = app_with(0);
    for c in ['j', 'k', 'g', 'G'] {
        app.handle_key(key(c));
        assert_eq!(app.selected, 0);
        assert_eq!(app.list_state.selected, None);
    }
    assert!(app.selected_note().is_none());
}

#[test]
fn reload_keeps_or_moves_the_selection() {
    let mut app = app_with(5);
    app.handle_key(key('G'));
    app.handle_key(key(']'));
    app.reload_notes(vec![note("a", ""), note("b", "")]);
    assert_eq!(app.selected, 1);
    assert_eq!(app.preview_scroll, 0);
    app.reload_notes(vec![note("a", ""), note("b", ""), note("c", "")]);
    assert_eq!(app.selected, 1);
    app.reload_notes(vec![]);
    assert_eq!(app.selected, 0);
}

#[test]
fn effective_left_width_bounds() {
    let mut app = app_with(1);
    assert_eq!(app.effective_left_width(100), 32);
    assert_eq!(app.effective_left_width(45), 25);
    assert_eq!(app.effective_left_width(30), 32);
    app.left_width = 5;
    assert_eq!(app.effective_left_width(100), 20);
    assert_eq!(app.effective_left_width(10), 20);
    app.left_width = 500;
    assert_eq!(app.effective_left_width(41), 21);
}

#[test]
fn clamp_keeps_the_preview_within_the_note() {
    let mut app = app_with(1);
    for _ in 0..10 {
        app.handle_key(key(']'));
    }
    app.clamp_preview_scroll(3);
    assert_eq!(app.preview_scroll, 2);
    app.clamp_preview_scroll(3);
    assert_eq!(app.preview_scroll, 2);
    app.clamp_preview_scroll(5);
    assert_eq!(app.preview_scroll, 0);
    let mut empty = app_with(0);
    empty.preview_scroll = 7;
    empty.clamp_preview_scroll(1);
    assert_eq!(empty.preview_scroll, 0);
}

#[test]
fn clamp_counts_lines_as_str_lines_does() {
    let mut app = App::new(PathBuf::from("/n"), 32, vec![note("a", "x\r\ny\n\nz\n")]);
    app.preview_scroll = 100;
    app.clamp_preview_scroll(1);
    assert_eq!(app.preview_scroll, "x\r\ny\n\nz\n".lines().count() as u16 - 1);
}

#[test]
fn scroll_saturates_at_the_top_of_u16() {
    let mut app = app_with(1);
    app.preview_scroll = u16::MAX;
    app.handle_key(key(']'));
    assert_eq!(app.preview_scroll, u16::MAX);
}
