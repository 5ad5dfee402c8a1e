use std::path::PathBuf;

use sn::app::App;
use sn::notes::Note;
use sn::style::{Color, Style, BOLD};
use sn::ui::{notes_panel, preview_panel, PreviewBody};

fn note(name: &str, content: &str) -> Note {
    Note {
        name: name.to_string(),
        path: PathBuf::from(name),
        content: content.to_string(),
    }
}

#[test]
fn notes_panel_styles_the_selected_row_and_counts() {
    let mut app = App::new(PathBuf::from("/n"), 32, vec![note("a", ""), note("b", ""), note("c", "")]);
    app.selected = 1;
    let panel = notes_panel(&mut app, 0, 20).unwrap();
    assert_eq!(app.list_state.selected, Some(1));
    assert_eq!(panel.row_styles.len(), 3);
    assert_eq!(panel.row_styles[0], Style::new());
    assert_eq!(panel.row_styles[1], Style::new().bg(Color::Blue).fg(Color::Black).add_modifier(BOLD));
    let footer = panel.footer.unwrap();
    assert_eq!(footer.y, 18);
    assert_eq!(footer.text, "2/3");
    assert!(notes_panel(&mut app, 5, 7).unwrap().footer.is_none());
    let mut empty = App::new(PathBuf::from("/n"), 32, vec![]);
    assert!(notes_panel(&mut empty, 0, 20).is_none());
}

#[test]
fn preview_panel_titles_and_positions() {
    let content = (1..=10).map(|i| format!("line {i}")).collect::<Vec<_>>().join("\n");
    let mut app = App::new(PathBuf::from("/n"), 32, vec![note("todo", &content), note("blank", "")]);
    app.preview_scroll = 50;
    let panel = preview_panel(&mut app, 6, 4);
    assert_eq!(panel.title, " todo ");
    assert_eq!(app.preview_scroll, 6);
    match panel.body {
        PreviewBody::Content { scroll, position } => {
            assert_eq!(scroll, 6);
            assert_eq!(position.unwrap(), "Line 7-10 of 10");
        }
        other => panic!("unexpected {other:?}"),
    }
    app.selected = 1;
    let panel = preview_panel(&mut app, 6, 4);
    assert_eq!(panel.title, " blank ");
    assert!(matches!(panel.body, PreviewBody::EmptyFile));
    app.selected = 5;
    let panel = preview_panel(&mut app, 6, 4);
    assert_eq!(panel.title, " Preview ");
    assert!(matches!(panel.body, PreviewBody::NoSelection));
    let mut empty = App::new(PathBuf::from("/n"), 32, vec![]);
    assert!(matches!(preview_panel(&mut empty, 6, 4).body, PreviewBody::NoNotes));
}

#[test]
fn preview_fits_without_position() {
    let mut app = App::new(PathBuf::from("/n"), 32, vec![note("s", "a\nb")]);
    let panel = preview_panel(&mut app, 10, 8);
    match panel.body {
        PreviewBody::Content { scroll, position } => {
            assert_eq!(scroll, 0);
            assert!(position.is_none());
        }
        other => panic!("unexpected {other:?}"),
    }
}

#[test]
fn notes_panel_without_footer_room_takes_any_selection() {
    let mut app = App::new(PathBuf::from("/n"), 32, vec![note("a", "")]);
    app.selected = usize::MAX;
    let panel = notes_panel(&mut app, 5, 7).unwrap();
    assert!(panel.footer.is_none());
    assert_eq!(panel.row_styles[0], Style::new());
    assert_eq!(app.list_state.selected, Some(usize::MAX));
}
