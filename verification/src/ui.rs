//! What the two panels of the screen show: the list of notes with its
//! position footer, and the preview of the selected note with its title
//! and scroll position.

use vstd::prelude::*;

use crate::app::{clamped_scroll, scrolled_to, selected_lines, App};
use crate::strings::{decimal, decimal_string, line_count_u16, push_char};
use crate::style::{plain, with_bg, with_fg, with_modifier, Color, Style, BOLD};

verus! {

/// The style of row `index` of the notes list: bold black on blue for the
/// selected note, plain for the others.
pub open spec fn row_style(index: int, selected: int) -> Style {
    if index == selected {
        with_modifier(with_fg(with_bg(plain(), Color::Blue), Color::Black), BOLD)
    } else {
        plain()
    }
}

/// The position footer of the notes list: the row it takes and its text.
#[derive(Debug)]
pub struct Footer {
    pub y: u16,
    pub text: String,
}

/// What the notes panel shows when there are notes: the style of each row
/// and, when the panel is tall enough, the position footer.
#[derive(Debug)]
pub struct NotesPanel {
    pub row_styles: Vec<Style>,
    pub footer: Option<Footer>,
}

/// The text of the position footer: the selected note's number and the
/// number of notes, as `n/m`.
pub open spec fn position_text(selected: int, count: int) -> Seq<char> {
    decimal((selected + 1) as nat) + seq!['/'] + decimal(count as nat)
}

/// The notes panel of a panel whose rows run from `area_top` to just before
/// `area_bottom`: when there are notes, it tells the list widget which row
/// is selected, styles the rows, and puts the footer two rows above the
/// bottom if that row is below the top; when there are none it shows the
/// directory instead (`None`).
pub fn notes_panel(app: &mut App, area_top: u16, area_bottom: u16) -> (r: Option<NotesPanel>)
    requires
        old(app).notes@.len() > 0 && area_bottom >= 2 && area_bottom - 2 > area_top
            ==> old(app).selected < usize::MAX,
    ensures
        old(app).notes@.len() == 0 ==> r is None && *final(app) == *old(app),
        old(app).notes@.len() > 0 ==> {
            &&& r is Some
            &&& final(app).list_state.selected == Some(old(app).selected)
            &&& final(app).list_state.offset == old(app).list_state.offset
            &&& final(app).notes@ == old(app).notes@
            &&& final(app).selected == old(app).selected
            &&& final(app).preview_scroll == old(app).preview_scroll
            &&& final(app).should_quit == old(app).should_quit
            &&& final(app).notes_dir == old(app).notes_dir
            &&& final(app).left_width == old(app).left_width
            &&& r->0.row_styles@.len() == old(app).notes@.len()
            &&& forall|i: int|
                0 <= i < old(app).notes@.len() ==> #[trigger] r->0.row_styles@[i] == row_style(
                    i,
                    old(app).selected as int,
                )
            &&& (r->0.footer is Some <==> (area_bottom >= 2 && area_bottom - 2 > area_top))
            &&& r->0.footer matches Some(f) ==> f.y == area_bottom - 2 && f.text@ == position_text(
                old(app).selected as int,
                old(app).notes@.len() as int,
            )
        },
{
    let count = app.notes.len();
    if count == 0 {
        return None;
    }
    let mut row_styles: Vec<Style> = Vec::new();
    let mut i: usize = 0;
    while i < count
        invariant
            0 <= i <= count,
            count == app.notes@.len(),
            row_styles@.len() == i,
            forall|j: int| 0 <= j < i ==> #[trigger] row_styles@[j] == row_style(j, app.selected as int),
        decreases count - i,
    {
        let style = if i == app.selected {
            Style::new().bg(Color::Blue).fg(Color::Black).add_modifier(BOLD)
        } else {
            Style::new()
        };
        row_styles.push(style);
        i = i + 1;
    }
    let selected = app.selected;
    app.list_state.select(Some(selected));
    let footer_y = area_bottom.saturating_sub(2);
    let footer = if footer_y > area_top {
        let mut text = decimal_string(selected + 1);
        push_char(&mut text, '/');
        text.append(decimal_string(count).as_str());
        Some(Footer { y: footer_y, text })
    } else {
        None
    };
    Some(NotesPanel { row_styles, footer })
}

/// What the preview panel shows under its title.
#[derive(Debug)]
pub enum PreviewBody {
    /// There are no notes: a hint to select or create one.
    NoNotes,
    /// The selection points at no note: nothing.
    NoSelection,
    /// The selected note is empty: a note that says so.
    EmptyFile,
    /// The selected note, scrolled by `scroll` lines, with the scroll
    /// position in its last row when it does not fit.
    Content { scroll: u16, position: Option<String> },
}

/// The preview panel: its title and what it shows.
#[derive(Debug)]
pub struct PreviewPanel {
    pub title: String,
    pub body: PreviewBody,
}

/// The title of the preview: the selected note's name between spaces, or
/// ` Preview ` when no note is selected.
pub open spec fn preview_title(a: App) -> Seq<char> {
    if a.selected < a.notes@.len() {
        seq![' '] + a.notes@[a.selected as int].name@ + seq![' ']
    } else {
        seq![' ', 'P', 'r', 'e', 'v', 'i', 'e', 'w', ' ']
    }
}

/// The scroll position of a preview scrolled by `scroll` lines that shows
/// `height` lines of `total`: `Line a-b of total`.
pub open spec fn scroll_position(scroll: int, height: int, total: int) -> Seq<char> {
    let end = if scroll + height < total { scroll + height } else { total };
    seq!['L', 'i', 'n', 'e', ' '] + decimal((scroll + 1) as nat) + seq!['-'] + decimal(end as nat)
        + seq![' ', 'o', 'f', ' '] + decimal(total as nat)
}

/// The preview panel of a panel `area_height` rows tall whose inside is
/// `inner_rows` rows tall: it first keeps the preview scroll within the
/// selected note, shown in the rows between the borders.
pub fn preview_panel(app: &mut App, area_height: u16, inner_rows: u16) -> (r: PreviewPanel)
    ensures
        ({
            let h = if area_height >= 2 { (area_height - 2) as u16 } else { 0 };
            &&& scrolled_to(*old(app), *final(app), clamped_scroll(*old(app), h))
            &&& r.title@ == preview_title(*old(app))
            &&& match r.body {
                PreviewBody::NoNotes => old(app).notes@.len() == 0,
                PreviewBody::NoSelection => old(app).notes@.len() > 0 && old(app).selected
                    >= old(app).notes@.len(),
                PreviewBody::EmptyFile => old(app).selected < old(app).notes@.len()
                    && old(app).notes@[old(app).selected as int].content@.len() == 0,
                PreviewBody::Content { scroll, position } => {
                    &&& old(app).selected < old(app).notes@.len()
                    &&& old(app).notes@[old(app).selected as int].content@.len() > 0
                    &&& scroll == final(app).preview_scroll
                    &&& (position is Some <==> (selected_lines(*old(app))->0 > h && inner_rows
                        > 0))
                    &&& position matches Some(p) ==> p@ == scroll_position(
                        scroll as int,
                        h as int,
                        selected_lines(*old(app))->0,
                    )
                },
            }
        }),
{
    let inner_height = area_height.saturating_sub(2);
    app.clamp_preview_scroll(inner_height);
    let title = match app.selected_note() {
        Some(note) => {
            let mut t = String::new();
            push_char(&mut t, ' ');
            t.append(note.name.as_str());
            push_char(&mut t, ' ');
            assert(t@ =~= seq![' '] + note.name@ + seq![' ']);
            t
        },
        None => {
            proof {
                reveal_strlit(" Preview ");
            }
            let t = String::from_str(" Preview ");
            assert(t@ =~= seq![' ', 'P', 'r', 'e', 'v', 'i', 'e', 'w', ' ']);
            t
        },
    };
    if app.notes.len() == 0 {
        return PreviewPanel { title, body: PreviewBody::NoNotes };
    }
    let note = match app.selected_note() {
        Some(note) => note,
        None => {
            return PreviewPanel { title, body: PreviewBody::NoSelection };
        },
    };
    if note.content.as_str().unicode_len() == 0 {
        return PreviewPanel { title, body: PreviewBody::EmptyFile };
    }
    let scroll = app.preview_scroll;
    let total = line_count_u16(note.content.as_str());
    let position = if total > inner_height && inner_rows > 0 {
        let bottom = scroll + inner_height;
        let end = if bottom < total {
            bottom
        } else {
            total
        };
        proof {
            reveal_strlit("Line ");
            reveal_strlit(" of ");
        }
        let mut text = String::from_str("Line ");
        text.append(decimal_string(scroll as usize + 1).as_str());
        push_char(&mut text, '-');
        text.append(decimal_string(end as usize).as_str());
        text.append(" of ");
        text.append(decimal_string(total as usize).as_str());
        assert(text@ =~= scroll_position(scroll as int, inner_height as int, total as int));
        Some(text)
    } else {
        None
    };
    PreviewPanel { title, body: PreviewBody::Content { scroll, position } }
}

/// Only the selected row of the notes list is highlighted.
pub proof fn lemma_only_selected_row_highlighted(index: int, selected: int)
    ensures
        index != selected ==> row_style(index, selected) == plain(),
        row_style(selected, selected) != plain(),
        row_style(selected, selected).has_modifier(BOLD),
{
    assert((0u16 | 1u16) & 1u16 == 1u16) by (bit_vector);
}

/// The scroll position names the first line shown and the last one: the
/// last is `scroll + height` or, if the note ends before, its last line.
pub proof fn lemma_scroll_position_range(scroll: int, height: int, total: int, last: int)
    requires
        0 <= scroll,
        0 <= height,
        scroll < total,
        last <= total,
        last <= scroll + height,
        last == total || last == scroll + height,
    ensures
        scroll_position(scroll, height, total) == seq!['L', 'i', 'n', 'e', ' '] + decimal(
            (scroll + 1) as nat,
        ) + seq!['-'] + decimal(last as nat) + seq![' ', 'o', 'f', ' '] + decimal(total as nat),
{
}

} // verus!
