//! The state of the viewer and what each key does to it.

use vstd::prelude::*;

use crate::notes::Note;
use crate::strings::{line_count_u16, str_lines};

verus! {

/// A key, as far as the viewer tells keys apart.
#[derive(Clone, Copy, Debug, PartialEq, Eq, Structural)]
pub enum KeyCode {
    Char(char),
    Esc,
    Up,
    Down,
    /// Any other key.
    Other,
}

/// A key press: the key and the modifier bits held with it (as
/// `crossterm::event::KeyModifiers` numbers them).
#[derive(Clone, Copy, Debug, PartialEq, Eq, Structural)]
pub struct KeyEvent {
    pub code: KeyCode,
    pub modifiers: u8,
}

/// Whether the modifier bits hold Shift: `KeyModifiers::contains` of
/// `crossterm` with `KeyModifiers::SHIFT`, whose bit is the lowest one. The
/// contract claims that the answer is whether that bit is set.
#[verifier::external_body]
fn has_shift(bits: u8) -> (r: bool)
    ensures
        r == (bits & 1u8 == 1u8),
{
    crossterm::event::KeyModifiers::from_bits_retain(bits).contains(
        crossterm::event::KeyModifiers::SHIFT,
    )
}

/// The selection of a list widget: the first row shown and the selected
/// row, as `ratatui`'s `ListState` keeps them.
#[derive(Clone, Copy, Debug, PartialEq, Eq, Structural)]
pub struct ListState {
    pub offset: usize,
    pub selected: Option<usize>,
}

impl ListState {
    /// No row selected, the list shown from its start.
    pub fn new() -> (r: ListState)
        ensures
            r == (ListState { offset: 0, selected: None }),
    {
        ListState { offset: 0, selected: None }
    }

    /// Selects a row, or none; selecting none also shows the list from its
    /// start.
    pub fn select(&mut self, index: Option<usize>)
        ensures
            final(self).selected == index,
            final(self).offset == (if index is None { 0 } else { old(self).offset }),
    {
        self.selected = index;
        if index.is_none() {
            self.offset = 0;
        }
    }
}

/// The viewer: the notes, which one is selected, and how far its preview is
/// scrolled.
pub struct App {
    pub notes_dir: std::path::PathBuf,
    pub left_width: u16,
    pub notes: Vec<Note>,
    pub selected: usize,
    pub list_state: ListState,
    pub preview_scroll: u16,
    pub should_quit: bool,
}

/// What a key asks for.
#[derive(Clone, Copy, Debug, PartialEq, Eq, Structural)]
pub enum KeyAction {
    Quit,
    Next,
    Prev,
    First,
    Last,
    ScrollDown,
    ScrollUp,
    Nothing,
}

/// What a key asks for: `q` or Esc quits; `j` or Down and `k` or Up move
/// the selection; `g` goes to the first note and `G` (or `g` with Shift) to
/// the last; `]` and `[` scroll the preview.
pub open spec fn key_action(key: KeyEvent) -> KeyAction {
    match key.code {
        KeyCode::Esc => KeyAction::Quit,
        KeyCode::Down => KeyAction::Next,
        KeyCode::Up => KeyAction::Prev,
        KeyCode::Char(c) => if c == 'q' {
            KeyAction::Quit
        } else if c == 'j' {
            KeyAction::Next
        } else if c == 'k' {
            KeyAction::Prev
        } else if c == 'g' && key.modifiers & 1u8 == 1u8 {
            KeyAction::Last
        } else if c == 'g' {
            KeyAction::First
        } else if c == 'G' {
            KeyAction::Last
        } else if c == ']' {
            KeyAction::ScrollDown
        } else if c == '[' {
            KeyAction::ScrollUp
        } else {
            KeyAction::Nothing
        },
        KeyCode::Other => KeyAction::Nothing,
    }
}

/// The selection is on a note, or at 0 when there is none.
pub open spec fn selection_valid(a: App) -> bool {
    if a.notes@.len() == 0 {
        a.selected == 0
    } else {
        a.selected < a.notes@.len()
    }
}

/// `b` has the notes, directory and panel width of `a`.
pub open spec fn same_notes(a: App, b: App) -> bool {
    &&& b.notes_dir == a.notes_dir
    &&& b.left_width == a.left_width
    &&& b.notes@ == a.notes@
}

/// `b` is `a` with the selection moved to `index`, the list widget told so,
/// and the preview scrolled back to its top.
pub open spec fn moved_to(a: App, b: App, index: usize) -> bool {
    &&& same_notes(a, b)
    &&& b.selected == index
    &&& b.list_state == (ListState { offset: a.list_state.offset, selected: Some(index) })
    &&& b.preview_scroll == 0
    &&& b.should_quit == a.should_quit
}

/// `b` is `a` with the preview scrolled to `scroll`.
pub open spec fn scrolled_to(a: App, b: App, scroll: u16) -> bool {
    &&& same_notes(a, b)
    &&& b.selected == a.selected
    &&& b.list_state == a.list_state
    &&& b.preview_scroll == scroll
    &&& b.should_quit == a.should_quit
}

/// `b` is `a` unchanged.
pub open spec fn unchanged(a: App, b: App) -> bool {
    scrolled_to(a, b, a.preview_scroll)
}

/// The state after the key `key`.
pub open spec fn after_key(a: App, key: KeyEvent, b: App) -> bool {
    let n = a.notes@.len();
    match key_action(key) {
        KeyAction::Quit => b.should_quit && same_notes(a, b) && b.selected == a.selected
            && b.list_state == a.list_state && b.preview_scroll == a.preview_scroll,
        KeyAction::Next => if a.selected + 1 < n {
            moved_to(a, b, (a.selected + 1) as usize)
        } else {
            unchanged(a, b)
        },
        KeyAction::Prev => if a.selected > 0 {
            moved_to(a, b, (a.selected - 1) as usize)
        } else {
            unchanged(a, b)
        },
        KeyAction::First => if n > 0 {
            moved_to(a, b, 0)
        } else {
            unchanged(a, b)
        },
        KeyAction::Last => if n > 0 {
            moved_to(a, b, (n - 1) as usize)
        } else {
            unchanged(a, b)
        },
        KeyAction::ScrollDown => scrolled_to(
            a,
            b,
            if a.preview_scroll < 0xffff {
                (a.preview_scroll + 1) as u16
            } else {
                0xffff
            },
        ),
        KeyAction::ScrollUp => scrolled_to(
            a,
            b,
            if a.preview_scroll > 0 {
                (a.preview_scroll - 1) as u16
            } else {
                0
            },
        ),
        KeyAction::Nothing => unchanged(a, b),
    }
}

/// The number of lines of the selected note, cut to 16 bits, if a note is
/// selected.
pub open spec fn selected_lines(a: App) -> Option<int> {
    if a.selected < a.notes@.len() {
        Some((str_lines(a.notes@[a.selected as int].content@).len() % 0x10000) as int)
    } else {
        None
    }
}

/// The preview scroll once kept within the selected note: 0 when no note is
/// selected or the note fits in `visible` lines; else at most the number of
/// lines that do not fit.
pub open spec fn clamped_scroll(a: App, visible: u16) -> u16 {
    match selected_lines(a) {
        None => 0,
        Some(total) => if total <= visible {
            0
        } else if a.preview_scroll <= total - visible {
            a.preview_scroll
        } else {
            (total - visible) as u16
        },
    }
}

/// The width of the notes panel on a terminal `term_width` columns wide: the
/// configured width but at least 20, and on terminals wider than 40 columns
/// at most the width less 20.
pub open spec fn left_width_for(configured: u16, term_width: u16) -> int {
    let width = if configured >= 20 { configured as int } else { 20 };
    if term_width > 40 && term_width - 20 < width {
        term_width - 20
    } else {
        width
    }
}

impl App {
    /// A viewer of the notes `notes` of the directory `notes_dir`, with a
    /// notes panel `left_width` columns wide: the first note selected, the
    /// preview at its top.
    pub fn new(notes_dir: std::path::PathBuf, left_width: u16, notes: Vec<Note>) -> (r: App)
        ensures
            r.notes_dir == notes_dir,
            r.left_width == left_width,
            r.notes@ == notes@,
            r.selected == 0,
            r.list_state == (ListState { offset: 0, selected: None }),
            r.preview_scroll == 0,
            !r.should_quit,
            selection_valid(r),
    {
        App {
            notes_dir,
            left_width,
            notes,
            selected: 0,
            list_state: ListState::new(),
            preview_scroll: 0,
            should_quit: false,
        }
    }

    /// Takes the notes read anew from the directory: keeps the selection
    /// where it still points at a note, else moves it to the last note (or
    /// to 0 when there is none), and scrolls the preview to its top.
    pub fn reload_notes(&mut self, notes: Vec<Note>)
        ensures
            final(self).notes@ == notes@,
            final(self).notes_dir == old(self).notes_dir,
            final(self).left_width == old(self).left_width,
            final(self).selected == (if notes@.len() == 0 {
                0
            } else if old(self).selected >= notes@.len() {
                (notes@.len() - 1) as usize
            } else {
                old(self).selected
            }),
            final(self).list_state == old(self).list_state,
            final(self).preview_scroll == 0,
            final(self).should_quit == old(self).should_quit,
            selection_valid(*final(self)),
    {
        self.notes = notes;
        if self.notes.len() == 0 {
            self.selected = 0;
        } else if self.selected >= self.notes.len() {
            self.selected = self.notes.len() - 1;
        }
        self.preview_scroll = 0;
    }

    /// The width of the notes panel on a terminal `term_width` columns wide.
    pub fn effective_left_width(&self, term_width: u16) -> (r: u16)
        ensures
            r as int == left_width_for(self.left_width, term_width),
            r >= 20,
            term_width > 40 ==> r <= term_width - 20,
    {
        let mut width = if self.left_width >= 20 { self.left_width } else { 20 };
        if term_width > 40 {
            let cap = term_width - 20;
            if cap < width {
                width = cap;
            }
        }
        width
    }

    /// The selected note, if the selection points at one.
    pub fn selected_note(&self) -> (r: Option<&Note>)
        ensures
            r is Some <==> self.selected < self.notes@.len(),
            r matches Some(n) ==> *n == self.notes@[self.selected as int],
    {
        if self.selected < self.notes.len() {
            Some(&self.notes[self.selected])
        } else {
            None
        }
    }

    /// Acts on a key press.
    pub fn handle_key(&mut self, key: KeyEvent)
        requires
            key_action(key) == KeyAction::Next ==> old(self).selected < usize::MAX,
        ensures
            after_key(*old(self), key, *final(self)),
    {
        match key.code {
            KeyCode::Char('q') | KeyCode::Esc => self.should_quit = true,
            KeyCode::Char('j') | KeyCode::Down => self.select_next(),
            KeyCode::Char('k') | KeyCode::Up => self.select_prev(),
            KeyCode::Char('g') if has_shift(key.modifiers) => self.select_last(),
            KeyCode::Char('g') => self.select_first(),
            KeyCode::Char('G') => self.select_last(),
            KeyCode::Char(']') => self.scroll_preview_down(),
            KeyCode::Char('[') => self.scroll_preview_up(),
            _ => {},
        }
    }

    fn select_next(&mut self)
        requires
            old(self).selected < usize::MAX,
        ensures
            if old(self).selected + 1 < old(self).notes@.len() {
                moved_to(*old(self), *final(self), (old(self).selected + 1) as usize)
            } else {
                unchanged(*old(self), *final(self))
            },
    {
        if self.selected + 1 < self.notes.len() {
            self.selected = self.selected + 1;
            self.list_state.select(Some(self.selected));
            self.preview_scroll = 0;
        }
    }

    fn select_prev(&mut self)
        ensures
            if old(self).selected > 0 {
                moved_to(*old(self), *final(self), (old(self).selected - 1) as usize)
            } else {
                unchanged(*old(self), *final(self))
            },
    {
        if self.selected > 0 {
            self.selected = self.selected - 1;
            self.list_state.select(Some(self.selected));
            self.preview_scroll = 0;
        }
    }

    fn select_first(&mut self)
        ensures
            if old(self).notes@.len() > 0 {
                moved_to(*old(self), *final(self), 0)
            } else {
                unchanged(*old(self), *final(self))
            },
    {
        if self.notes.len() > 0 {
            self.selected = 0;
            self.list_state.select(Some(0));
            self.preview_scroll = 0;
        }
    }

    fn select_last(&mut self)
        ensures
            if old(self).notes@.len() > 0 {
                moved_to(*old(self), *final(self), (old(self).notes@.len() - 1) as usize)
            } else {
                unchanged(*old(self), *final(self))
            },
    {
        if self.notes.len() > 0 {
            self.selected = self.notes.len() - 1;
            self.list_state.select(Some(self.selected));
            self.preview_scroll = 0;
        }
    }

    fn scroll_preview_up(&mut self)
        ensures
            scrolled_to(
                *old(self),
                *final(self),
                if old(self).preview_scroll > 0 {
                    (old(self).preview_scroll - 1) as u16
                } else {
                    0
                },
            ),
    {
        self.preview_scroll = self.preview_scroll.saturating_sub(1);
    }

    fn scroll_preview_down(&mut self)
        ensures
            scrolled_to(
                *old(self),
                *final(self),
                if old(self).preview_scroll < 0xffff {
                    (old(self).preview_scroll + 1) as u16
                } else {
                    0xffff
                },
            ),
    {
        self.preview_scroll = self.preview_scroll.saturating_add(1);
    }

    /// Keeps the preview scroll within the selected note, shown in
    /// `visible_lines` lines.
    pub fn clamp_preview_scroll(&mut self, visible_lines: u16)
        ensures
            scrolled_to(*old(self), *final(self), clamped_scroll(*old(self), visible_lines)),
    {
        let total = match self.selected_note() {
            Some(note) => line_count_u16(note.content.as_str()),
            None => {
                self.preview_scroll = 0;
                return;
            },
        };
        if total <= visible_lines {
            self.preview_scroll = 0;
        } else {
            let max = total - visible_lines;
            if max < self.preview_scroll {
                self.preview_scroll = max;
            }
        }
    }
}

/// Every key keeps the selection on a note (or at 0 when there is none).
pub proof fn lemma_key_keeps_selection_valid(a: App, key: KeyEvent, b: App)
    requires
        selection_valid(a),
        after_key(a, key, b),
    ensures
        selection_valid(b),
{
}

/// Moving down and then up comes back to the note that was selected, with
/// the preview at its top.
pub proof fn lemma_next_then_prev(a: App, down: KeyEvent, b: App, up: KeyEvent, c: App)
    requires
        key_action(down) == KeyAction::Next,
        key_action(up) == KeyAction::Prev,
        a.selected + 1 < a.notes@.len(),
        after_key(a, down, b),
        after_key(b, up, c),
    ensures
        moved_to(a, c, a.selected),
{
    assert(a.notes.len() == a.notes@.len());
}

/// Scrolling down and then up leaves the viewer as it was, unless the
/// preview was scrolled as far as a `u16` goes.
pub proof fn lemma_scroll_down_then_up(a: App, down: KeyEvent, b: App, up: KeyEvent, c: App)
    requires
        key_action(down) == KeyAction::ScrollDown,
        key_action(up) == KeyAction::ScrollUp,
        a.preview_scroll < 0xffff,
        after_key(a, down, b),
        after_key(b, up, c),
    ensures
        unchanged(a, c),
{
}

/// Once clamped, the preview shows no line past the end of the note, and
/// clamping again changes nothing.
pub proof fn lemma_clamp_settles(a: App, visible: u16, b: App)
    requires
        scrolled_to(a, b, clamped_scroll(a, visible)),
    ensures
        selected_lines(a) is Some && selected_lines(a)->0 > visible ==> b.preview_scroll + visible
            <= selected_lines(a)->0,
        clamped_scroll(b, visible) == b.preview_scroll,
{
}

/// Every key that moves the selection shows the new note from its top and
/// tells the list widget the new row.
pub proof fn lemma_moving_resets_scroll(a: App, key: KeyEvent, b: App)
    requires
        after_key(a, key, b),
        b.selected != a.selected,
    ensures
        b.preview_scroll == 0,
        b.list_state.selected == Some(b.selected),
{
}

/// A key moves the selection by at most one note, or to the first or last
/// note, and never changes the notes.
pub proof fn lemma_moves_are_steps_or_ends(a: App, key: KeyEvent, b: App)
    requires
        after_key(a, key, b),
    ensures
        b.selected == a.selected || b.selected == a.selected + 1 || b.selected == a.selected - 1
            || b.selected == 0 || b.selected == a.notes@.len() - 1,
        b.notes@ == a.notes@,
{
    assert(a.notes.len() == a.notes@.len());
}

/// Clamping never scrolls the preview further down, leaves a scroll that is
/// already within the note as it is, and otherwise stops at the last page.
pub proof fn lemma_clamp_is_minimum(a: App, visible: u16)
    ensures
        clamped_scroll(a, visible) <= a.preview_scroll,
        selected_lines(a) is Some && selected_lines(a)->0 > visible && a.preview_scroll
            <= selected_lines(a)->0 - visible ==> clamped_scroll(a, visible) == a.preview_scroll,
        selected_lines(a) is Some && selected_lines(a)->0 > visible && a.preview_scroll
            > selected_lines(a)->0 - visible ==> clamped_scroll(a, visible) == selected_lines(a)->0
            - visible,
{
}

/// The first and last keys go to the ends of a list that has notes, and
/// quitting changes nothing but the quit flag.
pub proof fn lemma_ends_and_quit(a: App, key: KeyEvent, b: App)
    requires
        after_key(a, key, b),
    ensures
        key_action(key) == KeyAction::First && a.notes@.len() > 0 ==> b.selected == 0,
        key_action(key) == KeyAction::Last && a.notes@.len() > 0 ==> b.selected + 1
            == a.notes@.len(),
        key_action(key) == KeyAction::Quit ==> b.should_quit && b.selected == a.selected
            && b.preview_scroll == a.preview_scroll && b.list_state == a.list_state,
        key_action(key) != KeyAction::Quit ==> b.should_quit == a.should_quit,
{
    assert(a.notes.len() == a.notes@.len());
}

/// The notes panel takes the configured width whenever that width is at
/// least 20 and leaves at least 20 columns on a terminal wider than 40; it
/// never gets narrower than 20 columns, and on such terminals never leaves
/// fewer than 20.
pub proof fn lemma_left_width_keeps_configured(configured: u16, term_width: u16)
    ensures
        configured >= 20 && (term_width <= 40 || configured + 20 <= term_width) ==> left_width_for(
            configured,
            term_width,
        ) == configured,
        left_width_for(configured, term_width) >= 20,
        term_width > 40 ==> left_width_for(configured, term_width) + 20 <= term_width,
        configured < 20 && term_width > 40 ==> left_width_for(configured, term_width) == 20,
{
}

} // verus!
