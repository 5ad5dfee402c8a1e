//! A terminal notes viewer: the verified core.
//!
//! The modules hold the logic of the viewer: the style model, the markdown
//! renderer, the colour theme, the note list and the application state.

pub mod app;
pub mod markdown;
pub mod notes;
pub mod strings;
pub mod style;
pub mod theme;
pub mod ui;
