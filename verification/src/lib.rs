//! A mode-aware keybinding panel for a terminal workspace: it turns the
//! host's keybinding table into grouped, labelled sections, keeps a cursor
//! and a scroll window over the rendered lines, and answers key and mouse
//! events with the next state and the host requests to make.

pub mod host;
pub mod keymap;
pub mod labels;
pub mod laws;
pub mod layout;
pub mod model;
pub mod panel;
pub mod purpose;
pub mod screen;
pub mod text;
