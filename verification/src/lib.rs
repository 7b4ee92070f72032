//! A viewer for large text files that filters them by regular expressions.
//!
//! The top pane shows the whole file and the bottom pane the lines that match. Lines can carry
//! notes, which are shown above them and searched along with the file. This crate is the viewer
//! without its window: [`app::FilterApp`] holds the state, and every operation on it is described
//! by a function on [`state::AppState`], the state as a value. What the operations promise
//! together is proved in [`laws`] and next to the parts that the promises are about.

pub mod app;
pub mod display;
pub mod encoding;
pub mod history;
pub mod laws;
pub mod line_index;
pub mod lines;
pub mod pattern;
pub mod reader;
pub mod selection;
pub mod state;
pub mod text;
