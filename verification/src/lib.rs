//! An incremental fuzzy picker: a match engine that ranks candidates against a
//! search term, a selection controller that reacts to key events, and a layout
//! function that says what a terminal front end has to paint; beside it the
//! plain data of the snippet tool that the picker serves.

pub mod engine;
pub mod term_select;
pub mod controller;
pub mod render;
pub mod input;
pub mod session;
pub mod driver;
pub mod project;
pub mod x;

pub use controller::{Key, Phase, Picker, Repaint};
pub use engine::MatchResult;
pub use project::{Project, ProjectOperation, SnippetLocation};
pub use render::{Paint, TerminalGeometry};
pub use term_select::FuzzyMatcher;
pub use x::OpCode;
