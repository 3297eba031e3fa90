//! Diagnostic text rendering: a colour policy for ANSI terminal styling and a
//! source-context renderer that underlines a span of a source line, accounting
//! for tab expansion and variable-width characters.

pub mod color;
pub mod misc;
pub mod text;

pub use color::Color;
pub use misc::{conjoin, maybe_s, show_whitespace, ticks, write_error_context};
pub use misc::{And, Or, Tick};
