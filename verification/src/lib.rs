//! A terminal viewer for an externally computed cellular-automaton grid:
//! shared view state, a background stepping policy, a sub-cell quantizing
//! renderer, and one-line status presenters.
pub mod decimal;
pub mod glyph;
pub mod quantize;
pub mod render;
pub mod state;
pub mod stepper;
pub mod views;
