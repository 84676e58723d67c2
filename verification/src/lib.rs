//! Layout and label bookkeeping for a grid of capsule bodies with optional text labels.
//!
//! The library decides and leaves the drawing to its caller. It knows entities by their
//! 64-bit ids, counts lengths in whole world units, and answers with plain values:
//!
//! - `settings` holds the dimensions of the grid and the positions that follow from them;
//! - `grid` lists the bodies of the grid, each with its position and hue;
//! - `mode` holds the display mode and the cycle in which a trigger moves it;
//! - `label` describes the text labels;
//! - `reconcile` says which labels go and which are created when the mode has changed;
//! - `scene` is a model of the scene, with the lemmas on what a round of
//!   reconciliation makes of it.

pub mod grid;
pub mod label;
pub mod mode;
pub mod reconcile;
pub mod scene;
pub mod settings;

pub use label::TextBuilder;
pub use mode::{change_text_display_mode, TextDisplayMode, TextMode};
pub use reconcile::{despawn_text, spawn_text};
pub use settings::CommonCalc;
