//! Verified core of a small embedded UI toolkit.
//!
//! The crate has two halves. The text half flows a format template with
//! `{name}` placeholders into a fixed pixel region: a tokenizer splits the
//! template, an argument map resolves placeholders, a line-breaking engine
//! finds the longest fitting span, and a layout driver walks the resulting
//! operation stream, reporting drawable events to a sink. The component half
//! is a tree of widgets (buttons, text blocks, composite dialogs) that handle
//! pointer and timer events through small state machines and paint themselves
//! as a list of draw calls.
//!
//! Drawing is modelled explicitly: a paint pass appends `DrawCall` values to a
//! frame instead of touching a device, and glyph metrics come from a
//! fixed-width font model, so every pixel position the layout engine computes
//! is specified exactly.

pub mod button;
pub mod component;
pub mod confirm;
pub mod dialog;
pub mod display;
pub mod error;
pub mod geometry;
pub mod layout;
pub mod text;
pub mod theme;
pub mod trace;
