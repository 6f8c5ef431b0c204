//! Markdown-event to LaTeX renderer: a verified transducer from a stream of
//! structural events to escaped LaTeX fragments.

pub mod escape;
pub mod event;
pub mod render;
pub mod laws;
