//! Helpers shared by the components.

pub mod event_emitters;
pub mod text;
