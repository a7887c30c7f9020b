//! Declarative visual testing: documented actions, widget introspection,
//! failure diagnostics and user stories built from execution traces.

pub mod action;
pub mod context;
pub mod diagnostics;
pub mod edit_distance;
pub mod inspector;
pub mod story;
pub mod vision;

pub use action::CapturePoint;
pub use edit_distance::levenshtein;
