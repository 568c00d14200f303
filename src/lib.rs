//! Runtime core of a small interactive-application framework: a typed event
//! model, a kind-indexed event dispatcher, an ordered stack of layers and
//! overlays, and the per-frame decisions of the application loop.
pub mod application;
pub mod dispatcher;
pub mod events;
pub mod layers;
pub mod ui_input;
pub mod window;
