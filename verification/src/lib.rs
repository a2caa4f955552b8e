//! An interactive terminal prompting engine.
//!
//! The engine drives one on-screen question at a time over a raw-mode
//! terminal session: it renders a styled frame, reads one normalized key
//! event, updates the prompt's state machine, and repeats until the user
//! submits a validated answer or cancels.  The terminal session is released
//! exactly once on every exit path.

pub mod action;
pub mod answer;
pub mod backend;
pub mod confirm;
pub mod custom_type;
pub mod dateselect;
pub mod editor;
pub mod error;
pub mod key;
pub mod multiselect;
pub mod prompt;
pub mod select;
pub mod style;
pub mod text;
pub mod textutil;
pub mod validator;

pub use backend::fake_backend;
