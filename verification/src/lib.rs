//! Flow: a developer's projects and todos, kept in two plain text stores
//! and changed through small wizards in the terminal.
//!
//! The library holds what the wizards decide and what the stores mean. It
//! draws nothing, reads no key and touches no file: a wizard says what is
//! on the screen and what work it asks for, and its caller does the rest.

pub mod custom_widgets;
pub mod style;
pub mod text;
pub mod tidy;
pub mod todo;
pub mod widgets;
pub mod wizard;
