//! Crash-safe in-place text replacement over single files.
//!
//! The library decides, for one file at a time, whether a text
//! transformation changes the file's content and, if it does, either
//! renders a unified diff of the change or drives a four-step
//! rename/write/chmod/remove commit protocol that never leaves the
//! file's content unrecoverable.

pub mod displace;
pub mod engine;
pub mod fs_model;
pub mod text;
pub mod udiff;
