//! Build shell prompt configuration lines from user-supplied fragments.
//!
//! The library assembles a prompt string out of (color, name) fragments,
//! validates it against ASCII control characters, and renders the single
//! configuration line that belongs in a shell's startup file.

pub mod config;
pub mod prompt;
pub mod shell;
