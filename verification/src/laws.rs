//! What holds of the library, whatever it is given.
//!
//! Each law is a proof function: its parameters are what the law speaks of, and
//! its `ensures` says what comes of it, in plain terms. They are about the spec
//! functions with which the executable functions' contracts equate their results.

pub mod config;
pub mod elf;
pub mod guard;
pub mod handover;
pub mod i18n;
pub mod platform;
pub mod prompt;
pub mod qemu;
pub mod text;
