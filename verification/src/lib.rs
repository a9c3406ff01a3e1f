//! Explains why a program cannot run on this machine, and finds what could run it.
//!
//! The kernel calls this program in place of one that it cannot start. The
//! program's header is read ([`elf`]) and an emulator looked for ([`qemu`]);
//! settings ([`config`]), surroundings ([`platform`]) and, if need be, the user
//! ([`prompt`]) decide whether the emulator gets the program or the user an
//! explanation ([`guard`], [`i18n`]). It can also step aside for good, and come
//! back ([`handover`]).
//!
//! Nothing here touches the system: what was read comes in as plain values, and
//! what is to be done goes out as such. What holds of all of it together is
//! stated and proved in [`laws`], and beside the functions that it is about.

pub mod config;
pub mod elf;
pub mod guard;
pub mod handover;
pub mod i18n;
pub mod laws;
pub mod order;
pub mod paths;
pub mod platform;
pub mod prompt;
pub mod qemu;
pub mod text;
