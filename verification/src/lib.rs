//! Discovery, decoding and sampling of the global variables of a running
//! microcontroller.
//!
//! The crate is the deciding part of a memory monitor. It says what to ask
//! a debugger and what the answers mean, how the debug information of an
//! image unfolds into a catalog of scalar variables, which bytes stand for
//! which value of which C type, what a poll cycle does in which order, and
//! how far a scan or a download has come. It performs no input or output:
//! whoever owns a probe, a debugger process or a log store carries out what
//! the crate decides and reports back what happened.

pub mod elf_parser;
pub mod error;
pub mod gdb_parser;
pub mod memory_interface;
pub mod number;
pub mod pattern;
pub mod probe_interface;
pub mod progress;
pub mod scanner;
pub mod text;
pub mod variable;
