//! Verified core of an mdbook preprocessor that replaces embedded
//! `<!-- cmdrun ... -->` directives with the output of shell commands.
//!
//! The library contains the pure logic: locating directives in a document,
//! parsing a directive payload into a command specification, deciding what
//! text replaces the directive once the command has run, and normalizing
//! the captured output. Spawning the shell itself is I/O and is left to the
//! surrounding binary, which drives the rewrite passes exposed here.

pub mod chars;
pub mod cmdrun;
pub mod directive;
pub mod format;
pub mod messages;
pub mod numbers;
pub mod rewrite;
pub mod scan;
pub mod text;
pub mod tokens;

pub use cmdrun::CmdRun;
