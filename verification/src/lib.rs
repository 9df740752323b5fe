//! Drives one interactive shell through a pseudo-terminal session: a command
//! goes in, normalised and token-bounded text comes out together with the
//! command's exit status, or with a note that the command is still running.
//!
//! The crate holds the decisions of that controller: the command state
//! machine, the screen buffer that normalises raw terminal output, and the
//! truncation of long output. Spawning the shell and moving bytes through
//! the pseudo-terminal is left to the caller, who hands every outcome back
//! as a plain value.

pub mod tools;
