//! A level engine for an interactive tutorial.
//!
//! A level is parsed from a definition that holds a metadata script and the
//! instructions for the user. A session writes the instructions out, watches
//! the file that the user edits, and holds each new content of it against the
//! level's completion rule, line by line.
//!
//! The library decides; it reads no file and waits for nothing. Its driver
//! lists and reads the definitions, performs the directives of a session and
//! reports what happened.

pub mod level;
pub mod pattern;
pub mod repository;
pub mod script;
pub mod session;
pub mod text;
