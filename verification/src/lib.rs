//! Core of a small interactive command interpreter: the tokenizer that turns
//! an input line into a command, the variable store, the built-in commands
//! and the dispatcher that decides what a command does.

pub mod command;
pub mod number;
pub mod prompt;
pub mod scan_lemmas;
pub mod shell;
pub mod table;
pub mod text;
pub mod variables;
