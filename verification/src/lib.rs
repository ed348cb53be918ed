//! The core of a small command interpreter: it turns a line of text into
//! commands and decides, step by step, what the host process has to do to run them.

pub mod command_line;
pub mod error;
pub mod invocation;
pub mod lexer;
pub mod machine;
pub mod scan;
pub mod shell_command;
pub mod shell_state;
mod text;
