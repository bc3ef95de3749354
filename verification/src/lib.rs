//! The core of a small interactive command shell.
//!
//! The shell reads a line, splits it into words with regard to quotes, takes
//! the first word as the command and the others as its arguments, and then
//! either handles the command itself (`exit`, `cd`) or has it run as a
//! program. This library decides; reading lines, running programs and
//! writing to the operator is left to the caller.
//!
//! - `selector`: the quote scanner, one character at a time.
//! - `tokenizer`: a line cut into pieces and words by that scanner.
//! - `number`: exit codes read from and written as decimal text.
//! - `session`: the session, and what a line asks the shell to do.
//! - `report`: what the operator gets to see of the result.
//! - `error`: what can go wrong on the way.
//! - `text`: the text operations of the standard library that are relied on.

pub mod error;
pub mod number;
pub mod report;
pub mod selector;
pub mod session;
pub mod text;
pub mod tokenizer;
