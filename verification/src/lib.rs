//! The process-execution core of an interactive shell: one tokenized line
//! is split into pipeline stages at pipe characters, the stages are
//! spawned, wired together and waited on through a verified step machine,
//! a trailing redirection diverts the final stage's captured output to a
//! file, and a bounded controller decides who owns the terminal.

pub mod executor;
pub mod parser;
pub mod pipeline;
pub mod redirect;
pub mod scan;
pub mod terminal;
