//! A small interactive command shell: tokenizer, alias table, bounded
//! history, and the dispatch rule that routes a command to a built-in or to
//! an external program. Terminal input, process spawning and directory
//! changes are performed by the caller from the actions this library decides.

pub mod tokenize;
pub mod history;
pub mod alias;
pub mod dispatch;
pub mod shell;
pub mod config;
