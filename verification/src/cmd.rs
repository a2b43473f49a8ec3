//! The command handlers: each takes one invocation's input, the store and
//! the configuration, and produces a message, a paper list or nothing.

pub mod current;
pub mod ls;
pub mod man;
pub mod mark;
pub mod progress;
pub mod unmark;
pub mod sort;
pub mod vimwiki;
