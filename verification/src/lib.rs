//! An interactive bibliography manager: papers are records with title,
//! authors, venue, year, labels and reading progress; commands query and
//! update them through a keyword-tagged argument grammar, and one command's
//! selection can be piped into the next.

pub mod cmd;
pub mod error;
pub mod filter;
pub mod paper;
pub mod pipeline;
pub mod rex;
pub mod state;
pub mod strutil;
pub mod tokenize;
