//! The session state a command works on, the configuration it reads, and the
//! input and output threaded between pipeline stages.

use vstd::prelude::*;
use crate::paper::{Paper, PaperList, PaperView};

verus! {

/// The in-session paper store: an ordered sequence addressed by stable index.
pub struct State {
    pub papers: Vec<Paper>,
}

impl View for State {
    type V = Seq<PaperView>;

    open spec fn view(&self) -> Seq<PaperView> {
        self.papers.deep_view()
    }
}

/// What the commands read from the configuration: where wikis live, how the
/// editor is launched, and whether one editor instance opens all wikis.
pub struct Config {
    pub wiki_dir: String,
    pub note_dir: String,
    pub editor_command: Vec<String>,
    pub editor_batch: bool,
}

/// One command's parsed argument tokens (the command name first) plus the
/// paper list inherited from the previous pipeline stage, if any.
pub struct CommandInput {
    pub args: Vec<String>,
    pub papers: Option<PaperList>,
}

/// What one command execution produces: nothing, a message for the user, or
/// a paper list the next stage can consume.
pub enum CommandOutput {
    Empty,
    Message(String),
    Papers(PaperList),
}

/// The piped selection a command starts from, as a sequence of indices.
pub open spec fn piped_of(input: &CommandInput) -> Option<Seq<usize>> {
    match input.papers {
        Some(l) => Some(l@),
        None => None,
    }
}

} // verus!
