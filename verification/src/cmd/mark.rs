//! Marks the selected papers as finished.

use vstd::prelude::*;
use crate::cmd::progress::{mark_message, set_progress_view, spec_resolve, SelStep};
use crate::error::Fallacy;
use crate::paper::PaperStatus;
use crate::state::{piped_of, CommandInput, CommandOutput, Config, State};

verus! {

/// Marks every selected paper (piped in, or matching the filter arguments)
/// as read. With more than one paper selected, `approve` is the user's
/// answer to the confirmation prompt: declining changes nothing; a single
/// paper is marked without asking.
pub fn execute(input: CommandInput, state: &mut State, config: &Config, approve: bool) -> (r:
    Result<CommandOutput, Fallacy>)
    requires
        match input.papers {
            Some(l) => forall|k: int| 0 <= k < l@.len() ==> (l@[k] as int) < old(state)@.len(),
            None => true,
        },
    ensures
        final(state)@.len() == old(state)@.len(),
        match r {
            Ok(out) => (match spec_resolve(
                piped_of(&input),
                input.args.deep_view(),
                old(state)@,
            ) {
                SelStep::Sel(sel) => (sel.len() <= 1 || approve) && final(state)@
                    == set_progress_view(old(state)@, sel, PaperStatus::Read) && (
                out matches CommandOutput::Message(m) && m@ == mark_message(
                    sel.len(),
                    PaperStatus::Read,
                )),
                _ => false,
            }),
            Err(e) => final(state)@ == old(state)@ && match e {
                Fallacy::Cancelled => (match spec_resolve(
                    piped_of(&input),
                    input.args.deep_view(),
                    old(state)@,
                ) {
                    SelStep::Sel(sel) => sel.len() > 1 && !approve,
                    _ => false,
                }),
                Fallacy::MissingValue(s) => spec_resolve(
                    piped_of(&input),
                    input.args.deep_view(),
                    old(state)@,
                ) == SelStep::NoValue(s@),
                Fallacy::FilterBuildFailed(m) => (match spec_resolve(
                    piped_of(&input),
                    input.args.deep_view(),
                    old(state)@,
                ) {
                    SelStep::Bad(pat) => m@ == crate::rex::regex_diag_of(pat),
                    _ => false,
                }),
                _ => false,
            },
        },
{
    crate::cmd::progress::run(input, state, config, approve, PaperStatus::Read)
}

} // verus!
