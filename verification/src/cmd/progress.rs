//! The shared engine of the progress-setting commands (`mark`, `unmark`,
//! `current`): resolve the selection from the pipe or the filter fallback,
//! pass the confirmation gate when more than one paper is affected, and set
//! every selected paper's reading status.

use vstd::prelude::*;
use vstd::string::StringExecFns;
use crate::cmd::ls;
use crate::cmd::ls::{all_indices, select_rec, tail_of};
use crate::error::Fallacy;
use crate::filter::{spec_filter_from_args, FilterStep};
use crate::paper::{PaperList, PaperStatus, PaperView};
use crate::state::{piped_of, CommandInput, CommandOutput, Config, State};
use crate::strutil::{spec_digits, usize_to_string};

verus! {

/// The word the completion message uses for each target status.
pub open spec fn verb_of(st: PaperStatus) -> Seq<char> {
    match st {
        PaperStatus::Read => "finished"@,
        PaperStatus::Unread => "unread"@,
        PaperStatus::InProgress => "currently reading"@,
    }
}

/// The message a progress command reports: the count, the right plural, and
/// the status the papers were set to.
pub open spec fn mark_message(n: nat, st: PaperStatus) -> Seq<char> {
    "Marked "@ + spec_digits(n) + " "@ + (if n != 1 {
        "papers"@
    } else {
        "paper"@
    }) + " as "@ + verb_of(st) + ".\n"@
}

/// Whether index `j` is selected.
pub open spec fn sel_contains(sel: Seq<usize>, j: int) -> bool {
    exists|k: int| 0 <= k < sel.len() && sel[k] == j
}

/// The store with every selected paper's progress replaced by `st` and all
/// other papers untouched.
pub open spec fn set_progress_view(papers: Seq<PaperView>, sel: Seq<usize>, st: PaperStatus) -> Seq<
    PaperView,
> {
    Seq::new(
        papers.len(),
        |j: int|
            if sel_contains(sel, j) {
                PaperView { progress: st, ..papers[j] }
            } else {
                papers[j]
            },
    )
}

/// What a selecting command resolves its input to: the piped list as it is,
/// or the listing fallback over the whole store.
pub enum SelStep {
    Sel(Seq<usize>),
    NoValue(Seq<char>),
    Bad(Seq<char>),
}

/// The resolved selection of a command invocation.
pub open spec fn spec_resolve(
    piped: Option<Seq<usize>>,
    args: Seq<Seq<char>>,
    papers: Seq<PaperView>,
) -> SelStep {
    match piped {
        Some(l) => SelStep::Sel(l),
        None => match spec_filter_from_args(tail_of(args)) {
            FilterStep::Done(f) => SelStep::Sel(select_rec(f, papers, all_indices(papers.len()))),
            FilterStep::NoValue(s) => SelStep::NoValue(s),
            FilterStep::BadPattern(pat) => SelStep::Bad(pat),
        },
    }
}

/// Taking one more index extends the selected set by exactly that index.
pub proof fn lemma_sel_take_step(sel: Seq<usize>, k: int, j: int)
    requires
        0 <= k < sel.len(),
    ensures
        sel_contains(sel.take(k + 1), j) == (sel_contains(sel.take(k), j) || sel[k] == j),
{
    let a = sel.take(k);
    let b = sel.take(k + 1);
    if sel_contains(b, j) {
        let w = choose|w: int| 0 <= w < b.len() && b[w] == j;
        if w < k {
            assert(a[w] == b[w]);
            assert(sel_contains(a, j));
        } else {
            assert(b[w] == sel[k]);
        }
    }
    if sel_contains(a, j) {
        let w = choose|w: int| 0 <= w < a.len() && a[w] == j;
        assert(b[w] == a[w]);
        assert(sel_contains(b, j));
    }
    if sel[k] == j {
        assert(b[k] == sel[k]);
        assert(sel_contains(b, j));
    }
}

/// The word the confirmation prompt uses for each target status.
pub open spec fn prompt_word(st: PaperStatus) -> Seq<char> {
    match st {
        PaperStatus::Read => "read"@,
        PaperStatus::Unread => "unread"@,
        PaperStatus::InProgress => "currently reading"@,
    }
}

/// The confirmation prompt shown before a multi-paper progress change.
pub open spec fn confirm_message_spec(n: nat, st: PaperStatus) -> Seq<char> {
    "Mark "@ + spec_digits(n) + " papers as "@ + prompt_word(st) + "?"@
}

/// Builds the confirmation prompt for `n` papers.
pub fn confirm_message(n: usize, st: PaperStatus) -> (r: String)
    ensures
        r@ == confirm_message_spec(n as nat, st),
{
    let mut msg = String::from_str("Mark ");
    let digits = usize_to_string(n);
    msg.append(digits.as_str());
    msg.append(" papers as ");
    match st {
        PaperStatus::Read => msg.append("read"),
        PaperStatus::Unread => msg.append("unread"),
        PaperStatus::InProgress => msg.append("currently reading"),
    }
    msg.append("?");
    proof {
        assert(msg@ =~= confirm_message_spec(n as nat, st));
    }
    msg
}

fn build_message(n: usize, st: PaperStatus) -> (r: String)
    ensures
        r@ == mark_message(n as nat, st),
{
    let mut msg = String::from_str("Marked ");
    let digits = usize_to_string(n);
    msg.append(digits.as_str());
    msg.append(" ");
    if n != 1 {
        msg.append("papers");
    } else {
        msg.append("paper");
    }
    msg.append(" as ");
    match st {
        PaperStatus::Read => msg.append("finished"),
        PaperStatus::Unread => msg.append("unread"),
        PaperStatus::InProgress => msg.append("currently reading"),
    }
    msg.append(".\n");
    proof {
        assert(msg@ =~= mark_message(n as nat, st));
    }
    msg
}

/// Resolves the selection, passes the confirmation gate (`approve` stands
/// for the user's answer, asked only when more than one paper is selected),
/// and sets every selected paper's progress to `status`. Declining leaves
/// the store untouched; a single-paper selection proceeds without asking.
pub fn run(
    input: CommandInput,
    state: &mut State,
    config: &Config,
    approve: bool,
    status: PaperStatus,
) -> (r: Result<CommandOutput, Fallacy>)
    requires
        match input.papers {
            Some(l) => forall|k: int|
                0 <= k < l@.len() ==> (l@[k] as int) < old(state)@.len(),
            None => true,
        },
    ensures
        final(state)@.len() == old(state)@.len(),
        match r {
            Ok(out) => (match spec_resolve(
                piped_of(&input),
                input.args.deep_view(),
                old(state)@,
            ) {
                SelStep::Sel(sel) => (sel.len() <= 1 || approve) && final(state)@
                    == set_progress_view(old(state)@, sel, status) && (
                out matches CommandOutput::Message(m) && m@ == mark_message(sel.len(), status)),
                _ => false,
            }),
            Err(e) => final(state)@ == old(state)@ && match e {
                Fallacy::Cancelled => (match spec_resolve(
                    piped_of(&input),
                    input.args.deep_view(),
                    old(state)@,
                ) {
                    SelStep::Sel(sel) => sel.len() > 1 && !approve,
                    _ => false,
                }),
                Fallacy::MissingValue(s) => spec_resolve(
                    piped_of(&input),
                    input.args.deep_view(),
                    old(state)@,
                ) == SelStep::NoValue(s@),
                Fallacy::FilterBuildFailed(m) => (match spec_resolve(
                    piped_of(&input),
                    input.args.deep_view(),
                    old(state)@,
                ) {
                    SelStep::Bad(pat) => m@ == crate::rex::regex_diag_of(pat),
                    _ => false,
                }),
                _ => false,
            },
        },
{
    let ghost papers0 = state@;
    let CommandInput { args, papers } = input;
    let list: PaperList = match papers {
        Some(l) => l,
        None => {
            let inp2 = CommandInput { args: args.clone(), papers: None };
            match ls::execute(inp2, state, config) {
                Ok(out) => match out {
                    CommandOutput::Papers(pl) => pl,
                    _ => {
                        proof {
                            assert(false);
                        }
                        PaperList(Vec::new())
                    },
                },
                Err(e) => {
                    return Err(e);
                },
            }
        },
    };
    let n_sel: usize = list.0.len();
    if n_sel > 1 && !approve {
        return Err(Fallacy::Cancelled);
    }
    let ghost selv = list.0@;
    let mut k: usize = 0;
    proof {
        assert forall|j: int|
            0 <= j < papers0.len() implies set_progress_view(papers0, selv.take(0), status)[j]
            == papers0[j] by {
            if sel_contains(selv.take(0), j) {
                let w = choose|w: int| 0 <= w < selv.take(0).len() && selv.take(0)[w] == j;
                assert(false);
            }
        }
        assert(state@ =~= set_progress_view(papers0, selv.take(0), status));
    }
    while k < n_sel
        invariant
            0 <= k <= n_sel,
            n_sel == selv.len(),
            selv == list.0@,
            state.papers.len() == papers0.len(),
            forall|x: int| 0 <= x < selv.len() ==> (selv[x] as int) < papers0.len(),
            state@ == set_progress_view(papers0, selv.take(k as int), status),
        decreases n_sel - k,
    {
        let ind = list.0[k];
        let ghost cur = state@;
        proof {
            assert(cur[ind as int] == state.papers[ind as int]@);
        }
        state.papers[ind].progress = status;
        proof {
            assert(state@[ind as int] == (PaperView { progress: status, ..papers0[ind as int] }));
            assert forall|j: int|
                0 <= j < papers0.len() implies state@[j] == set_progress_view(
                papers0,
                selv.take(k as int + 1),
                status,
            )[j] by {
                lemma_sel_take_step(selv, k as int, j);
                if j != ind {
                    assert(state@[j] == cur[j]);
                }
            }
            assert(state@ =~= set_progress_view(papers0, selv.take(k as int + 1), status));
        }
        k = k + 1;
    }
    proof {
        assert(selv.take(n_sel as int) =~= selv);
    }
    let msg = build_message(n_sel, status);
    Ok(CommandOutput::Message(msg))
}

} // verus!
