//! Opens the wiki page of each selected paper: resolves the selection,
//! passes the confirmation gate, gives every selected paper a wiki path
//! (creating one from the title, and setting the paper to currently reading,
//! where none exists yet), and hands the caller the editor plan — which
//! paths to open and whether one editor instance takes them all.

use vstd::prelude::*;
use vstd::string::StringExecFns;
use crate::cmd::ls;
use crate::cmd::progress::{lemma_sel_take_step, sel_contains, spec_resolve, SelStep};
use crate::error::Fallacy;
use crate::paper::{PaperList, PaperStatus, PaperView};
use crate::state::{piped_of, CommandInput, CommandOutput, Config, State};
use crate::strutil::{spec_digits, usize_to_string};

verus! {

/// The wiki file a paper without one gets: its title with a `.md` suffix.
pub open spec fn default_wiki_name(title: Seq<char>) -> Seq<char> {
    title + ".md"@
}

/// The wiki file of a paper: its recorded path, or the default one.
pub open spec fn wiki_file_of(p: PaperView) -> Seq<char> {
    match p.wikipath {
        Some(w) => w,
        None => default_wiki_name(p.title),
    }
}

/// The full path the editor opens: the wiki directory, a separator, the file.
pub open spec fn wiki_full_path(dir: Seq<char>, p: PaperView) -> Seq<char> {
    dir + "/"@ + wiki_file_of(p)
}

/// A paper after its wiki is ensured: one that had none records the default
/// path and becomes currently reading (the side effect of creating a wiki);
/// one that had a path is untouched.
pub open spec fn touch_wiki(p: PaperView) -> PaperView {
    match p.wikipath {
        Some(_) => p,
        None => PaperView {
            wikipath: Some(default_wiki_name(p.title)),
            progress: PaperStatus::InProgress,
            ..p
        },
    }
}

/// The store with every selected paper's wiki ensured.
pub open spec fn touch_view(papers: Seq<PaperView>, sel: Seq<usize>) -> Seq<PaperView> {
    Seq::new(
        papers.len(),
        |j: int|
            if sel_contains(sel, j) {
                touch_wiki(papers[j])
            } else {
                papers[j]
            },
    )
}

/// What the caller must do after the command: open these files, either all
/// in one editor instance (`batch`) or one instance per file.
pub struct EditorPlan {
    pub wikis: Vec<String>,
    pub batch: bool,
}

/// The confirmation prompt shown before opening several wikis.
pub open spec fn open_confirm_spec(n: nat) -> Seq<char> {
    "Open wikis for "@ + spec_digits(n) + " paper?"@
}

/// Builds the confirmation prompt for opening `n` wikis.
pub fn confirm_message(n: usize) -> (r: String)
    ensures
        r@ == open_confirm_spec(n as nat),
{
    let mut msg = String::from_str("Open wikis for ");
    let digits = usize_to_string(n);
    msg.append(digits.as_str());
    msg.append(" paper?");
    proof {
        assert(msg@ =~= open_confirm_spec(n as nat));
    }
    msg
}

/// Resolves the selection (pipe or filter fallback), passes the confirmation
/// gate (`approve` is the user's answer, asked only for more than one
/// paper), ensures each selected paper has a wiki path, and returns the
/// paths for the caller to open. Declining leaves the store untouched.
pub fn execute(input: CommandInput, state: &mut State, config: &Config, approve: bool) -> (r:
    Result<(CommandOutput, EditorPlan), Fallacy>)
    requires
        match input.papers {
            Some(l) => forall|k: int| 0 <= k < l@.len() ==> (l@[k] as int) < old(state)@.len(),
            None => true,
        },
    ensures
        final(state)@.len() == old(state)@.len(),
        match r {
            Ok((out, plan)) => (match spec_resolve(
                piped_of(&input),
                input.args.deep_view(),
                old(state)@,
            ) {
                SelStep::Sel(sel) => (sel.len() <= 1 || approve) && (out is Empty) && final(state)@
                    == touch_view(old(state)@, sel) && plan.batch == config.editor_batch
                    && plan.wikis.deep_view().len() == sel.len() && (forall|k: int|
                    0 <= k < sel.len() ==> plan.wikis.deep_view()[k] == wiki_full_path(
                        config.wiki_dir@,
                        old(state)@[sel[k] as int],
                    )),
                _ => false,
            }),
            Err(e) => final(state)@ == old(state)@ && match e {
                Fallacy::Cancelled => (match spec_resolve(
                    piped_of(&input),
                    input.args.deep_view(),
                    old(state)@,
                ) {
                    SelStep::Sel(sel) => sel.len() > 1 && !approve,
                    _ => false,
                }),
                Fallacy::MissingValue(s) => spec_resolve(
                    piped_of(&input),
                    input.args.deep_view(),
                    old(state)@,
                ) == SelStep::NoValue(s@),
                Fallacy::FilterBuildFailed(m) => (match spec_resolve(
                    piped_of(&input),
                    input.args.deep_view(),
                    old(state)@,
                ) {
                    SelStep::Bad(pat) => m@ == crate::rex::regex_diag_of(pat),
                    _ => false,
                }),
                _ => false,
            },
        },
{
    let ghost papers0 = state@;
    let CommandInput { args, papers } = input;
    let list: PaperList = match papers {
        Some(l) => l,
        None => {
            let inp2 = CommandInput { args: args.clone(), papers: None };
            match ls::execute(inp2, state, config) {
                Ok(out) => match out {
                    CommandOutput::Papers(pl) => pl,
                    _ => {
                        proof {
                            assert(false);
                        }
                        PaperList(Vec::new())
                    },
                },
                Err(e) => {
                    return Err(e);
                },
            }
        },
    };
    let n_sel: usize = list.0.len();
    if n_sel > 1 && !approve {
        return Err(Fallacy::Cancelled);
    }
    let ghost selv = list.0@;
    let mut wikis: Vec<String> = Vec::new();
    let mut k: usize = 0;
    proof {
        assert forall|j: int|
            0 <= j < papers0.len() implies touch_view(papers0, selv.take(0))[j] == papers0[j] by {
            if sel_contains(selv.take(0), j) {
                let w = choose|w: int| 0 <= w < selv.take(0).len() && selv.take(0)[w] == j;
                assert(false);
            }
        }
        assert(state@ =~= touch_view(papers0, selv.take(0)));
    }
    while k < n_sel
        invariant
            0 <= k <= n_sel,
            n_sel == selv.len(),
            selv == list.0@,
            state.papers.len() == papers0.len(),
            forall|x: int| 0 <= x < selv.len() ==> (selv[x] as int) < papers0.len(),
            state@ == touch_view(papers0, selv.take(k as int)),
            wikis.deep_view().len() == k,
            forall|x: int|
                0 <= x < k ==> wikis.deep_view()[x] == wiki_full_path(
                    config.wiki_dir@,
                    papers0[selv[x] as int],
                ),
        decreases n_sel - k,
    {
        let ind = list.0[k];
        let ghost cur = state@;
        proof {
            assert(cur[ind as int] == state.papers[ind as int]@);
        }
        let file: String = match &state.papers[ind].wikipath {
            Some(w) => w.clone(),
            None => {
                // An untouched paper without a wiki: record the default path
                // and set it to currently reading.
                proof {
                    if sel_contains(selv.take(k as int), ind as int) {
                        assert(cur[ind as int] == touch_wiki(papers0[ind as int]));
                        assert(touch_wiki(papers0[ind as int]).wikipath is Some);
                    }
                }
                let name = state.papers[ind].title.clone().concat(".md");
                state.papers[ind].wikipath = Some(name.clone());
                state.papers[ind].progress = PaperStatus::InProgress;
                proof {
                    assert(state@[ind as int] == touch_wiki(papers0[ind as int]));
                }
                name
            },
        };
        proof {
            assert(file@ == wiki_file_of(papers0[ind as int]));
            lemma_sel_take_step(selv, k as int, ind as int);
            assert forall|j: int|
                0 <= j < papers0.len() implies state@[j] == touch_view(
                papers0,
                selv.take(k as int + 1),
            )[j] by {
                lemma_sel_take_step(selv, k as int, j);
                if j != ind {
                    assert(state@[j] == cur[j]);
                }
            }
            assert(state@ =~= touch_view(papers0, selv.take(k as int + 1)));
        }
        let mut path = config.wiki_dir.clone();
        path.append("/");
        path.append(file.as_str());
        let ghost before = wikis.deep_view();
        wikis.push(path);
        proof {
            assert(wikis.deep_view() =~= before.push(
                config.wiki_dir@ + "/"@ + wiki_file_of(papers0[selv[k as int] as int]),
            ));
        }
        k = k + 1;
    }
    proof {
        assert(selv.take(n_sel as int) =~= selv);
    }
    Ok((CommandOutput::Empty, EditorPlan { wikis, batch: config.editor_batch }))
}

} // verus!
