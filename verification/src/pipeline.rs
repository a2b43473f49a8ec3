//! The command pipeline: one user line is split at `|` into segments; the
//! first segment selects from the whole store, each later one consumes the
//! paper list the previous one produced. A mutating segment whose selection
//! holds more than one paper suspends at the confirmation gate; the caller
//! prompts and runs the line again with the answer.

use vstd::prelude::*;
use vstd::string::StringExecFns;
use crate::cmd::ls::{ls_base, select_rec, tail_of};
use crate::cmd::man::man_text;
use crate::cmd::progress;
use crate::cmd::progress::{
    confirm_message_spec, mark_message, set_progress_view, spec_resolve, SelStep,
};
use crate::cmd::sort::{filter_status_rec, sort_ids};
use crate::cmd::vimwiki::{open_confirm_spec, touch_view, wiki_full_path, EditorPlan};
use crate::cmd::{ls, man, sort, vimwiki};
use crate::error::Fallacy;
use crate::filter::{spec_filter_from_args, FilterStep};
use crate::paper::{spec_parse_status, PaperList, PaperStatus, PaperView};
use crate::rex::regex_diag_of;
use crate::state::{CommandInput, CommandOutput, Config, State};
use crate::strutil::str_eq;

verus! {

/// What running one line yields: the last segment's output (with the editor
/// plan, if the line ended in a wiki command), or the confirmation prompt
/// and its default answer, the line not yet run.
pub enum LineOutcome {
    Done(CommandOutput, Option<EditorPlan>),
    NeedsConfirmation(String, bool),
}

/// Splits a token list at `|` markers, `cur` being the segment under way.
pub open spec fn seg_rest(toks: Seq<Seq<char>>, cur: Seq<Seq<char>>) -> Seq<Seq<Seq<char>>>
    decreases toks.len(),
{
    if toks.len() == 0 {
        seq![cur]
    } else if toks[0] == "|"@ {
        seq![cur] + seg_rest(toks.skip(1), Seq::empty())
    } else {
        seg_rest(toks.skip(1), cur.push(toks[0]))
    }
}

/// The segments of a line: its tokens split at `|`, in order, kept even
/// when empty (an empty segment is an invalid command).
pub open spec fn spec_split_segments(toks: Seq<Seq<char>>) -> Seq<Seq<Seq<char>>> {
    seg_rest(toks, Seq::empty())
}

/// Splits a tokenized line at `|` into command segments.
pub fn split_segments(tokens: &Vec<String>) -> (r: Vec<Vec<String>>)
    ensures
        r.deep_view() == spec_split_segments(tokens.deep_view()),
        r.deep_view().len() > 0,
{
    let ghost dv = tokens.deep_view();
    let n: usize = tokens.len();
    let mut out: Vec<Vec<String>> = Vec::new();
    let mut cur: Vec<String> = Vec::new();
    let mut i: usize = 0;
    proof {
        assert(dv.skip(0) =~= dv);
        assert(out.deep_view() =~= Seq::<Seq<Seq<char>>>::empty());
        assert(cur.deep_view() =~= Seq::<Seq<char>>::empty());
        assert(Seq::<Seq<Seq<char>>>::empty() + seg_rest(dv, Seq::empty()) =~= seg_rest(
            dv,
            Seq::empty(),
        ));
    }
    while i < n
        invariant
            0 <= i <= n,
            n == dv.len(),
            dv == tokens.deep_view(),
            spec_split_segments(dv) == out.deep_view() + seg_rest(
                dv.skip(i as int),
                cur.deep_view(),
            ),
        decreases n - i,
    {
        proof {
            assert(dv.skip(i as int)[0] == dv[i as int]);
            assert(dv.skip(i as int).skip(1) =~= dv.skip(i as int + 1));
            assert(dv[i as int] == tokens[i as int]@);
        }
        if str_eq(&tokens[i], "|") {
            let ghost before = out.deep_view();
            let ghost curv = cur.deep_view();
            out.push(cur);
            cur = Vec::new();
            proof {
                assert(out.deep_view() =~= before.push(curv));
                assert(cur.deep_view() =~= Seq::<Seq<char>>::empty());
                assert(before.push(curv) + seg_rest(dv.skip(i as int + 1), Seq::empty())
                    =~= before + (seq![curv] + seg_rest(dv.skip(i as int + 1), Seq::empty())));
            }
        } else {
            let ghost curv = cur.deep_view();
            cur.push(tokens[i].clone());
            proof {
                assert(cur.deep_view() =~= curv.push(dv[i as int]));
            }
        }
        i = i + 1;
    }
    let ghost before = out.deep_view();
    let ghost curv = cur.deep_view();
    out.push(cur);
    proof {
        assert(dv.skip(n as int).len() == 0);
        assert(out.deep_view() =~= before.push(curv));
        assert(before.push(curv) =~= before + seq![curv]);
    }
    out
}

/// Two papers that differ at most in reading progress and wiki path: the
/// only fields any command line ever changes.
pub open spec fn core_same(a: PaperView, b: PaperView) -> bool {
    b == (PaperView { progress: b.progress, wikipath: b.wikipath, ..a })
}

/// The ghost form of a segment's output.
pub enum OutSpec {
    Quiet,
    Msg(Seq<char>),
    Sel(Seq<usize>),
}

/// The ghost form of the editor plan a wiki line hands back.
pub struct PlanSpec {
    pub wikis: Seq<Seq<char>>,
    pub batch: bool,
}

/// The ghost form of a failed line, each failure with what it must name.
pub enum ErrSpec {
    Unknown(Seq<char>),
    Invalid,
    BuildFailed(Seq<char>),
    MissingVal(Seq<char>),
    ManBadArity,
    ManUnknown(Seq<char>),
    NoPapers,
    BadStatus(Seq<char>),
    Cancelled,
}

/// What a line must leave behind: the store afterwards and the outcome.
pub struct LineSpec {
    pub papers: Seq<PaperView>,
    pub res: LineRes,
}

/// The outcome part: a finished output with its plan, a suspension at the
/// confirmation gate, or a failure.
pub enum LineRes {
    Out(OutSpec, Option<PlanSpec>),
    Ask(Seq<char>, bool),
    Fail(ErrSpec),
}

/// The piped selection as the interpreter sees it.
pub open spec fn sel_view(o: Option<PaperList>) -> Option<Seq<usize>> {
    match o {
        Some(l) => Some(l@),
        None => None,
    }
}

/// The interpreter of a line, from segment `i` on: what dispatching each
/// segment does to the store and what the line finally yields. A recognized
/// keyword dispatches to its command's meaning; an intermediate output that
/// is not a paper list fails the line (with any store change a mutating
/// segment already made kept, and a wiki segment's editor plan dropped).
pub open spec fn spec_line(
    segs: Seq<Seq<Seq<char>>>,
    i: int,
    piped: Option<Seq<usize>>,
    p: Seq<PaperView>,
    approval: Option<bool>,
    batch: bool,
    wiki_dir: Seq<char>,
) -> LineSpec
    decreases segs.len() - i,
{
    if i < 0 || i >= segs.len() {
        LineSpec { papers: p, res: LineRes::Fail(ErrSpec::Invalid) }
    } else {
        let seg = segs[i];
        let last = i + 1 == segs.len();
        if seg.len() == 0 {
            LineSpec { papers: p, res: LineRes::Fail(ErrSpec::Invalid) }
        } else if seg[0] == "ls"@ {
            match spec_filter_from_args(tail_of(seg)) {
                FilterStep::Done(f) => {
                    let sel = select_rec(f, p, ls_base(piped, p.len()));
                    if last {
                        LineSpec { papers: p, res: LineRes::Out(OutSpec::Sel(sel), None) }
                    } else {
                        spec_line(segs, i + 1, Some(sel), p, approval, batch, wiki_dir)
                    }
                },
                FilterStep::NoValue(s) => LineSpec {
                    papers: p,
                    res: LineRes::Fail(ErrSpec::MissingVal(s)),
                },
                FilterStep::BadPattern(pat) => LineSpec {
                    papers: p,
                    res: LineRes::Fail(ErrSpec::BuildFailed(regex_diag_of(pat))),
                },
            }
        } else if seg[0] == "man"@ {
            if seg.len() != 2 {
                LineSpec { papers: p, res: LineRes::Fail(ErrSpec::ManBadArity) }
            } else {
                match man_text(seg[1]) {
                    Some(t) => {
                        if last {
                            LineSpec { papers: p, res: LineRes::Out(OutSpec::Msg(t), None) }
                        } else {
                            LineSpec { papers: p, res: LineRes::Fail(ErrSpec::Invalid) }
                        }
                    },
                    None => LineSpec { papers: p, res: LineRes::Fail(ErrSpec::ManUnknown(seg[1])) },
                }
            }
        } else if seg[0] == "sort"@ {
            match piped {
                None => LineSpec { papers: p, res: LineRes::Fail(ErrSpec::NoPapers) },
                Some(ids) => {
                    if seg.len() == 1 {
                        let sorted = sort_ids(p, ids);
                        if last {
                            LineSpec { papers: p, res: LineRes::Out(OutSpec::Sel(sorted), None) }
                        } else {
                            spec_line(segs, i + 1, Some(sorted), p, approval, batch, wiki_dir)
                        }
                    } else if seg.len() == 3 {
                        if seg[1] == "by"@ {
                            match spec_parse_status(seg[2]) {
                                Some(st) => {
                                    let kept = filter_status_rec(p, ids, st);
                                    if last {
                                        LineSpec {
                                            papers: p,
                                            res: LineRes::Out(OutSpec::Sel(kept), None),
                                        }
                                    } else {
                                        spec_line(
                                            segs,
                                            i + 1,
                                            Some(kept),
                                            p,
                                            approval,
                                            batch,
                                            wiki_dir,
                                        )
                                    }
                                },
                                None => LineSpec {
                                    papers: p,
                                    res: LineRes::Fail(ErrSpec::BadStatus(seg[2])),
                                },
                            }
                        } else {
                            if last {
                                LineSpec { papers: p, res: LineRes::Out(OutSpec::Quiet, None) }
                            } else {
                                LineSpec { papers: p, res: LineRes::Fail(ErrSpec::Invalid) }
                            }
                        }
                    } else {
                        let none_sel = Seq::<usize>::empty();
                        if last {
                            LineSpec { papers: p, res: LineRes::Out(OutSpec::Sel(none_sel), None) }
                        } else {
                            spec_line(segs, i + 1, Some(none_sel), p, approval, batch, wiki_dir)
                        }
                    }
                },
            }
        } else if seg[0] == "mark"@ || seg[0] == "unmark"@ || seg[0] == "current"@ {
            let st = if seg[0] == "mark"@ {
                PaperStatus::Read
            } else if seg[0] == "unmark"@ {
                PaperStatus::Unread
            } else {
                PaperStatus::InProgress
            };
            match spec_resolve(piped, seg, p) {
                SelStep::Sel(sel) => {
                    if sel.len() > 1 && approval is None {
                        LineSpec {
                            papers: p,
                            res: LineRes::Ask(confirm_message_spec(sel.len(), st), false),
                        }
                    } else {
                        let answer = if approval is Some {
                            approval->0
                        } else {
                            true
                        };
                        if sel.len() > 1 && !answer {
                            LineSpec { papers: p, res: LineRes::Fail(ErrSpec::Cancelled) }
                        } else {
                            let p2 = set_progress_view(p, sel, st);
                            if last {
                                LineSpec {
                                    papers: p2,
                                    res: LineRes::Out(
                                        OutSpec::Msg(mark_message(sel.len(), st)),
                                        None,
                                    ),
                                }
                            } else {
                                // The message cannot be piped; the papers are
                                // already marked when the line fails.
                                LineSpec { papers: p2, res: LineRes::Fail(ErrSpec::Invalid) }
                            }
                        }
                    }
                },
                SelStep::NoValue(s) => LineSpec {
                    papers: p,
                    res: LineRes::Fail(ErrSpec::MissingVal(s)),
                },
                SelStep::Bad(pat) => LineSpec {
                    papers: p,
                    res: LineRes::Fail(ErrSpec::BuildFailed(regex_diag_of(pat))),
                },
            }
        } else if seg[0] == "vimwiki"@ {
            match spec_resolve(piped, seg, p) {
                SelStep::Sel(sel) => {
                    if sel.len() > 1 && approval is None {
                        LineSpec { papers: p, res: LineRes::Ask(open_confirm_spec(sel.len()), true) }
                    } else {
                        let answer = if approval is Some {
                            approval->0
                        } else {
                            true
                        };
                        if sel.len() > 1 && !answer {
                            LineSpec { papers: p, res: LineRes::Fail(ErrSpec::Cancelled) }
                        } else {
                            let p2 = touch_view(p, sel);
                            let plan = PlanSpec {
                                wikis: Seq::new(
                                    sel.len(),
                                    |k: int| wiki_full_path(wiki_dir, p[sel[k] as int]),
                                ),
                                batch: batch,
                            };
                            if last {
                                LineSpec {
                                    papers: p2,
                                    res: LineRes::Out(OutSpec::Quiet, Some(plan)),
                                }
                            } else {
                                // Nothing can be piped on; the wikis are
                                // already recorded and the plan is dropped.
                                LineSpec { papers: p2, res: LineRes::Fail(ErrSpec::Invalid) }
                            }
                        }
                    }
                },
                SelStep::NoValue(s) => LineSpec {
                    papers: p,
                    res: LineRes::Fail(ErrSpec::MissingVal(s)),
                },
                SelStep::Bad(pat) => LineSpec {
                    papers: p,
                    res: LineRes::Fail(ErrSpec::BuildFailed(regex_diag_of(pat))),
                },
            }
        } else {
            LineSpec { papers: p, res: LineRes::Fail(ErrSpec::Unknown(seg[0])) }
        }
    }
}

/// Whether one segment output satisfies its ghost form.
pub open spec fn out_matches(o: OutSpec, out: CommandOutput) -> bool {
    match o {
        OutSpec::Quiet => out is Empty,
        OutSpec::Msg(m) => (match out {
            CommandOutput::Message(s) => s@ == m,
            _ => false,
        }),
        OutSpec::Sel(ids) => (match out {
            CommandOutput::Papers(pl) => pl@ == ids,
            _ => false,
        }),
    }
}

/// Whether the returned editor plan satisfies its ghost form.
pub open spec fn plan_matches(ps: Option<PlanSpec>, plan: Option<EditorPlan>) -> bool {
    match ps {
        None => plan is None,
        Some(q) => (match plan {
            Some(ep) => ep.wikis.deep_view() == q.wikis && ep.batch == q.batch,
            None => false,
        }),
    }
}

/// Whether the returned failure satisfies its ghost form.
pub open spec fn err_matches(e: ErrSpec, f: Fallacy) -> bool {
    match e {
        ErrSpec::Unknown(n) => (match f {
            Fallacy::UnknownCommand(s) => s@ == n,
            _ => false,
        }),
        ErrSpec::Invalid => f is InvalidCommand,
        ErrSpec::BuildFailed(d) => (match f {
            Fallacy::FilterBuildFailed(m) => m@ == d,
            _ => false,
        }),
        ErrSpec::MissingVal(kw) => (match f {
            Fallacy::MissingValue(s) => s@ == kw,
            _ => false,
        }),
        ErrSpec::ManBadArity => f is ManInvalidArgument,
        ErrSpec::ManUnknown(sub) => (match f {
            Fallacy::ManUnknownSubject(s) => s@ == sub,
            _ => false,
        }),
        ErrSpec::NoPapers => f is SetNoPapers,
        ErrSpec::BadStatus(w) => (match f {
            Fallacy::InvalidCommand(s) => s@ == w,
            _ => false,
        }),
        ErrSpec::Cancelled => f is Cancelled,
    }
}

/// Whether the executable result satisfies the interpreted outcome.
pub open spec fn res_matches(res: LineRes, r: Result<LineOutcome, Fallacy>) -> bool {
    match res {
        LineRes::Out(o, ps) => (match r {
            Ok(LineOutcome::Done(out, plan)) => out_matches(o, out) && plan_matches(ps, plan),
            _ => false,
        }),
        LineRes::Ask(m, d) => (match r {
            Ok(LineOutcome::NeedsConfirmation(pm, pd)) => pm@ == m && pd == d,
            _ => false,
        }),
        LineRes::Fail(e) => (match r {
            Err(f) => err_matches(e, f),
            _ => false,
        }),
    }
}

fn clone_string_vec(v: &Vec<String>) -> (r: Vec<String>)
    ensures
        r.deep_view() == v.deep_view(),
{
    let ghost dv = v.deep_view();
    let n: usize = v.len();
    let mut out: Vec<String> = Vec::new();
    let mut i: usize = 0;
    while i < n
        invariant
            0 <= i <= n,
            n == dv.len(),
            dv == v.deep_view(),
            out.deep_view() == dv.take(i as int),
        decreases n - i,
    {
        let ghost before = out.deep_view();
        out.push(v[i].clone());
        proof {
            assert(dv[i as int] == v[i as int]@);
            assert(out.deep_view() =~= before.push(dv[i as int]));
            assert(before.push(dv[i as int]) =~= dv.take(i as int + 1));
        }
        i = i + 1;
    }
    proof {
        assert(dv.take(n as int) =~= dv);
    }
    out
}

/// Runs one line: splits it at `|`, dispatches each segment by its first
/// token, and threads each segment's paper list into the next, exactly as
/// the interpreter `spec_line` lays down. A mutating segment selecting more
/// than one paper suspends with the confirmation prompt when `approval` is
/// `None`; the caller asks the user and runs the same line again with
/// `Some(answer)`. Commands only ever change reading progress and wiki
/// paths — never a paper's content — and a suspended line has changed
/// nothing at all.
pub fn run_line(tokens: &Vec<String>, state: &mut State, config: &Config, approval: Option<
    bool,
>) -> (r: Result<LineOutcome, Fallacy>)
    ensures
        final(state)@.len() == old(state)@.len(),
        forall|j: int|
            0 <= j < old(state)@.len() ==> core_same(old(state)@[j], #[trigger] final(state)@[j]),
        (r matches Ok(LineOutcome::NeedsConfirmation(_, _)) ==> final(state)@ == old(state)@),
        ({
            let lo = spec_line(
                spec_split_segments(tokens.deep_view()),
                0,
                None,
                old(state)@,
                approval,
                config.editor_batch,
                config.wiki_dir@,
            );
            final(state)@ == lo.papers && res_matches(lo.res, r)
        }),
{
    let ghost papers0 = state@;
    let segs = split_segments(tokens);
    let nsegs: usize = segs.len();
    let mut piped: Option<PaperList> = None;
    let mut i: usize = 0;
    proof {
        assert forall|j: int|
            0 <= j < papers0.len() implies core_same(papers0[j], #[trigger] papers0[j]) by {
            assert(papers0[j] == (PaperView {
                progress: papers0[j].progress,
                wikipath: papers0[j].wikipath,
                ..papers0[j]
            }));
        }
    }
    while i < nsegs
        invariant
            0 <= i < nsegs,
            nsegs == segs.deep_view().len(),
            nsegs > 0,
            segs.deep_view() == spec_split_segments(tokens.deep_view()),
            papers0 == old(state)@,
            state@ == papers0,
            state.papers.len() == papers0.len(),
            match piped {
                Some(l) => forall|k: int| 0 <= k < l@.len() ==> (l@[k] as int) < papers0.len(),
                None => true,
            },
            forall|j: int|
                0 <= j < papers0.len() ==> core_same(papers0[j], #[trigger] state@[j]),
            spec_line(
                segs.deep_view(),
                0,
                None,
                papers0,
                approval,
                config.editor_batch,
                config.wiki_dir@,
            ) == spec_line(
                segs.deep_view(),
                i as int,
                sel_view(piped),
                papers0,
                approval,
                config.editor_batch,
                config.wiki_dir@,
            ),
        decreases nsegs - i,
    {
        let ghost sgs = segs.deep_view();
        let ghost pv = sel_view(piped);
        let ghost step = spec_line(
            sgs,
            i as int,
            pv,
            papers0,
            approval,
            config.editor_batch,
            config.wiki_dir@,
        );
        let args = clone_string_vec(&segs[i]);
        proof {
            assert(sgs[i as int] == segs[i as int].deep_view());
            assert(args.deep_view() == sgs[i as int]);
            if args.deep_view().len() > 0 {
                assert(args.deep_view()[0] == args[0]@);
            }
        }
        if args.len() == 0 {
            return Err(Fallacy::InvalidCommand(String::from_str("empty command segment")));
        }
        let is_last = i + 1 == nsegs;
        let taken: Option<PaperList> = piped;
        piped = None;
        let name_is_ls = str_eq(&args[0], "ls");
        let name_is_man = str_eq(&args[0], "man");
        let name_is_sort = str_eq(&args[0], "sort");
        let name_is_mark = str_eq(&args[0], "mark");
        let name_is_unmark = str_eq(&args[0], "unmark");
        let name_is_current = str_eq(&args[0], "current");
        let name_is_vimwiki = str_eq(&args[0], "vimwiki");
        if name_is_ls {
            let ghost fstep = spec_filter_from_args(tail_of(sgs[i as int]));
            let input = CommandInput { args, papers: taken };
            let o = match ls::execute(input, state, config) {
                Ok(o) => o,
                Err(e) => {
                    return Err(e);
                },
            };
            let pl = match o {
                CommandOutput::Papers(pl) => pl,
                _ => {
                    proof {
                        assert(false);
                    }
                    PaperList(Vec::new())
                },
            };
            if is_last {
                return Ok(LineOutcome::Done(CommandOutput::Papers(pl), None));
            }
            proof {
                assert(step == spec_line(
                    sgs,
                    i as int + 1,
                    Some(pl@),
                    papers0,
                    approval,
                    config.editor_batch,
                    config.wiki_dir@,
                ));
            }
            piped = Some(pl);
        } else if name_is_man {
            let input = CommandInput { args, papers: taken };
            let o = match man::execute(input, state, config) {
                Ok(o) => o,
                Err(e) => {
                    return Err(e);
                },
            };
            if is_last {
                return Ok(LineOutcome::Done(o, None));
            }
            // A help text cannot be piped.
            return Err(Fallacy::InvalidCommand(String::from_str(
                "only a paper list can be piped",
            )));
        } else if name_is_sort {
            let input = CommandInput { args, papers: taken };
            let o = match sort::execute(input, state, config) {
                Ok(o) => o,
                Err(e) => {
                    return Err(e);
                },
            };
            if is_last {
                return Ok(LineOutcome::Done(o, None));
            }
            match o {
                CommandOutput::Papers(pl) => {
                    proof {
                        assert(step == spec_line(
                            sgs,
                            i as int + 1,
                            Some(pl@),
                            papers0,
                            approval,
                            config.editor_batch,
                            config.wiki_dir@,
                        ));
                    }
                    piped = Some(pl);
                },
                _ => {
                    return Err(Fallacy::InvalidCommand(String::from_str(
                        "only a paper list can be piped",
                    )));
                },
            }
        } else if name_is_mark || name_is_unmark || name_is_current {
            let status = if name_is_mark {
                PaperStatus::Read
            } else if name_is_unmark {
                PaperStatus::Unread
            } else {
                PaperStatus::InProgress
            };
            let resolved: PaperList = match taken {
                Some(l) => l,
                None => {
                    let inp2 = CommandInput { args: clone_string_vec(&args), papers: None };
                    match ls::execute(inp2, state, config) {
                        Ok(o) => match o {
                            CommandOutput::Papers(pl) => pl,
                            _ => {
                                proof {
                                    assert(false);
                                }
                                PaperList(Vec::new())
                            },
                        },
                        Err(e) => {
                            return Err(e);
                        },
                    }
                },
            };
            proof {
                assert(spec_resolve(pv, sgs[i as int], papers0) == SelStep::Sel(resolved@));
            }
            if resolved.0.len() > 1 && approval.is_none() {
                let prompt = progress::confirm_message(resolved.0.len(), status);
                return Ok(LineOutcome::NeedsConfirmation(prompt, false));
            }
            let answer = match approval {
                Some(b) => b,
                None => true,
            };
            let input = CommandInput { args, papers: Some(resolved) };
            let o = match progress::run(input, state, config, answer, status) {
                Ok(o) => o,
                Err(e) => {
                    return Err(e);
                },
            };
            proof {
                assert forall|j: int|
                    0 <= j < papers0.len() implies core_same(papers0[j], #[trigger] state@[j]) by {
                    assert(core_same(papers0[j], state@[j])) by {
                        if state@[j] != papers0[j] {
                            assert(state@[j] == (PaperView { progress: status, ..papers0[j] }));
                        }
                    }
                }
            }
            if is_last {
                return Ok(LineOutcome::Done(o, None));
            }
            // A progress command yields a message, which cannot be piped;
            // the selected papers are already marked.
            return Err(Fallacy::InvalidCommand(String::from_str(
                "only a paper list can be piped",
            )));
        } else if name_is_vimwiki {
            let resolved: PaperList = match taken {
                Some(l) => l,
                None => {
                    let inp2 = CommandInput { args: clone_string_vec(&args), papers: None };
                    match ls::execute(inp2, state, config) {
                        Ok(o) => match o {
                            CommandOutput::Papers(pl) => pl,
                            _ => {
                                proof {
                                    assert(false);
                                }
                                PaperList(Vec::new())
                            },
                        },
                        Err(e) => {
                            return Err(e);
                        },
                    }
                },
            };
            proof {
                assert(spec_resolve(pv, sgs[i as int], papers0) == SelStep::Sel(resolved@));
            }
            if resolved.0.len() > 1 && approval.is_none() {
                let prompt = vimwiki::confirm_message(resolved.0.len());
                return Ok(LineOutcome::NeedsConfirmation(prompt, true));
            }
            let answer = match approval {
                Some(b) => b,
                None => true,
            };
            let input = CommandInput { args, papers: Some(resolved) };
            let (o, p) = match vimwiki::execute(input, state, config, answer) {
                Ok(op) => op,
                Err(e) => {
                    return Err(e);
                },
            };
            proof {
                assert forall|j: int|
                    0 <= j < papers0.len() implies core_same(papers0[j], #[trigger] state@[j]) by {
                    assert(core_same(papers0[j], state@[j])) by {
                        if state@[j] != papers0[j] {
                            assert(state@[j] == crate::cmd::vimwiki::touch_wiki(papers0[j]));
                        }
                    }
                }
                assert(p.wikis.deep_view() =~= Seq::new(
                    resolved@.len(),
                    |k: int| wiki_full_path(config.wiki_dir@, papers0[resolved@[k] as int]),
                ));
            }
            if is_last {
                return Ok(LineOutcome::Done(o, Some(p)));
            }
            return Err(Fallacy::InvalidCommand(String::from_str(
                "only a paper list can be piped",
            )));
        } else {
            return Err(Fallacy::UnknownCommand(args[0].clone()));
        }
        i = i + 1;
    }
    // Unreachable: the last segment always returns inside the loop.
    proof {
        assert(false);
    }
    Err(Fallacy::InvalidCommand(String::from_str("empty command line")))
}

} // verus!
