//! Sorts a piped paper selection by title (ties broken by store index), or
//! keeps only the papers with a given reading status.

use vstd::prelude::*;
use crate::cmd::progress::sel_contains;
use crate::error::Fallacy;
use crate::paper::{spec_parse_status, parse_status, PaperList, PaperStatus, PaperView};
use crate::state::{piped_of, CommandInput, CommandOutput, Config, State};
use crate::strutil::{lemma_lex_connex, lemma_lex_trans, lex_lt, str_eq, str_lt};

verus! {

/// The sort key order: by title lexicographically, ties by store index.
pub open spec fn key_lt(papers: Seq<PaperView>, a: usize, b: usize) -> bool {
    lex_lt(papers[a as int].title, papers[b as int].title) || (papers[a as int].title == papers[
        b as int
    ].title && a < b)
}

/// Strictly ascending in the sort key: sorted by title with no index twice.
pub open spec fn sorted_by_title(papers: Seq<PaperView>, out: Seq<usize>) -> bool {
    forall|x: int, y: int| 0 <= x < y < out.len() ==> key_lt(papers, out[x], out[y])
}

/// The indices of `base` whose paper has the given status, in order.
pub open spec fn filter_status_rec(
    papers: Seq<PaperView>,
    base: Seq<usize>,
    st: PaperStatus,
) -> Seq<usize>
    decreases base.len(),
{
    if base.len() == 0 {
        Seq::empty()
    } else {
        let rest = filter_status_rec(papers, base.skip(1), st);
        if papers[base[0] as int].progress == st {
            seq![base[0]] + rest
        } else {
            rest
        }
    }
}

/// One index placed into a selection kept strictly sorted by the key:
/// before the first entry not below `id`, and not at all if already there.
pub open spec fn ins_one(papers: Seq<PaperView>, out: Seq<usize>, id: usize) -> Seq<usize>
    decreases out.len(),
{
    if out.len() == 0 {
        seq![id]
    } else if key_lt(papers, out[0], id) {
        seq![out[0]] + ins_one(papers, out.skip(1), id)
    } else if out[0] == id {
        out
    } else {
        seq![id] + out
    }
}

/// The selection folded into sorted order, left to right.
pub open spec fn sort_rec(papers: Seq<PaperView>, ids: Seq<usize>, acc: Seq<usize>) -> Seq<usize>
    decreases ids.len(),
{
    if ids.len() == 0 {
        acc
    } else {
        sort_rec(papers, ids.skip(1), ins_one(papers, acc, ids[0]))
    }
}

/// The selection sorted by title (ties by index), each index kept once.
pub open spec fn sort_ids(papers: Seq<PaperView>, ids: Seq<usize>) -> Seq<usize> {
    sort_rec(papers, ids, Seq::empty())
}

proof fn lemma_ins_one_at(papers: Seq<PaperView>, out: Seq<usize>, id: usize, pos: int)
    requires
        0 <= pos <= out.len(),
        forall|x: int| 0 <= x < pos ==> key_lt(papers, out[x], id),
        pos < out.len() ==> !key_lt(papers, out[pos], id),
    ensures
        ins_one(papers, out, id) == (if pos < out.len() && out[pos] == id {
            out
        } else {
            out.insert(pos, id)
        }),
    decreases out.len(),
{
    if pos == 0 {
        if out.len() == 0 {
            assert(out.insert(0, id) =~= seq![id]);
        } else if out[0] == id {
        } else {
            assert(seq![id] + out =~= out.insert(0, id));
        }
    } else {
        let rest = out.skip(1);
        assert forall|x: int| 0 <= x < pos - 1 implies key_lt(papers, rest[x], id) by {
            assert(rest[x] == out[x + 1]);
        }
        assert(pos - 1 < rest.len() ==> !key_lt(papers, rest[pos - 1], id)) by {
            if pos - 1 < rest.len() {
                assert(rest[pos - 1] == out[pos]);
            }
        }
        lemma_ins_one_at(papers, rest, id, pos - 1);
        if pos < out.len() && out[pos] == id {
            assert(rest[pos - 1] == out[pos]);
            assert(seq![out[0]] + rest =~= out);
        } else {
            assert(seq![out[0]] + rest.insert(pos - 1, id) =~= out.insert(pos, id));
        }
    }
}

proof fn lemma_key_connex(papers: Seq<PaperView>, a: usize, b: usize)
    requires
        a != b,
    ensures
        key_lt(papers, a, b) || key_lt(papers, b, a),
{
    lemma_lex_connex(papers[a as int].title, papers[b as int].title);
}

proof fn lemma_key_trans(papers: Seq<PaperView>, a: usize, b: usize, c: usize)
    requires
        key_lt(papers, a, b),
        key_lt(papers, b, c),
    ensures
        key_lt(papers, a, c),
{
    let ta = papers[a as int].title;
    let tb = papers[b as int].title;
    let tc = papers[c as int].title;
    if lex_lt(ta, tb) && lex_lt(tb, tc) {
        lemma_lex_trans(ta, tb, tc);
    }
}

proof fn lemma_insert_contains(s: Seq<usize>, pos: int, v: usize, j: int)
    requires
        0 <= pos <= s.len(),
    ensures
        sel_contains(s.insert(pos, v), j) == (sel_contains(s, j) || v == j),
{
    let t = s.insert(pos, v);
    if sel_contains(t, j) {
        let w = choose|w: int| 0 <= w < t.len() && t[w] == j;
        if w < pos {
            assert(t[w] == s[w]);
            assert(sel_contains(s, j));
        } else if w == pos {
            assert(t[w] == v);
        } else {
            assert(t[w] == s[w - 1]);
            assert(sel_contains(s, j));
        }
    }
    if sel_contains(s, j) {
        let w = choose|w: int| 0 <= w < s.len() && s[w] == j;
        if w < pos {
            assert(t[w] == s[w]);
            assert(sel_contains(t, j));
        } else {
            assert(t[w + 1] == s[w]);
            assert(sel_contains(t, j));
        }
    }
    if v == j {
        assert(t[pos] == v);
        assert(sel_contains(t, j));
    }
}

fn key_lt_exec(papers: &Vec<crate::paper::Paper>, a: usize, b: usize) -> (r: bool)
    requires
        (a as int) < papers.deep_view().len(),
        (b as int) < papers.deep_view().len(),
    ensures
        r == key_lt(papers.deep_view(), a, b),
{
    proof {
        assert(papers.deep_view()[a as int] == papers[a as int]@);
        assert(papers.deep_view()[b as int] == papers[b as int]@);
    }
    if str_lt(papers[a].title.as_str(), papers[b].title.as_str()) {
        true
    } else if papers[a].title == papers[b].title {
        a < b
    } else {
        false
    }
}

/// Sorts the piped selection. With no further argument the result is the
/// selection's indices ordered by paper title (ties by index), each index
/// once. With `by STATUS` (`unread`, `current` or `read`) the result keeps,
/// in order, the indices whose paper has that status. Needs a piped list;
/// the store is never changed.
pub fn execute(input: CommandInput, state: &mut State, config: &Config) -> (r: Result<
    CommandOutput,
    Fallacy,
>)
    requires
        match input.papers {
            Some(l) => forall|k: int| 0 <= k < l@.len() ==> (l@[k] as int) < old(state)@.len(),
            None => true,
        },
    ensures
        final(state)@ == old(state)@,
        match r {
            Ok(out) => piped_of(&input) matches Some(ids) && {
                let args = input.args.deep_view();
                if args.len() == 1 {
                    out matches CommandOutput::Papers(pl) && pl@ == sort_ids(old(state)@, ids)
                        && sorted_by_title(old(state)@, pl@) && (forall|j: int|
                        sel_contains(pl@, j) == sel_contains(ids, j)) && (forall|x: int|
                        0 <= x < pl@.len() ==> (pl@[x] as int) < old(state)@.len())
                } else if args.len() == 3 && args[1] == "by"@ && spec_parse_status(args[2]) is Some {
                    out matches CommandOutput::Papers(pl) && pl@ == filter_status_rec(
                        old(state)@,
                        ids,
                        spec_parse_status(args[2])->0,
                    )
                } else if args.len() == 3 && args[1] != "by"@ {
                    out is Empty
                } else {
                    args.len() != 3 && (out matches CommandOutput::Papers(pl) && pl@
                        == Seq::<usize>::empty())
                }
            },
            Err(e) => match e {
                Fallacy::SetNoPapers => piped_of(&input) is None,
                Fallacy::InvalidCommand(s) => piped_of(&input) is Some && {
                    let args = input.args.deep_view();
                    args.len() == 3 && args[1] == "by"@ && spec_parse_status(args[2]) is None && s@
                        == args[2]
                },
                _ => false,
            },
        },
        (match r {
            Ok(CommandOutput::Papers(pl)) => forall|x: int|
                0 <= x < pl@.len() ==> (pl@[x] as int) < old(state)@.len(),
            _ => true,
        }),
{
    let ghost papers_v = state@;
    let CommandInput { args, papers } = input;
    let list: PaperList = match papers {
        Some(l) => l,
        None => {
            return Err(Fallacy::SetNoPapers);
        },
    };
    let ghost ids = list.0@;
    let m: usize = list.0.len();
    if args.len() == 1 {
        let mut out: Vec<usize> = Vec::new();
        let mut k: usize = 0;
        proof {
            assert forall|j: int| !sel_contains(ids.take(0), j) by {
                if sel_contains(ids.take(0), j) {
                    let w = choose|w: int| 0 <= w < ids.take(0).len() && ids.take(0)[w] == j;
                    assert(false);
                }
            }
            assert forall|j: int| !sel_contains(out@, j) by {
                if sel_contains(out@, j) {
                    let w = choose|w: int| 0 <= w < out@.len() && out@[w] == j;
                    assert(false);
                }
            }
            assert(ids.skip(0) =~= ids);
            assert(out@ =~= Seq::<usize>::empty());
        }
        while k < m
            invariant
                0 <= k <= m,
                m == ids.len(),
                ids == list.0@,
                papers_v == state@,
                state.papers.len() == papers_v.len(),
                forall|x: int| 0 <= x < ids.len() ==> (ids[x] as int) < papers_v.len(),
                forall|x: int| 0 <= x < out@.len() ==> (out@[x] as int) < papers_v.len(),
                sorted_by_title(papers_v, out@),
                forall|j: int| sel_contains(out@, j) == sel_contains(ids.take(k as int), j),
                sort_rec(papers_v, ids.skip(k as int), out@) == sort_ids(papers_v, ids),
            decreases m - k,
        {
            let id = list.0[k];
            let n_out: usize = out.len();
            let mut pos: usize = 0;
            while pos < n_out && key_lt_exec(&state.papers, out[pos], id)
                invariant
                    0 <= pos <= n_out,
                    n_out == out@.len(),
                    papers_v == state@,
                    state.papers.len() == papers_v.len(),
                    (id as int) < papers_v.len(),
                    forall|x: int| 0 <= x < out@.len() ==> (out@[x] as int) < papers_v.len(),
                    forall|x: int| 0 <= x < pos ==> key_lt(papers_v, out@[x], id),
                decreases n_out - pos,
            {
                pos = pos + 1;
            }
            let ghost before_ins = out@;
            let dup = pos < n_out && out[pos] == id;
            if !dup {
                let ghost before = out@;
                out.insert(pos, id);
                proof {
                    assert(out@ == before.insert(pos as int, id));
                    if pos < before.len() {
                        assert(!key_lt(papers_v, before[pos as int], id));
                        assert(before[pos as int] != id);
                        lemma_key_connex(papers_v, before[pos as int], id);
                        assert(key_lt(papers_v, id, before[pos as int]));
                    }
                    assert forall|x: int, y: int|
                        0 <= x < y < out@.len() implies key_lt(papers_v, out@[x], out@[y]) by {
                        if y < pos {
                            assert(out@[x] == before[x] && out@[y] == before[y]);
                        } else if y == pos {
                            assert(out@[x] == before[x] && out@[y] == id);
                        } else if x < pos {
                            assert(out@[x] == before[x] && out@[y] == before[y - 1]);
                        } else if x == pos {
                            assert(out@[x] == id && out@[y] == before[y - 1]);
                            if y - 1 > pos as int {
                                lemma_key_trans(
                                    papers_v,
                                    id,
                                    before[pos as int],
                                    before[y - 1],
                                );
                            }
                        } else {
                            assert(out@[x] == before[x - 1] && out@[y] == before[y - 1]);
                        }
                    }
                    assert forall|j: int|
                        sel_contains(out@, j) == sel_contains(ids.take(k as int + 1), j) by {
                        lemma_insert_contains(before, pos as int, id, j);
                        crate::cmd::progress::lemma_sel_take_step(ids, k as int, j);
                    }
                }
            } else {
                proof {
                    assert(sel_contains(out@, id as int)) by {
                        assert(out@[pos as int] == id);
                    }
                    assert forall|j: int|
                        sel_contains(out@, j) == sel_contains(ids.take(k as int + 1), j) by {
                        crate::cmd::progress::lemma_sel_take_step(ids, k as int, j);
                    }
                }
            }
            proof {
                assert(ids.skip(k as int)[0] == ids[k as int]);
                assert(ids.skip(k as int).skip(1) =~= ids.skip(k as int + 1));
                lemma_ins_one_at(papers_v, before_ins, id, pos as int);
                assert(out@ == ins_one(papers_v, before_ins, id));
            }
            k = k + 1;
        }
        proof {
            assert(ids.take(m as int) =~= ids);
            assert(ids.skip(m as int).len() == 0);
        }
        return Ok(CommandOutput::Papers(PaperList(out)));
    }
    if args.len() == 3 {
        proof {
            assert(args.deep_view()[1] == args[1]@);
            assert(args.deep_view()[2] == args[2]@);
        }
        if !str_eq(&args[1], "by") {
            return Ok(CommandOutput::Empty);
        }
        let st = match parse_status(&args[2]) {
            Some(st) => st,
            None => {
                return Err(Fallacy::InvalidCommand(args[2].clone()));
            },
        };
        let mut out: Vec<usize> = Vec::new();
        let mut k: usize = 0;
        proof {
            assert(ids.skip(0) =~= ids);
            assert(out@ =~= Seq::<usize>::empty());
        }
        while k < m
            invariant
                0 <= k <= m,
                m == ids.len(),
                ids == list.0@,
                papers_v == state@,
                state.papers.len() == papers_v.len(),
                forall|x: int| 0 <= x < ids.len() ==> (ids[x] as int) < papers_v.len(),
                forall|x: int| 0 <= x < out@.len() ==> (out@[x] as int) < papers_v.len(),
                filter_status_rec(papers_v, ids, st) == out@ + filter_status_rec(
                    papers_v,
                    ids.skip(k as int),
                    st,
                ),
            decreases m - k,
        {
            proof {
                assert(ids.skip(k as int)[0] == ids[k as int]);
                assert(ids.skip(k as int).skip(1) =~= ids.skip(k as int + 1));
            }
            let id = list.0[k];
            proof {
                assert(papers_v[id as int] == state.papers[id as int]@);
            }
            if state.papers[id].progress == st {
                let ghost before = out@;
                out.push(id);
                proof {
                    assert(out@ =~= before.push(ids[k as int]));
                    assert(before.push(ids[k as int]) + filter_status_rec(
                        papers_v,
                        ids.skip(k as int + 1),
                        st,
                    ) =~= before + (seq![ids[k as int]] + filter_status_rec(
                        papers_v,
                        ids.skip(k as int + 1),
                        st,
                    )));
                }
            }
            k = k + 1;
        }
        proof {
            assert(ids.skip(m as int).len() == 0);
            assert(out@ + Seq::<usize>::empty() =~= out@);
        }
        return Ok(CommandOutput::Papers(PaperList(out)));
    }
    let empty_ids: Vec<usize> = Vec::new();
    proof {
        assert(empty_ids@ =~= Seq::<usize>::empty());
    }
    Ok(CommandOutput::Papers(PaperList(empty_ids)))
}

} // verus!
