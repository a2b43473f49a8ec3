//! Lists papers: builds a filter from the arguments and selects the matching
//! entries of the store (or of the piped selection). Always yields a paper
//! list on success — the fallback every selecting command relies on.

use vstd::prelude::*;
use crate::error::Fallacy;
use crate::filter::{spec_filter_from_args, spec_matches, FilterStep, FilterView, PaperFilter};
use crate::paper::{PaperList, PaperView};
use crate::state::{piped_of, CommandInput, CommandOutput, Config, State};

verus! {

/// Every index of a store of `n` papers, in order.
pub open spec fn all_indices(n: nat) -> Seq<usize> {
    Seq::new(n, |i: int| i as usize)
}

/// The indices of `base` whose paper matches the filter, in order; an index
/// outside the store is dropped.
pub open spec fn select_rec(f: FilterView, papers: Seq<PaperView>, base: Seq<usize>) -> Seq<usize>
    decreases base.len(),
{
    if base.len() == 0 {
        Seq::empty()
    } else {
        let rest = select_rec(f, papers, base.skip(1));
        if base[0] < papers.len() && spec_matches(f, papers[base[0] as int]) {
            seq![base[0]] + rest
        } else {
            rest
        }
    }
}

/// Whatever is selected lies inside the store.
pub proof fn lemma_select_rec_bounds(f: FilterView, papers: Seq<PaperView>, base: Seq<usize>)
    ensures
        forall|k: int|
            0 <= k < select_rec(f, papers, base).len() ==> (select_rec(f, papers, base)[k] as int)
                < papers.len(),
    decreases base.len(),
{
    if base.len() > 0 {
        lemma_select_rec_bounds(f, papers, base.skip(1));
        let rest = select_rec(f, papers, base.skip(1));
        if base[0] < papers.len() && spec_matches(f, papers[base[0] as int]) {
            let whole = seq![base[0]] + rest;
            assert(select_rec(f, papers, base) == whole);
            assert forall|k: int| 0 <= k < whole.len() implies (whole[k] as int) < papers.len() by {
                if k > 0 {
                    assert(whole[k] == rest[k - 1]);
                }
            }
        }
    }
}

/// The arguments after the command name.
pub open spec fn tail_of(args: Seq<Seq<char>>) -> Seq<Seq<char>> {
    if args.len() == 0 {
        args
    } else {
        args.skip(1)
    }
}

/// The selection a listing starts from: the piped list, or the whole store.
pub open spec fn ls_base(piped: Option<Seq<usize>>, n: nat) -> Seq<usize> {
    match piped {
        Some(l) => l,
        None => all_indices(n),
    }
}

/// Clones the arguments after the command name.
pub fn tail_args(args: &Vec<String>) -> (r: Vec<String>)
    ensures
        r.deep_view() == tail_of(args.deep_view()),
{
    let ghost dv = args.deep_view();
    let n: usize = args.len();
    let mut out: Vec<String> = Vec::new();
    let mut i: usize = 1;
    if n == 0 {
        proof {
            assert(out.deep_view() =~= tail_of(dv));
        }
        return out;
    }
    while i < n
        invariant
            1 <= i <= n,
            n == dv.len(),
            dv == args.deep_view(),
            out.deep_view() == dv.subrange(1, i as int),
        decreases n - i,
    {
        let ghost before = out.deep_view();
        out.push(args[i].clone());
        proof {
            assert(dv[i as int] == args[i as int]@);
            assert(out.deep_view() =~= before.push(dv[i as int]));
            assert(before.push(dv[i as int]) =~= dv.subrange(1, i as int + 1));
        }
        i = i + 1;
    }
    proof {
        assert(dv.subrange(1, n as int) =~= dv.skip(1));
    }
    out
}

/// Selects the papers matching the filter built from the arguments, out of
/// the piped selection or, with none, the whole store. Fails exactly when
/// the filter cannot be built; the store is never changed.
pub fn execute(input: CommandInput, state: &mut State, config: &Config) -> (r: Result<
    CommandOutput,
    Fallacy,
>)
    ensures
        final(state)@ == old(state)@,
        match r {
            Ok(out) => match spec_filter_from_args(tail_of(input.args.deep_view())) {
                FilterStep::Done(f) => out matches CommandOutput::Papers(pl) && pl@ == select_rec(
                    f,
                    old(state)@,
                    ls_base(piped_of(&input), old(state)@.len()),
                ),
                _ => false,
            },
            Err(e) => match e {
                Fallacy::MissingValue(s) => spec_filter_from_args(tail_of(input.args.deep_view()))
                    == FilterStep::NoValue(s@),
                Fallacy::FilterBuildFailed(m) => (match spec_filter_from_args(
                    tail_of(input.args.deep_view()),
                ) {
                    FilterStep::BadPattern(p) => m@ == crate::rex::regex_diag_of(p),
                    _ => false,
                }),
                _ => false,
            },
        },
        (match r {
            Ok(CommandOutput::Papers(pl)) => forall|k: int|
                0 <= k < pl@.len() ==> (pl@[k] as int) < old(state)@.len(),
            Ok(_) => false,
            Err(_) => true,
        }),
{
    let ghost papers_v = state@;
    let tail = tail_args(&input.args);
    let filter = match PaperFilter::from_args(&tail) {
        Ok(f) => f,
        Err(e) => {
            return Err(e);
        },
    };
    let n: usize = state.papers.len();
    let base: Vec<usize> = match input.papers {
        Some(l) => l.0,
        None => {
            let mut v: Vec<usize> = Vec::new();
            let mut i: usize = 0;
            while i < n
                invariant
                    0 <= i <= n,
                    v@.len() == i,
                    forall|j: int| 0 <= j < i ==> v@[j] == j as usize,
                decreases n - i,
            {
                v.push(i);
                i = i + 1;
            }
            proof {
                assert(v@ =~= all_indices(papers_v.len()));
            }
            v
        },
    };
    let ghost basev = base@;
    let m: usize = base.len();
    let mut out: Vec<usize> = Vec::new();
    let mut k: usize = 0;
    proof {
        assert(basev.skip(0) =~= basev);
        assert(out@ =~= Seq::<usize>::empty());
    }
    while k < m
        invariant
            0 <= k <= m,
            m == basev.len(),
            basev == base@,
            papers_v == state@,
            n == state.papers.len(),
            select_rec(filter@, papers_v, basev) == out@ + select_rec(
                filter@,
                papers_v,
                basev.skip(k as int),
            ),
        decreases m - k,
    {
        proof {
            assert(basev.skip(k as int)[0] == basev[k as int]);
            assert(basev.skip(k as int).skip(1) =~= basev.skip(k as int + 1));
        }
        let id = base[k];
        if id < n {
            proof {
                assert(state@[id as int] == state.papers[id as int]@);
            }
            if filter.matches(&state.papers[id]) {
                let ghost before = out@;
                out.push(id);
                proof {
                    assert(out@ =~= before.push(basev[k as int]));
                    assert(before.push(basev[k as int]) + select_rec(
                        filter@,
                        papers_v,
                        basev.skip(k as int + 1),
                    ) =~= before + (seq![basev[k as int]] + select_rec(
                        filter@,
                        papers_v,
                        basev.skip(k as int + 1),
                    )));
                }
            }
        }
        k = k + 1;
    }
    proof {
        assert(basev.skip(m as int).len() == 0);
        assert(out@ + Seq::<usize>::empty() =~= out@);
        lemma_select_rec_bounds(filter@, papers_v, basev);
    }
    Ok(CommandOutput::Papers(PaperList(out)))
}

} // verus!
