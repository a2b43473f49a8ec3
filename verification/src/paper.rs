//! The paper record: construction from the build grammar, partial update
//! from the update grammar, and the selection types commands pass around.

use vstd::prelude::*;
use vstd::string::StringExecFns;
use crate::error::Fallacy;
use crate::strutil::{
    contains_string, dedup_strings, join_strings, lemma_dedup_rec_nodup, nodup, spec_dedup,
    spec_join, spec_split_commas, split_commas,
};
use crate::tokenize::{
    empty_tok, spec_tokenize, tokenize, Grammar, TokStep, TokView, TokenMap,
};

verus! {

/// How far a paper has been read. New papers start `Unread`.
#[derive(Clone, Copy, PartialEq, Eq, Structural, Debug)]
pub enum PaperStatus {
    Unread,
    InProgress,
    Read,
}

impl Default for PaperStatus {
    fn default() -> (r: Self)
        ensures
            r is Unread,
    {
        PaperStatus::Unread
    }
}

/// Parses a reading-status word: `unread`, `current` or `read`.
pub open spec fn spec_parse_status(s: Seq<char>) -> Option<PaperStatus> {
    if s == "unread"@ {
        Some(PaperStatus::Unread)
    } else if s == "current"@ {
        Some(PaperStatus::InProgress)
    } else if s == "read"@ {
        Some(PaperStatus::Read)
    } else {
        None
    }
}

/// Executable form of `spec_parse_status`.
pub fn parse_status(s: &String) -> (r: Option<PaperStatus>)
    ensures
        r == spec_parse_status(s@),
{
    if crate::strutil::str_eq(s, "unread") {
        Some(PaperStatus::Unread)
    } else if crate::strutil::str_eq(s, "current") {
        Some(PaperStatus::InProgress)
    } else if crate::strutil::str_eq(s, "read") {
        Some(PaperStatus::Read)
    } else {
        None
    }
}

/// One bibliography entry.
pub struct Paper {
    pub title: String,
    pub nickname: Option<String>,
    pub authors: Vec<String>,
    pub venue: String,
    pub year: String,
    pub filepath: Option<String>,
    pub labels: Vec<String>,
    pub notepath: Option<String>,
    pub wikipath: Option<String>,
    pub progress: PaperStatus,
}

/// The mathematical view of a paper.
#[verifier::ext_equal]
pub struct PaperView {
    pub title: Seq<char>,
    pub nickname: Option<Seq<char>>,
    pub authors: Seq<Seq<char>>,
    pub venue: Seq<char>,
    pub year: Seq<char>,
    pub filepath: Option<Seq<char>>,
    pub labels: Seq<Seq<char>>,
    pub notepath: Option<Seq<char>>,
    pub wikipath: Option<Seq<char>>,
    pub progress: PaperStatus,
}

impl View for Paper {
    type V = PaperView;

    open spec fn view(&self) -> PaperView {
        PaperView {
            title: self.title@,
            nickname: self.nickname.deep_view(),
            authors: self.authors.deep_view(),
            venue: self.venue@,
            year: self.year@,
            filepath: self.filepath.deep_view(),
            labels: self.labels.deep_view(),
            notepath: self.notepath.deep_view(),
            wikipath: self.wikipath.deep_view(),
            progress: self.progress,
        }
    }
}

/// A paper is well formed when it has at least one author and no label twice.
pub open spec fn spec_wf(p: PaperView) -> bool {
    p.authors.len() > 0 && nodup(p.labels)
}

/// The author list a token map provides: its `by` value split at commas.
pub open spec fn build_authors(m: TokView) -> Seq<Seq<char>> {
    match m.authors {
        Some(a) => spec_split_commas(a),
        None => Seq::empty(),
    }
}

/// The names of the required fields the token map leaves empty, in the fixed
/// report order: title, authors, venue, year.
pub open spec fn build_missing(m: TokView) -> Seq<Seq<char>> {
    (if m.title is None {
        seq!["title"@]
    } else {
        Seq::empty()
    }) + (if build_authors(m).len() == 0 {
        seq!["authors"@]
    } else {
        Seq::empty()
    }) + (if m.venue is None {
        seq!["venue"@]
    } else {
        Seq::empty()
    }) + (if m.year is None {
        seq!["year"@]
    } else {
        Seq::empty()
    })
}

/// The comma-split pieces of an optional value.
pub open spec fn split_of(o: Option<Seq<char>>) -> Seq<Seq<char>> {
    match o {
        Some(s) => spec_split_commas(s),
        None => Seq::empty(),
    }
}

/// The paper a complete build token map constructs.
pub open spec fn spec_build(m: TokView) -> PaperView {
    PaperView {
        title: m.title->0,
        nickname: m.nickname,
        authors: build_authors(m),
        venue: m.venue->0,
        year: m.year->0,
        filepath: m.filepath,
        labels: match m.labels_add {
            Some(l) => spec_dedup(spec_split_commas(l)),
            None => Seq::empty(),
        },
        notepath: None,
        wikipath: None,
        progress: PaperStatus::Unread,
    }
}

/// `ls` with `x` appended unless already present.
pub open spec fn add_one(ls: Seq<Seq<char>>, x: Seq<char>) -> Seq<Seq<char>> {
    if ls.contains(x) {
        ls
    } else {
        ls.push(x)
    }
}

/// `ls` with each of `adds` added in order, each at most once.
pub open spec fn add_labels(ls: Seq<Seq<char>>, adds: Seq<Seq<char>>) -> Seq<Seq<char>>
    decreases adds.len(),
{
    if adds.len() == 0 {
        ls
    } else {
        add_labels(add_one(ls, adds[0]), adds.skip(1))
    }
}

/// `ls` with every item of `rems` removed, order of the rest kept.
pub open spec fn remove_labels(ls: Seq<Seq<char>>, rems: Seq<Seq<char>>) -> Seq<Seq<char>>
    decreases ls.len(),
{
    if ls.len() == 0 {
        ls
    } else if rems.contains(ls[0]) {
        remove_labels(ls.skip(1), rems)
    } else {
        seq![ls[0]] + remove_labels(ls.skip(1), rems)
    }
}

/// An update is applicable unless it would leave the paper without authors.
pub open spec fn apply_ok(m: TokView) -> bool {
    m.authors is Some ==> spec_split_commas(m.authors->0).len() > 0
}

/// The paper after an update token map is applied, fields in the fixed order
/// title, nickname, authors, venue, year, added labels, removed labels.
pub open spec fn spec_apply(p: PaperView, m: TokView) -> PaperView {
    PaperView {
        title: if m.title is Some {
            m.title->0
        } else {
            p.title
        },
        nickname: if m.nickname is Some {
            m.nickname
        } else {
            p.nickname
        },
        authors: if m.authors is Some {
            spec_split_commas(m.authors->0)
        } else {
            p.authors
        },
        venue: if m.venue is Some {
            m.venue->0
        } else {
            p.venue
        },
        year: if m.year is Some {
            m.year->0
        } else {
            p.year
        },
        filepath: p.filepath,
        labels: remove_labels(
            add_labels(p.labels, split_of(m.labels_add)),
            split_of(m.labels_remove),
        ),
        notepath: p.notepath,
        wikipath: p.wikipath,
        progress: p.progress,
    }
}

/// Whatever was removed is gone: removal never keeps an item of `rems`.
pub proof fn lemma_remove_labels_excludes(ls: Seq<Seq<char>>, rems: Seq<Seq<char>>, x: Seq<char>)
    requires
        rems.contains(x),
    ensures
        !remove_labels(ls, rems).contains(x),
    decreases ls.len(),
{
    if ls.len() > 0 {
        lemma_remove_labels_excludes(ls.skip(1), rems, x);
        if !rems.contains(ls[0]) {
            let r = seq![ls[0]] + remove_labels(ls.skip(1), rems);
            assert forall|i: int| 0 <= i < r.len() implies r[i] != x by {
                if i > 0 {
                    assert(r[i] == remove_labels(ls.skip(1), rems)[i - 1]);
                    assert(remove_labels(ls.skip(1), rems).contains(r[i])) by {
                        assert(remove_labels(ls.skip(1), rems)[i - 1] == r[i]);
                    }
                }
            }
            if r.contains(x) {
                let i = choose|i: int| 0 <= i < r.len() && r[i] == x;
                assert(false);
            }
        }
    }
}

/// What removal keeps was already there.
pub proof fn lemma_remove_labels_subset(ls: Seq<Seq<char>>, rems: Seq<Seq<char>>, x: Seq<char>)
    requires
        remove_labels(ls, rems).contains(x),
    ensures
        ls.contains(x),
    decreases ls.len(),
{
    if ls.len() > 0 {
        let tail = remove_labels(ls.skip(1), rems);
        if rems.contains(ls[0]) {
            lemma_remove_labels_subset(ls.skip(1), rems, x);
            let i = choose|i: int| 0 <= i < ls.skip(1).len() && ls.skip(1)[i] == x;
            assert(ls[i + 1] == x);
        } else {
            let r = seq![ls[0]] + tail;
            let i = choose|i: int| 0 <= i < r.len() && r[i] == x;
            if i == 0 {
                assert(ls[0] == x);
            } else {
                assert(tail[i - 1] == x);
                assert(tail.contains(x));
                lemma_remove_labels_subset(ls.skip(1), rems, x);
                let j = choose|j: int| 0 <= j < ls.skip(1).len() && ls.skip(1)[j] == x;
                assert(ls[j + 1] == x);
            }
        }
    }
}

/// Removal keeps the no-duplicates invariant.
pub proof fn lemma_remove_labels_nodup(ls: Seq<Seq<char>>, rems: Seq<Seq<char>>)
    requires
        nodup(ls),
    ensures
        nodup(remove_labels(ls, rems)),
    decreases ls.len(),
{
    if ls.len() > 0 {
        assert forall|i: int, j: int|
            0 <= i < j < ls.skip(1).len() implies ls.skip(1)[i] != ls.skip(1)[j] by {
            assert(ls.skip(1)[i] == ls[i + 1] && ls.skip(1)[j] == ls[j + 1]);
        }
        lemma_remove_labels_nodup(ls.skip(1), rems);
        if !rems.contains(ls[0]) {
            let tail = remove_labels(ls.skip(1), rems);
            let r = seq![ls[0]] + tail;
            assert forall|i: int, j: int| 0 <= i < j < r.len() implies r[i] != r[j] by {
                if i == 0 {
                    assert(r[j] == tail[j - 1]);
                    assert(tail.contains(tail[j - 1]));
                    lemma_remove_labels_subset(ls.skip(1), rems, tail[j - 1]);
                    let k = choose|k: int|
                        0 <= k < ls.skip(1).len() && ls.skip(1)[k] == tail[j - 1];
                    assert(ls[k + 1] == tail[j - 1]);
                } else {
                    assert(r[i] == tail[i - 1] && r[j] == tail[j - 1]);
                }
            }
        }
    }
}

/// Adding keeps the no-duplicates invariant.
pub proof fn lemma_add_labels_nodup(ls: Seq<Seq<char>>, adds: Seq<Seq<char>>)
    requires
        nodup(ls),
    ensures
        nodup(add_labels(ls, adds)),
    decreases adds.len(),
{
    if adds.len() > 0 {
        let l2 = add_one(ls, adds[0]);
        if !ls.contains(adds[0]) {
            assert forall|i: int, j: int| 0 <= i < j < l2.len() implies l2[i] != l2[j] by {
                if j == l2.len() - 1 {
                    if ls[i] == adds[0] {
                        assert(ls.contains(adds[0]));
                    }
                }
            }
        }
        lemma_add_labels_nodup(l2, adds.skip(1));
    }
}

/// Removing nothing changes nothing.
pub proof fn lemma_remove_labels_none(ls: Seq<Seq<char>>)
    ensures
        remove_labels(ls, Seq::empty()) == ls,
    decreases ls.len(),
{
    if ls.len() > 0 {
        if Seq::<Seq<char>>::empty().contains(ls[0]) {
            let i = choose|i: int|
                0 <= i < Seq::<Seq<char>>::empty().len() && Seq::<Seq<char>>::empty()[i] == ls[0];
            assert(false);
        }
        lemma_remove_labels_none(ls.skip(1));
        assert(seq![ls[0]] + ls.skip(1) =~= ls);
    }
}

/// Law: a build whose arguments provide no title, no authors, no venue and
/// no year reports all four field names in one message, in the fixed order.
pub proof fn lemma_all_fields_missing(m: TokView)
    requires
        m.title is None,
        m.authors is None,
        m.venue is None,
        m.year is None,
    ensures
        build_missing(m) == seq!["title"@, "authors"@, "venue"@, "year"@],
        spec_join(build_missing(m), ", "@) == "title, authors, venue, year"@,
{
    assert(build_missing(m) =~= seq!["title"@, "authors"@, "venue"@, "year"@]);
    let items = seq!["title"@, "authors"@, "venue"@, "year"@];
    assert(items.take(3) =~= seq!["title"@, "authors"@, "venue"@]);
    assert(items.take(3).take(2) =~= seq!["title"@, "authors"@]);
    assert(items.take(3).take(2).take(1) =~= seq!["title"@]);
    reveal_strlit("title");
    reveal_strlit("authors");
    reveal_strlit("venue");
    reveal_strlit("year");
    reveal_strlit(", ");
    reveal_strlit("title, authors, venue, year");
    let sep = ", "@;
    assert(spec_join(items.take(3).take(2).take(1), sep) == "title"@);
    let j2 = spec_join(items.take(3).take(2), sep);
    assert(j2 == "title"@ + sep + "authors"@);
    let j3 = spec_join(items.take(3), sep);
    assert(j3 == j2 + sep + "venue"@);
    let j4 = spec_join(items, sep);
    assert(j4 == j3 + sep + "year"@);
    assert(j4 =~= "title, authors, venue, year"@);
}

/// Law: a label that the update removes is absent afterwards, even when the
/// same update also adds it — removal is applied after addition.
pub proof fn lemma_label_remove_wins(p: PaperView, m: TokView, x: Seq<char>)
    requires
        m.labels_remove is Some,
        spec_split_commas(m.labels_remove->0).contains(x),
    ensures
        !spec_apply(p, m).labels.contains(x),
{
    lemma_remove_labels_excludes(
        add_labels(p.labels, split_of(m.labels_add)),
        split_of(m.labels_remove),
        x,
    );
}

/// Law: an update given no arguments at all tokenizes to the empty map and
/// changes nothing.
pub proof fn lemma_noop_update(p: PaperView)
    ensures
        spec_tokenize(Grammar::Update, Seq::empty()) == TokStep::Done(empty_tok()),
        apply_ok(empty_tok()),
        spec_apply(p, empty_tok()) == p,
{
    lemma_remove_labels_none(p.labels);
    assert(spec_apply(p, empty_tok()) =~= p);
}

/// Law: an update whose single argument is no recognized keyword tokenizes
/// to a map holding only that free-text token, and applying it changes
/// exactly the title.
pub proof fn lemma_free_text_update(p: PaperView, t: Seq<char>)
    requires
        crate::tokenize::keyword_of(Grammar::Update, t) is None,
    ensures
        spec_tokenize(Grammar::Update, seq![t]) == TokStep::Done(
            TokView { title: Some(t), ..empty_tok() },
        ),
        spec_apply(p, TokView { title: Some(t), ..empty_tok() }) == (PaperView { title: t, ..p }),
{
    let args = seq![t];
    assert(args.skip(1) =~= Seq::<Seq<char>>::empty());
    let m2 = TokView { title: Some(t), ..empty_tok() };
    assert(args[0] == t && args.len() == 1);
    assert(crate::tokenize::tok_rec(Grammar::Update, args, empty_tok())
        == crate::tokenize::tok_rec(Grammar::Update, args.skip(1), m2));
    assert(crate::tokenize::tok_rec(Grammar::Update, args.skip(1), m2) == TokStep::Done(m2));
    lemma_remove_labels_none(p.labels);
    assert(spec_apply(p, TokView { title: Some(t), ..empty_tok() }) =~= PaperView {
        title: t,
        ..p
    });
}

fn apply_labels_add(labels: &mut Vec<String>, adds: &Vec<String>)
    ensures
        final(labels).deep_view() == add_labels(old(labels).deep_view(), adds.deep_view()),
{
    let ghost goal = add_labels(labels.deep_view(), adds.deep_view());
    let ghost advs = adds.deep_view();
    let n: usize = adds.len();
    let mut i: usize = 0;
    proof {
        assert(advs.skip(0) =~= advs);
    }
    while i < n
        invariant
            0 <= i <= n,
            n == advs.len(),
            advs == adds.deep_view(),
            add_labels(labels.deep_view(), advs.skip(i as int)) == goal,
        decreases n - i,
    {
        proof {
            assert(advs.skip(i as int)[0] == advs[i as int]);
            assert(advs.skip(i as int).skip(1) =~= advs.skip(i as int + 1));
            assert(advs[i as int] == adds[i as int]@);
        }
        if !contains_string(labels, &adds[i]) {
            let ghost before = labels.deep_view();
            labels.push(adds[i].clone());
            proof {
                assert(labels.deep_view() =~= before.push(advs[i as int]));
            }
        }
        i = i + 1;
    }
    proof {
        assert(advs.skip(n as int).len() == 0);
    }
}

fn apply_labels_remove(labels: &Vec<String>, rems: &Vec<String>) -> (r: Vec<String>)
    ensures
        r.deep_view() == remove_labels(labels.deep_view(), rems.deep_view()),
{
    let ghost lsv = labels.deep_view();
    let ghost rmv = rems.deep_view();
    let n: usize = labels.len();
    let mut out: Vec<String> = Vec::new();
    let mut i: usize = 0;
    proof {
        assert(lsv.skip(0) =~= lsv);
        assert(out.deep_view() =~= Seq::<Seq<char>>::empty());
    }
    while i < n
        invariant
            0 <= i <= n,
            n == lsv.len(),
            lsv == labels.deep_view(),
            rmv == rems.deep_view(),
            remove_labels(lsv, rmv) == out.deep_view() + remove_labels(lsv.skip(i as int), rmv),
        decreases n - i,
    {
        proof {
            assert(lsv.skip(i as int)[0] == lsv[i as int]);
            assert(lsv.skip(i as int).skip(1) =~= lsv.skip(i as int + 1));
            assert(lsv[i as int] == labels[i as int]@);
        }
        if !contains_string(rems, &labels[i]) {
            let ghost before = out.deep_view();
            out.push(labels[i].clone());
            proof {
                assert(out.deep_view() =~= before.push(lsv[i as int]));
                assert(before.push(lsv[i as int]) + remove_labels(lsv.skip(i as int + 1), rmv)
                    =~= before + (seq![lsv[i as int]] + remove_labels(
                    lsv.skip(i as int + 1),
                    rmv,
                )));
            }
        }
        i = i + 1;
    }
    proof {
        assert(lsv.skip(n as int).len() == 0);
        assert(out.deep_view() + Seq::<Seq<char>>::empty() =~= out.deep_view());
    }
    out
}

impl Paper {
    /// Builds a paper from construction-grammar arguments (the command name
    /// already removed). Succeeds exactly when the arguments tokenize
    /// cleanly and title (free text), authors (`by`), venue (`at`) and year
    /// (`in`) are all present; otherwise one missing-fields failure names
    /// every absent field. Authors and labels are split at commas and
    /// trimmed; labels keep one copy of each name.
    pub fn from_args(args: &Vec<String>) -> (r: Result<Paper, Fallacy>)
        ensures
            match r {
                Ok(p) => spec_tokenize(Grammar::Build, args.deep_view()) matches TokStep::Done(m)
                    && build_missing(m).len() == 0 && p@ == spec_build(m) && spec_wf(p@),
                Err(f) => match f {
                    Fallacy::PaperDuplicateField(s) => spec_tokenize(
                        Grammar::Build,
                        args.deep_view(),
                    ) == TokStep::Dup(s@),
                    Fallacy::MissingValue(s) => spec_tokenize(Grammar::Build, args.deep_view())
                        == TokStep::Missing(s@),
                    Fallacy::PaperMissingFields(msg) => spec_tokenize(
                        Grammar::Build,
                        args.deep_view(),
                    ) matches TokStep::Done(m) && build_missing(m).len() > 0 && msg@ == spec_join(
                        build_missing(m),
                        ", "@,
                    ),
                    _ => false,
                },
            },
    {
        let m = match tokenize(Grammar::Build, args) {
            Ok(m) => m,
            Err(f) => {
                return Err(f);
            },
        };
        let ghost mv = m@;
        let authors: Vec<String> = match &m.authors {
            Some(a) => split_commas(a.as_str()),
            None => Vec::new(),
        };
        proof {
            assert(authors.deep_view() =~= build_authors(mv));
        }
        let mut missing: Vec<String> = Vec::new();
        if m.title.is_none() {
            missing.push(String::from_str("title"));
        }
        if authors.len() == 0 {
            missing.push(String::from_str("authors"));
        }
        if m.venue.is_none() {
            missing.push(String::from_str("venue"));
        }
        if m.year.is_none() {
            missing.push(String::from_str("year"));
        }
        proof {
            assert(missing.deep_view() =~= build_missing(mv));
        }
        if missing.len() > 0 {
            let msg = join_strings(&missing, ", ");
            return Err(Fallacy::PaperMissingFields(msg));
        }
        let labels: Vec<String> = match &m.labels_add {
            Some(l) => dedup_strings(&split_commas(l.as_str())),
            None => Vec::new(),
        };
        proof {
            lemma_dedup_rec_nodup(
                match mv.labels_add {
                    Some(l) => spec_split_commas(l),
                    None => Seq::empty(),
                },
                Seq::empty(),
            );
        }
        let title = match m.title {
            Some(t) => t,
            None => {
                proof {
                    assert(false);
                }
                String::new()
            },
        };
        let venue = match m.venue {
            Some(v) => v,
            None => {
                proof {
                    assert(false);
                }
                String::new()
            },
        };
        let year = match m.year {
            Some(y) => y,
            None => {
                proof {
                    assert(false);
                }
                String::new()
            },
        };
        let p = Paper {
            title,
            nickname: m.nickname,
            authors,
            venue,
            year,
            filepath: m.filepath,
            labels,
            notepath: None,
            wikipath: None,
            progress: PaperStatus::Unread,
        };
        proof {
            assert(p@ =~= spec_build(mv));
        }
        Ok(p)
    }

    /// Applies update-grammar arguments to this paper, all-or-nothing: any
    /// tokenizing failure, or an author list that would become empty, leaves
    /// the paper untouched. Fields are applied in the fixed order title,
    /// nickname, authors, venue, year, added labels, removed labels, so a
    /// label both added and removed ends up absent.
    pub fn apply_from_args(&mut self, args: &Vec<String>) -> (r: Result<(), Fallacy>)
        ensures
            match r {
                Ok(()) => spec_tokenize(Grammar::Update, args.deep_view()) matches TokStep::Done(m)
                    && apply_ok(m) && final(self)@ == spec_apply(old(self)@, m) && (spec_wf(
                    old(self)@,
                ) ==> spec_wf(final(self)@)),
                Err(f) => final(self)@ == old(self)@ && match f {
                    Fallacy::PaperDuplicateField(s) => spec_tokenize(
                        Grammar::Update,
                        args.deep_view(),
                    ) == TokStep::Dup(s@),
                    Fallacy::MissingValue(s) => spec_tokenize(Grammar::Update, args.deep_view())
                        == TokStep::Missing(s@),
                    Fallacy::PaperMissingFields(msg) => spec_tokenize(
                        Grammar::Update,
                        args.deep_view(),
                    ) matches TokStep::Done(m) && !apply_ok(m) && msg@ == "authors"@,
                    _ => false,
                },
            },
    {
        let m = match tokenize(Grammar::Update, args) {
            Ok(m) => m,
            Err(f) => {
                return Err(f);
            },
        };
        let ghost mv = m@;
        let ghost p0 = self@;
        let authors_new: Option<Vec<String>> = match &m.authors {
            Some(a) => Some(split_commas(a.as_str())),
            None => None,
        };
        if let Some(v) = &authors_new {
            if v.len() == 0 {
                proof {
                    reveal_strlit("authors");
                }
                return Err(Fallacy::PaperMissingFields(String::from_str("authors")));
            }
        }
        let TokenMap { title, nickname, venue, year, labels_add, labels_remove, .. } = m;
        if let Some(t) = title {
            self.title = t;
        }
        if let Some(nk) = nickname {
            self.nickname = Some(nk);
        }
        if let Some(v) = authors_new {
            self.authors = v;
        }
        if let Some(vn) = venue {
            self.venue = vn;
        }
        if let Some(y) = year {
            self.year = y;
        }
        if let Some(l) = &labels_add {
            let adds = split_commas(l.as_str());
            apply_labels_add(&mut self.labels, &adds);
        }
        proof {
            assert(self.labels.deep_view() == add_labels(p0.labels, split_of(mv.labels_add)));
        }
        if let Some(l) = &labels_remove {
            let rems = split_commas(l.as_str());
            self.labels = apply_labels_remove(&self.labels, &rems);
        } else {
            proof {
                lemma_remove_labels_none(self.labels.deep_view());
            }
        }
        proof {
            assert(self@ =~= spec_apply(p0, mv));
            if spec_wf(p0) {
                lemma_add_labels_nodup(p0.labels, split_of(mv.labels_add));
                lemma_remove_labels_nodup(
                    add_labels(p0.labels, split_of(mv.labels_add)),
                    split_of(mv.labels_remove),
                );
            }
        }
        Ok(())
    }
}

impl DeepView for Paper {
    type V = PaperView;

    open spec fn deep_view(&self) -> PaperView {
        self.view()
    }
}

/// An ordered selection of store indices: what one command pipes to the next.
/// It is a view into the store, valid only for the store it was computed
/// against within one command line.
pub struct PaperList(pub Vec<usize>);

impl View for PaperList {
    type V = Seq<usize>;

    open spec fn view(&self) -> Seq<usize> {
        self.0@
    }
}

/// A borrowed list of papers, handed to the rendering sink.
pub struct Papers<'p>(pub Vec<&'p Paper>);

impl<'p> Papers<'p> {
    /// An empty list.
    pub fn new() -> (r: Self)
        ensures
            r.0@.len() == 0,
    {
        Papers(Vec::new())
    }

    /// Appends one paper.
    pub fn push(&mut self, paper: &'p Paper)
        ensures
            final(self).0@ == old(self).0@.push(paper),
    {
        self.0.push(paper);
    }
}

} // verus!
