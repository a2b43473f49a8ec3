//! Multi-field pattern filters over papers: built from filter-grammar
//! arguments, merged field-wise, and evaluated as a conjunction across
//! fields with a disjunction within each field's pattern list.

use vstd::prelude::*;
use crate::error::Fallacy;
use crate::paper::{Paper, PaperView};
use crate::rex::{is_literal_pattern, regex_check, regex_compiles, regex_diag_of, regex_found, regex_search};
use crate::strutil::{contains_seq, str_eq};

verus! {

/// One compiled search pattern, remembered by its source text.
pub struct Pattern {
    source: String,
}

impl View for Pattern {
    type V = Seq<char>;

    closed spec fn view(&self) -> Seq<char> {
        self.source@
    }
}

impl DeepView for Pattern {
    type V = Seq<char>;

    open spec fn deep_view(&self) -> Seq<char> {
        self.view()
    }
}

impl Pattern {
    /// Every pattern a filter holds is one the regex engine accepts.
    #[verifier::type_invariant]
    pub closed spec fn inv(self) -> bool {
        regex_compiles(self.source@)
    }

    /// Compiles a pattern: succeeds exactly when the regex engine accepts
    /// the text; otherwise the failure carries the engine's diagnostic.
    pub fn new(s: &String) -> (r: Result<Pattern, Fallacy>)
        ensures
            match r {
                Ok(p) => regex_compiles(s@) && p@ == s@,
                Err(f) => !regex_compiles(s@) && (match f {
                    Fallacy::FilterBuildFailed(m) => m@ == regex_diag_of(s@),
                    _ => false,
                }),
            },
    {
        match regex_check(s.as_str()) {
            None => Ok(Pattern { source: s.clone() }),
            Some(msg) => Err(Fallacy::FilterBuildFailed(msg)),
        }
    }

    /// The pattern's source text.
    pub fn source(&self) -> (r: &str)
        ensures
            r@ == self@,
    {
        self.source.as_str()
    }

    /// Whether the pattern finds a match anywhere in `t`.
    pub fn matches_str(&self, t: &str) -> (r: bool)
        ensures
            r == regex_found(self@, t@),
            is_literal_pattern(self@) ==> r == contains_seq(t@, self@),
    {
        proof {
            use_type_invariant(self);
        }
        regex_search(self.source.as_str(), t)
    }
}

impl Clone for Pattern {
    fn clone(&self) -> (r: Self)
        ensures
            r@ == self@,
    {
        proof {
            use_type_invariant(self);
        }
        Pattern { source: self.source.clone() }
    }
}

/// A per-field disjunctive pattern query: a paper matches when every field
/// with at least one pattern matches one of them.
pub struct PaperFilter {
    pub title: Vec<Pattern>,
    pub nickname: Vec<Pattern>,
    pub author: Vec<Pattern>,
    pub first_author: Vec<Pattern>,
    pub venue: Vec<Pattern>,
    pub year: Vec<Pattern>,
}

/// The mathematical view of a filter: each field's pattern sources.
#[verifier::ext_equal]
pub struct FilterView {
    pub title: Seq<Seq<char>>,
    pub nickname: Seq<Seq<char>>,
    pub author: Seq<Seq<char>>,
    pub first_author: Seq<Seq<char>>,
    pub venue: Seq<Seq<char>>,
    pub year: Seq<Seq<char>>,
}

impl View for PaperFilter {
    type V = FilterView;

    open spec fn view(&self) -> FilterView {
        FilterView {
            title: self.title.deep_view(),
            nickname: self.nickname.deep_view(),
            author: self.author.deep_view(),
            first_author: self.first_author.deep_view(),
            venue: self.venue.deep_view(),
            year: self.year.deep_view(),
        }
    }
}

impl DeepView for PaperFilter {
    type V = FilterView;

    open spec fn deep_view(&self) -> FilterView {
        self.view()
    }
}

/// The filter with no patterns at all: the identity filter.
pub open spec fn empty_filter() -> FilterView {
    FilterView {
        title: Seq::empty(),
        nickname: Seq::empty(),
        author: Seq::empty(),
        first_author: Seq::empty(),
        venue: Seq::empty(),
        year: Seq::empty(),
    }
}

impl Default for PaperFilter {
    fn default() -> (r: Self)
        ensures
            r@ == empty_filter(),
    {
        let r = PaperFilter {
            title: Vec::new(),
            nickname: Vec::new(),
            author: Vec::new(),
            first_author: Vec::new(),
            venue: Vec::new(),
            year: Vec::new(),
        };
        proof {
            assert(r@ =~= empty_filter());
        }
        r
    }
}

/// The filter field a keyword selects: `as, by, by1, at, on, in`; any other
/// token is itself a title pattern.
pub enum FField {
    Title,
    Nickname,
    Author,
    FirstAuthor,
    Venue,
    Year,
}

/// Which field a filter keyword selects.
pub open spec fn filter_kw(tok: Seq<char>) -> Option<FField> {
    if tok == "as"@ {
        Some(FField::Nickname)
    } else if tok == "by"@ {
        Some(FField::Author)
    } else if tok == "by1"@ {
        Some(FField::FirstAuthor)
    } else if tok == "at"@ || tok == "on"@ {
        Some(FField::Venue)
    } else if tok == "in"@ {
        Some(FField::Year)
    } else {
        None
    }
}

/// The view with one pattern appended to one field's list.
pub open spec fn fpush(f: FilterView, field: FField, p: Seq<char>) -> FilterView {
    match field {
        FField::Title => FilterView { title: f.title.push(p), ..f },
        FField::Nickname => FilterView { nickname: f.nickname.push(p), ..f },
        FField::Author => FilterView { author: f.author.push(p), ..f },
        FField::FirstAuthor => FilterView { first_author: f.first_author.push(p), ..f },
        FField::Venue => FilterView { venue: f.venue.push(p), ..f },
        FField::Year => FilterView { year: f.year.push(p), ..f },
    }
}

/// The outcome of building a filter: the finished view, a pattern the regex
/// engine refused, or a keyword missing its value.
pub enum FilterStep {
    Done(FilterView),
    BadPattern(Seq<char>),
    NoValue(Seq<char>),
}

/// One pass over the arguments: a keyword takes the next token as a pattern
/// for its field (keywords may repeat, each occurrence appending an
/// alternative), any other token is a title pattern.
pub open spec fn filter_rec(args: Seq<Seq<char>>, f: FilterView) -> FilterStep
    decreases args.len(),
{
    if args.len() == 0 {
        FilterStep::Done(f)
    } else {
        match filter_kw(args[0]) {
            Some(field) => {
                if args.len() == 1 {
                    FilterStep::NoValue(args[0])
                } else if !regex_compiles(args[1]) {
                    FilterStep::BadPattern(args[1])
                } else {
                    filter_rec(args.skip(2), fpush(f, field, args[1]))
                }
            },
            None => {
                if !regex_compiles(args[0]) {
                    FilterStep::BadPattern(args[0])
                } else {
                    filter_rec(args.skip(1), fpush(f, FField::Title, args[0]))
                }
            },
        }
    }
}

/// What building a filter from an argument list yields.
pub open spec fn spec_filter_from_args(args: Seq<Seq<char>>) -> FilterStep {
    filter_rec(args, empty_filter())
}

/// Appends `b`'s patterns after `a`'s, field by field.
pub open spec fn fappend(a: FilterView, b: FilterView) -> FilterView {
    FilterView {
        title: a.title + b.title,
        nickname: a.nickname + b.nickname,
        author: a.author + b.author,
        first_author: a.first_author + b.first_author,
        venue: a.venue + b.venue,
        year: a.year + b.year,
    }
}

/// The field-wise concatenation of several filters.
pub open spec fn merge_of(fs: Seq<FilterView>) -> FilterView
    decreases fs.len(),
{
    if fs.len() == 0 {
        empty_filter()
    } else {
        fappend(merge_of(fs.drop_last()), fs.last())
    }
}

fn clone_patterns_into(dst: &mut Vec<Pattern>, src: &Vec<Pattern>)
    ensures
        final(dst).deep_view() == old(dst).deep_view() + src.deep_view(),
{
    let ghost base = dst.deep_view();
    let n: usize = src.len();
    let mut i: usize = 0;
    while i < n
        invariant
            0 <= i <= n,
            n == src.deep_view().len(),
            dst.deep_view() == base + src.deep_view().take(i as int),
        decreases n - i,
    {
        let ghost before = dst.deep_view();
        dst.push(src[i].clone());
        proof {
            assert(src.deep_view()[i as int] == src[i as int]@);
            assert(dst.deep_view() =~= before.push(src.deep_view()[i as int]));
            assert(before.push(src.deep_view()[i as int]) =~= base + src.deep_view().take(
                i as int + 1,
            ));
        }
        i = i + 1;
    }
    proof {
        assert(src.deep_view().take(n as int) =~= src.deep_view());
    }
}

/// Whether a field's pattern list is satisfied by a value: an empty list
/// imposes no constraint, a non-empty one needs one matching pattern.
pub open spec fn spec_field_matches(pats: Seq<Seq<char>>, value: Seq<char>) -> bool {
    pats.len() == 0 || exists|i: int| 0 <= i < pats.len() && regex_found(#[trigger] pats[i], value)
}

/// The string an optional field exposes to matching: its value, or empty.
pub open spec fn opt_str(o: Option<Seq<char>>) -> Seq<char> {
    match o {
        Some(s) => s,
        None => Seq::empty(),
    }
}

/// Whether one pattern matches at least one of the authors.
pub open spec fn author_any(p: Seq<char>, authors: Seq<Seq<char>>) -> bool {
    exists|j: int| 0 <= j < authors.len() && regex_found(p, #[trigger] authors[j])
}

/// Whether the author field is satisfied: some pattern matches some author.
pub open spec fn spec_author_matches(pats: Seq<Seq<char>>, authors: Seq<Seq<char>>) -> bool {
    pats.len() == 0 || exists|i: int|
        0 <= i < pats.len() && author_any(#[trigger] pats[i], authors)
}

/// Whether a paper satisfies a filter: every constrained field matches, the
/// first-author field against the first author only (and not at all when the
/// paper has no authors).
pub open spec fn spec_matches(f: FilterView, p: PaperView) -> bool {
    spec_field_matches(f.title, p.title) && spec_field_matches(f.nickname, opt_str(p.nickname))
        && spec_author_matches(f.author, p.authors) && (f.first_author.len() == 0 || (
    p.authors.len() > 0 && spec_field_matches(f.first_author, p.authors[0])))
        && spec_field_matches(f.venue, p.venue) && spec_field_matches(f.year, p.year)
}

fn field_matches(pats: &Vec<Pattern>, value: &str) -> (r: bool)
    ensures
        r == spec_field_matches(pats.deep_view(), value@),
        (exists|i: int|
            0 <= i < pats.deep_view().len() && is_literal_pattern(#[trigger] pats.deep_view()[i])
                && contains_seq(value@, pats.deep_view()[i])) ==> r,
        (pats.deep_view().len() > 0 && forall|i: int|
            0 <= i < pats.deep_view().len() ==> is_literal_pattern(#[trigger] pats.deep_view()[i])
                && !contains_seq(value@, pats.deep_view()[i])) ==> !r,
{
    let ghost dv = pats.deep_view();
    let n: usize = pats.len();
    let mut found = false;
    let mut i: usize = 0;
    while i < n
        invariant
            0 <= i <= n,
            n == dv.len(),
            dv == pats.deep_view(),
            found == exists|j: int| 0 <= j < i && regex_found(#[trigger] dv[j], value@),
            forall|j: int|
                0 <= j < i && is_literal_pattern(#[trigger] dv[j]) ==> regex_found(dv[j], value@)
                    == contains_seq(value@, dv[j]),
        decreases n - i,
    {
        proof {
            assert(dv[i as int] == pats[i as int]@);
        }
        let m = pats[i].matches_str(value);
        if m {
            proof {
                assert(regex_found(dv[i as int], value@));
            }
            found = true;
        }
        i = i + 1;
    }
    if n == 0 {
        return true;
    }
    found
}

fn one_author_matches(p: &Pattern, authors: &Vec<String>) -> (r: bool)
    ensures
        r == author_any(p@, authors.deep_view()),
{
    let ghost av = authors.deep_view();
    let na: usize = authors.len();
    let mut found = false;
    let mut j: usize = 0;
    while j < na
        invariant
            0 <= j <= na,
            na == av.len(),
            av == authors.deep_view(),
            found == exists|y: int| 0 <= y < j && regex_found(p@, #[trigger] av[y]),
        decreases na - j,
    {
        proof {
            assert(av[j as int] == authors[j as int]@);
        }
        let m = p.matches_str(authors[j].as_str());
        if m {
            proof {
                assert(regex_found(p@, av[j as int]));
            }
            found = true;
        }
        j = j + 1;
    }
    found
}

fn author_matches(pats: &Vec<Pattern>, authors: &Vec<String>) -> (r: bool)
    ensures
        r == spec_author_matches(pats.deep_view(), authors.deep_view()),
{
    let ghost dv = pats.deep_view();
    let ghost av = authors.deep_view();
    let np: usize = pats.len();
    if np == 0 {
        return true;
    }
    let mut found = false;
    let mut i: usize = 0;
    while i < np
        invariant
            0 <= i <= np,
            np == dv.len(),
            dv == pats.deep_view(),
            av == authors.deep_view(),
            found == exists|x: int| 0 <= x < i && author_any(#[trigger] dv[x], av),
        decreases np - i,
    {
        proof {
            assert(dv[i as int] == pats[i as int]@);
        }
        let m = one_author_matches(&pats[i], authors);
        if m {
            proof {
                assert(author_any(dv[i as int], av));
            }
            found = true;
        }
        i = i + 1;
    }
    found
}

impl PaperFilter {
    /// Accepts filter arguments given to commands (the command name already
    /// removed) and builds a filter. Keywords may repeat: each occurrence
    /// appends an alternative pattern to its field; bare tokens become title
    /// patterns. Fails exactly when a keyword has no following value or a
    /// pattern does not compile.
    pub fn from_args(args: &Vec<String>) -> (r: Result<Self, Fallacy>)
        ensures
            match r {
                Ok(f) => spec_filter_from_args(args.deep_view()) == FilterStep::Done(f@),
                Err(e) => match e {
                    Fallacy::MissingValue(s) => spec_filter_from_args(args.deep_view())
                        == FilterStep::NoValue(s@),
                    Fallacy::FilterBuildFailed(m) => (match spec_filter_from_args(
                        args.deep_view(),
                    ) {
                        FilterStep::BadPattern(p) => m@ == regex_diag_of(p),
                        _ => false,
                    }),
                    _ => false,
                },
            },
    {
        let ghost dv = args.deep_view();
        let mut filter = PaperFilter::default();
        let n: usize = args.len();
        let mut i: usize = 0;
        proof {
            assert(dv.skip(0) =~= dv);
        }
        while i < n
            invariant
                0 <= i <= n,
                n == dv.len(),
                dv == args.deep_view(),
                spec_filter_from_args(dv) == filter_rec(dv.skip(i as int), filter@),
            decreases n - i,
        {
            proof {
                assert(dv.skip(i as int)[0] == dv[i as int]);
                assert(dv[i as int] == args[i as int]@);
            }
            let arg = &args[i];
            let field: Option<FField> = if str_eq(arg, "as") {
                Some(FField::Nickname)
            } else if str_eq(arg, "by") {
                Some(FField::Author)
            } else if str_eq(arg, "by1") {
                Some(FField::FirstAuthor)
            } else if str_eq(arg, "at") || str_eq(arg, "on") {
                Some(FField::Venue)
            } else if str_eq(arg, "in") {
                Some(FField::Year)
            } else {
                None
            };
            proof {
                assert(field == filter_kw(dv[i as int]));
            }
            match field {
                Some(fd) => {
                    if i + 1 >= n {
                        proof {
                            assert(dv.skip(i as int).len() == 1);
                        }
                        return Err(Fallacy::MissingValue(arg.clone()));
                    }
                    proof {
                        assert(dv.skip(i as int)[1] == dv[i as int + 1]);
                        assert(dv[i as int + 1] == args[i as int + 1]@);
                        assert(dv.skip(i as int).skip(2) =~= dv.skip(i as int + 2));
                    }
                    let pat = match Pattern::new(&args[i + 1]) {
                        Ok(p) => p,
                        Err(e) => {
                            return Err(e);
                        },
                    };
                    let ghost before = filter@;
                    match fd {
                        FField::Title => filter.title.push(pat),
                        FField::Nickname => filter.nickname.push(pat),
                        FField::Author => filter.author.push(pat),
                        FField::FirstAuthor => filter.first_author.push(pat),
                        FField::Venue => filter.venue.push(pat),
                        FField::Year => filter.year.push(pat),
                    }
                    proof {
                        assert(filter@ =~= fpush(before, fd, dv[i as int + 1]));
                    }
                    i = i + 2;
                },
                None => {
                    proof {
                        assert(dv.skip(i as int).skip(1) =~= dv.skip(i as int + 1));
                    }
                    let pat = match Pattern::new(arg) {
                        Ok(p) => p,
                        Err(e) => {
                            return Err(e);
                        },
                    };
                    let ghost before = filter@;
                    filter.title.push(pat);
                    proof {
                        assert(filter@ =~= fpush(before, FField::Title, dv[i as int]));
                    }
                    i = i + 1;
                },
            }
        }
        proof {
            assert(dv.skip(n as int).len() == 0);
        }
        Ok(filter)
    }

    /// Merges multiple filters into one by field-wise concatenation.
    pub fn merge(filters: &Vec<Self>) -> (r: Self)
        ensures
            r@ == merge_of(filters.deep_view()),
    {
        let ghost fsv = filters.deep_view();
        let mut merged = PaperFilter::default();
        let n: usize = filters.len();
        let mut i: usize = 0;
        proof {
            assert(fsv.take(0) =~= Seq::<FilterView>::empty());
        }
        while i < n
            invariant
                0 <= i <= n,
                n == fsv.len(),
                fsv == filters.deep_view(),
                merged@ == merge_of(fsv.take(i as int)),
            decreases n - i,
        {
            let ghost before = merged@;
            clone_patterns_into(&mut merged.title, &filters[i].title);
            clone_patterns_into(&mut merged.nickname, &filters[i].nickname);
            clone_patterns_into(&mut merged.author, &filters[i].author);
            clone_patterns_into(&mut merged.first_author, &filters[i].first_author);
            clone_patterns_into(&mut merged.venue, &filters[i].venue);
            clone_patterns_into(&mut merged.year, &filters[i].year);
            proof {
                assert(fsv[i as int] == filters[i as int]@);
                assert(merged@ =~= fappend(before, fsv[i as int]));
                assert(fsv.take(i as int + 1).drop_last() =~= fsv.take(i as int));
                assert(fsv.take(i as int + 1).last() == fsv[i as int]);
            }
            i = i + 1;
        }
        proof {
            assert(fsv.take(n as int) =~= fsv);
        }
        merged
    }

    /// Checks whether the filter matches the given paper: every field with
    /// at least one pattern must match the paper's value for it, the
    /// first-author field against the first author only. A filter with no
    /// patterns matches every paper; a filter whose title patterns are plain
    /// literal text matches by substring containment of the title.
    pub fn matches(&self, paper: &Paper) -> (r: bool)
        ensures
            r == spec_matches(self@, paper@),
            self@ == empty_filter() ==> r,
            (self@.nickname.len() == 0 && self@.author.len() == 0 && self@.first_author.len() == 0
                && self@.venue.len() == 0 && self@.year.len() == 0 && exists|i: int|
                0 <= i < self@.title.len() && is_literal_pattern(#[trigger] self@.title[i])
                    && contains_seq(paper@.title, self@.title[i])) ==> r,
            (self@.nickname.len() == 0 && self@.author.len() == 0 && self@.first_author.len() == 0
                && self@.venue.len() == 0 && self@.year.len() == 0 && self@.title.len() > 0
                && (forall|i: int|
                0 <= i < self@.title.len() ==> is_literal_pattern(#[trigger] self@.title[i])
                    && !contains_seq(paper@.title, self@.title[i]))) ==> !r,
    {
        let t_ok = field_matches(&self.title, paper.title.as_str());
        let nk_ok = match &paper.nickname {
            Some(s) => field_matches(&self.nickname, s.as_str()),
            None => {
                proof {
                    reveal_strlit("");
                    assert(""@ =~= Seq::<char>::empty());
                }
                field_matches(&self.nickname, "")
            },
        };
        let au_ok = author_matches(&self.author, &paper.authors);
        let fa_ok = if self.first_author.len() == 0 {
            true
        } else if paper.authors.len() == 0 {
            false
        } else {
            proof {
                assert(paper.authors.deep_view()[0] == paper.authors[0]@);
            }
            field_matches(&self.first_author, paper.authors[0].as_str())
        };
        let vn_ok = field_matches(&self.venue, paper.venue.as_str());
        let yr_ok = field_matches(&self.year, paper.year.as_str());
        t_ok && nk_ok && au_ok && fa_ok && vn_ok && yr_ok
    }
}

} // verus!
