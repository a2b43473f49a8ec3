//! The keyword-argument tokenizer: splits an argument list into
//! `(role, value)` pairs under a per-context keyword set, detecting duplicate
//! keywords, keywords without a value, and a second free-text token.

use vstd::prelude::*;
use vstd::string::StringExecFns;
use crate::error::Fallacy;
use crate::strutil::str_eq;

verus! {

/// Which keyword set is in force: building a new record or updating one.
#[derive(Clone, Copy)]
pub enum Grammar {
    Build,
    Update,
}

/// The semantic role a keyword selects.
#[derive(Clone, Copy)]
pub enum Role {
    Nickname,
    Authors,
    Venue,
    Year,
    Filepath,
    LabelsAdd,
    LabelsRemove,
}

/// The tokenized argument map: one slot per role, plus the free-text title.
pub struct TokenMap {
    pub title: Option<String>,
    pub nickname: Option<String>,
    pub authors: Option<String>,
    pub venue: Option<String>,
    pub year: Option<String>,
    pub filepath: Option<String>,
    pub labels_add: Option<String>,
    pub labels_remove: Option<String>,
}

/// The mathematical view of a `TokenMap`.
pub struct TokView {
    pub title: Option<Seq<char>>,
    pub nickname: Option<Seq<char>>,
    pub authors: Option<Seq<char>>,
    pub venue: Option<Seq<char>>,
    pub year: Option<Seq<char>>,
    pub filepath: Option<Seq<char>>,
    pub labels_add: Option<Seq<char>>,
    pub labels_remove: Option<Seq<char>>,
}

impl View for TokenMap {
    type V = TokView;

    open spec fn view(&self) -> TokView {
        TokView {
            title: self.title.deep_view(),
            nickname: self.nickname.deep_view(),
            authors: self.authors.deep_view(),
            venue: self.venue.deep_view(),
            year: self.year.deep_view(),
            filepath: self.filepath.deep_view(),
            labels_add: self.labels_add.deep_view(),
            labels_remove: self.labels_remove.deep_view(),
        }
    }
}

/// The map with every slot empty.
pub open spec fn empty_tok() -> TokView {
    TokView {
        title: None,
        nickname: None,
        authors: None,
        venue: None,
        year: None,
        filepath: None,
        labels_add: None,
        labels_remove: None,
    }
}

/// The role a token selects under the grammar, if it is a recognized keyword.
/// Construction recognizes `as, by, at, in, @, is`; update recognizes
/// `as, by, at, in, is, not`.
pub open spec fn keyword_of(g: Grammar, tok: Seq<char>) -> Option<Role> {
    if tok == "as"@ {
        Some(Role::Nickname)
    } else if tok == "by"@ {
        Some(Role::Authors)
    } else if tok == "at"@ {
        Some(Role::Venue)
    } else if tok == "in"@ {
        Some(Role::Year)
    } else if (g is Build) && tok == "@"@ {
        Some(Role::Filepath)
    } else if tok == "is"@ {
        Some(Role::LabelsAdd)
    } else if (g is Update) && tok == "not"@ {
        Some(Role::LabelsRemove)
    } else {
        None
    }
}

/// The slot a role occupies in the view.
pub open spec fn map_get(m: TokView, r: Role) -> Option<Seq<char>> {
    match r {
        Role::Nickname => m.nickname,
        Role::Authors => m.authors,
        Role::Venue => m.venue,
        Role::Year => m.year,
        Role::Filepath => m.filepath,
        Role::LabelsAdd => m.labels_add,
        Role::LabelsRemove => m.labels_remove,
    }
}

/// The view with one role's slot filled.
pub open spec fn map_set(m: TokView, r: Role, v: Seq<char>) -> TokView {
    match r {
        Role::Nickname => TokView { nickname: Some(v), ..m },
        Role::Authors => TokView { authors: Some(v), ..m },
        Role::Venue => TokView { venue: Some(v), ..m },
        Role::Year => TokView { year: Some(v), ..m },
        Role::Filepath => TokView { filepath: Some(v), ..m },
        Role::LabelsAdd => TokView { labels_add: Some(v), ..m },
        Role::LabelsRemove => TokView { labels_remove: Some(v), ..m },
    }
}

/// The outcome of tokenizing: the finished map, a duplicated keyword (or
/// `"title"` for a second free-text token), or a keyword missing its value.
pub enum TokStep {
    Done(TokView),
    Dup(Seq<char>),
    Missing(Seq<char>),
}

/// One pass over the remaining arguments, accumulating into `m`: a
/// recognized keyword consumes the next token as its value (each role at
/// most once), any other token fills the single free-text title slot.
pub open spec fn tok_rec(g: Grammar, args: Seq<Seq<char>>, m: TokView) -> TokStep
    decreases args.len(),
{
    if args.len() == 0 {
        TokStep::Done(m)
    } else {
        let tok = args[0];
        match keyword_of(g, tok) {
            Some(r) => {
                if map_get(m, r) is Some {
                    TokStep::Dup(tok)
                } else if args.len() == 1 {
                    TokStep::Missing(tok)
                } else {
                    tok_rec(g, args.skip(2), map_set(m, r, args[1]))
                }
            },
            None => {
                if m.title is Some {
                    TokStep::Dup("title"@)
                } else {
                    tok_rec(g, args.skip(1), TokView { title: Some(tok), ..m })
                }
            },
        }
    }
}

/// What tokenizing an argument list yields under a grammar.
pub open spec fn spec_tokenize(g: Grammar, args: Seq<Seq<char>>) -> TokStep {
    tok_rec(g, args, empty_tok())
}

impl TokenMap {
    /// The map with every slot empty.
    pub fn empty() -> (r: TokenMap)
        ensures
            r@ == empty_tok(),
    {
        TokenMap {
            title: None,
            nickname: None,
            authors: None,
            venue: None,
            year: None,
            filepath: None,
            labels_add: None,
            labels_remove: None,
        }
    }

    /// Whether a role's slot is already filled.
    pub fn role_is_set(&self, r: Role) -> (b: bool)
        ensures
            b == (map_get(self@, r) is Some),
    {
        match r {
            Role::Nickname => self.nickname.is_some(),
            Role::Authors => self.authors.is_some(),
            Role::Venue => self.venue.is_some(),
            Role::Year => self.year.is_some(),
            Role::Filepath => self.filepath.is_some(),
            Role::LabelsAdd => self.labels_add.is_some(),
            Role::LabelsRemove => self.labels_remove.is_some(),
        }
    }

    /// Fills a role's slot.
    pub fn set_role(&mut self, r: Role, v: String)
        ensures
            final(self)@ == map_set(old(self)@, r, v@),
    {
        match r {
            Role::Nickname => self.nickname = Some(v),
            Role::Authors => self.authors = Some(v),
            Role::Venue => self.venue = Some(v),
            Role::Year => self.year = Some(v),
            Role::Filepath => self.filepath = Some(v),
            Role::LabelsAdd => self.labels_add = Some(v),
            Role::LabelsRemove => self.labels_remove = Some(v),
        }
    }
}

/// Decides which role, if any, a token selects under the grammar.
pub fn keyword_role(g: Grammar, tok: &String) -> (r: Option<Role>)
    ensures
        r == keyword_of(g, tok@),
{
    if str_eq(tok, "as") {
        Some(Role::Nickname)
    } else if str_eq(tok, "by") {
        Some(Role::Authors)
    } else if str_eq(tok, "at") {
        Some(Role::Venue)
    } else if str_eq(tok, "in") {
        Some(Role::Year)
    } else if matches!(g, Grammar::Build) && str_eq(tok, "@") {
        Some(Role::Filepath)
    } else if str_eq(tok, "is") {
        Some(Role::LabelsAdd)
    } else if matches!(g, Grammar::Update) && str_eq(tok, "not") {
        Some(Role::LabelsRemove)
    } else {
        None
    }
}

/// Tokenizes an argument list (the command name already removed) under a
/// grammar. Pure and stateless: equal inputs give equal outcomes. Succeeds
/// exactly when no recognized keyword repeats, every keyword has a following
/// value, and at most one free-text token occurs; the errors name the
/// offending keyword (`"title"` for the free-text slot).
pub fn tokenize(g: Grammar, args: &Vec<String>) -> (r: Result<TokenMap, Fallacy>)
    ensures
        match r {
            Ok(m) => spec_tokenize(g, args.deep_view()) == TokStep::Done(m@),
            Err(f) => match f {
                Fallacy::PaperDuplicateField(s) => spec_tokenize(g, args.deep_view())
                    == TokStep::Dup(s@),
                Fallacy::MissingValue(s) => spec_tokenize(g, args.deep_view()) == TokStep::Missing(
                    s@,
                ),
                _ => false,
            },
        },
{
    let ghost dv = args.deep_view();
    let mut m = TokenMap::empty();
    let n: usize = args.len();
    let mut i: usize = 0;
    proof {
        assert(dv.skip(0) =~= dv);
    }
    while i < n
        invariant
            0 <= i <= n,
            n == dv.len(),
            dv == args.deep_view(),
            spec_tokenize(g, dv) == tok_rec(g, dv.skip(i as int), m@),
        decreases n - i,
    {
        let tok = &args[i];
        proof {
            assert(dv.skip(i as int)[0] == dv[i as int]);
        }
        match keyword_role(g, tok) {
            Some(r) => {
                if m.role_is_set(r) {
                    return Err(Fallacy::PaperDuplicateField(tok.clone()));
                }
                if i + 1 >= n {
                    proof {
                        assert(dv.skip(i as int).len() == 1);
                    }
                    return Err(Fallacy::MissingValue(tok.clone()));
                }
                let v = args[i + 1].clone();
                proof {
                    assert(dv.skip(i as int)[1] == dv[i as int + 1]);
                    assert(dv.skip(i as int).skip(2) =~= dv.skip(i as int + 2));
                }
                m.set_role(r, v);
                i = i + 2;
            },
            None => {
                if m.title.is_some() {
                    proof {
                        reveal_strlit("title");
                    }
                    return Err(Fallacy::PaperDuplicateField(String::from_str("title")));
                }
                proof {
                    assert(dv.skip(i as int).skip(1) =~= dv.skip(i as int + 1));
                }
                let ghost before = m@;
                m.title = Some(tok.clone());
                proof {
                    assert(m@ == TokView { title: Some(dv[i as int]), ..before });
                }
                i = i + 1;
            },
        }
    }
    proof {
        assert(dv.skip(n as int).len() == 0);
    }
    Ok(m)
}

/// Tokenizing a concatenation continues from where the first part ended,
/// provided the first part tokenized cleanly.
pub proof fn lemma_tok_rec_concat(g: Grammar, a: Seq<Seq<char>>, b: Seq<Seq<char>>, m: TokView)
    requires
        tok_rec(g, a, m) is Done,
    ensures
        tok_rec(g, a + b, m) == tok_rec(g, b, tok_rec(g, a, m)->Done_0),
    decreases a.len(),
{
    if a.len() == 0 {
        assert(a + b =~= b);
    } else {
        let tok = a[0];
        assert((a + b)[0] == tok);
        match keyword_of(g, tok) {
            Some(r) => {
                assert(a.len() >= 2);
                assert((a + b).len() >= 2 && (a + b)[1] == a[1]);
                assert((a + b).skip(2) =~= a.skip(2) + b);
                lemma_tok_rec_concat(g, a.skip(2), b, map_set(m, r, a[1]));
            },
            None => {
                assert((a + b).skip(1) =~= a.skip(1) + b);
                lemma_tok_rec_concat(g, a.skip(1), b, TokView { title: Some(tok), ..m });
            },
        }
    }
}

/// Law: an argument list in which a recognized keyword occupies two keyword
/// positions always tokenizes to a duplicate-field failure naming that
/// keyword, whatever the surrounding tokens.
pub proof fn lemma_duplicate_keyword(
    g: Grammar,
    pre: Seq<Seq<char>>,
    kw: Seq<char>,
    v1: Seq<char>,
    v2: Seq<char>,
    post: Seq<Seq<char>>,
)
    requires
        keyword_of(g, kw) is Some,
        tok_rec(g, pre, empty_tok()) is Done,
    ensures
        spec_tokenize(g, pre + seq![kw, v1, kw, v2] + post) == TokStep::Dup(kw),
{
    let mid = seq![kw, v1, kw, v2] + post;
    let m1 = tok_rec(g, pre, empty_tok())->Done_0;
    assert(pre + seq![kw, v1, kw, v2] + post =~= pre + mid);
    lemma_tok_rec_concat(g, pre, mid, empty_tok());
    let r = keyword_of(g, kw)->0;
    assert(mid[0] == kw && mid[1] == v1);
    if map_get(m1, r) is Some {
        assert(tok_rec(g, mid, m1) == TokStep::Dup(kw));
    } else {
        let m2 = map_set(m1, r, v1);
        assert(mid.skip(2) =~= seq![kw, v2] + post);
        assert(mid.skip(2)[0] == kw);
        assert(map_get(m2, r) is Some);
        assert(tok_rec(g, mid.skip(2), m2) == TokStep::Dup(kw));
    }
}

} // verus!
