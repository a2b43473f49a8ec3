//! The boundary to the `regex` crate. Filters hold pattern sources as plain
//! strings; compiling and searching go through the two trusted wrappers here,
//! whose results are named by the two uninterpreted functions.

use vstd::prelude::*;
use crate::strutil::contains_seq;

verus! {

/// Whether `regex::Regex::new` accepts this pattern. Compilation is a
/// function of the pattern text alone.
pub uninterp spec fn regex_compiles(p: Seq<char>) -> bool;

/// Whether the compiled pattern finds a match anywhere in the text. For a
/// pattern that compiles, this is a function of pattern and text alone.
pub uninterp spec fn regex_found(p: Seq<char>, t: Seq<char>) -> bool;

/// A pattern made only of characters that the regex syntax treats as
/// themselves: such a pattern matches exactly where it occurs literally.
pub open spec fn is_literal_pattern(p: Seq<char>) -> bool {
    forall|i: int|
        0 <= i < p.len() ==> (('a' <= #[trigger] p[i] && p[i] <= 'z') || ('A' <= p[i] && p[i]
            <= 'Z') || ('0' <= p[i] && p[i] <= '9') || p[i] == ' ' || p[i] == '_' || p[i] == '-'
            || p[i] == ':' || p[i] == ',')
}

/// The diagnostic `regex::Regex::new` reports for a rejected pattern: a
/// function of the pattern text alone.
pub uninterp spec fn regex_diag_of(p: Seq<char>) -> Seq<char>;

/// Relies on regex::Regex::new: it returns `Ok` exactly for the patterns it
/// accepts, deterministically in the pattern text, and on `Err` the returned
/// string carries its diagnostic. A short pattern of plain self-matching
/// characters is always accepted: such a pattern is handled by exact literal
/// extraction (capped well above this length) and never reaches the
/// size-limited compiler, which can reject even syntactically valid patterns
/// that are large enough.
#[verifier::external_body]
pub fn regex_check(p: &str) -> (r: Option<String>)
    ensures
        (r is None) == regex_compiles(p@),
        (match r {
            Some(m) => m@ == regex_diag_of(p@),
            None => true,
        }),
        is_literal_pattern(p@) && p@.len() <= 100 ==> r is None,
{
    match regex::Regex::new(p) {
        Ok(_) => None,
        Err(e) => Some(e.to_string()),
    }
}

/// Relies on regex::Regex::is_match: it reports whether a match of the
/// pattern occurs anywhere in the text, deterministically in pattern and
/// text; a pattern of plain self-matching characters matches exactly the
/// texts that contain it as a contiguous substring.
#[verifier::external_body]
pub fn regex_search(p: &str, t: &str) -> (r: bool)
    requires
        regex_compiles(p@),
    ensures
        r == regex_found(p@, t@),
        is_literal_pattern(p@) ==> (r == contains_seq(t@, p@)),
{
    match regex::Regex::new(p) {
        Ok(re) => re.is_match(t),
        Err(_) => false,
    }
}

} // verus!
