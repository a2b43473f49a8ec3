//! Small verified string helpers used by the grammar and the commands:
//! keyword comparison, whitespace trimming, comma splitting, decimal
//! rendering of counts, and lexicographic order for sorting by title.

use vstd::prelude::*;
use vstd::string::StringExecFns;
use vstd::string::StrSliceExecFns;

verus! {

/// Compares a `String` argument token with a literal keyword.
pub fn str_eq(a: &String, b: &str) -> (r: bool)
    ensures
        r == (a@ == b@),
{
    *a == String::from_str(b)
}

/// The whitespace characters that trimming removes.
pub open spec fn is_space(c: char) -> bool {
    c == ' ' || c == '\t' || c == '\n' || c == '\r'
}

/// `s` without its leading whitespace.
pub open spec fn trim_front(s: Seq<char>) -> Seq<char>
    decreases s.len(),
{
    if s.len() == 0 {
        s
    } else if is_space(s[0]) {
        trim_front(s.skip(1))
    } else {
        s
    }
}

/// `s` without its trailing whitespace.
pub open spec fn trim_back(s: Seq<char>) -> Seq<char>
    decreases s.len(),
{
    if s.len() == 0 {
        s
    } else if is_space(s[s.len() - 1]) {
        trim_back(s.take(s.len() - 1))
    } else {
        s
    }
}

/// `s` without leading and trailing whitespace.
pub open spec fn spec_trim(s: Seq<char>) -> Seq<char> {
    trim_back(trim_front(s))
}

proof fn lemma_trim_front_skip(s: Seq<char>, k: int)
    requires
        0 <= k <= s.len(),
        forall|j: int| 0 <= j < k ==> is_space(s[j]),
    ensures
        trim_front(s) == trim_front(s.skip(k)),
    decreases k,
{
    if k > 0 {
        assert(is_space(s[0]));
        assert(s.skip(1).skip(k - 1) =~= s.skip(k));
        lemma_trim_front_skip(s.skip(1), k - 1);
    } else {
        assert(s.skip(0) =~= s);
    }
}

proof fn lemma_trim_back_take(s: Seq<char>, k: int)
    requires
        0 <= k <= s.len(),
        forall|j: int| k <= j < s.len() ==> is_space(s[j]),
    ensures
        trim_back(s) == trim_back(s.take(k)),
    decreases s.len() - k,
{
    if k < s.len() {
        assert(is_space(s[s.len() - 1]));
        assert(s.take(s.len() - 1).take(k) =~= s.take(k));
        lemma_trim_back_take(s.take(s.len() - 1), k);
    } else {
        assert(s.take(s.len() as int) =~= s);
    }
}

/// Removes leading and trailing whitespace from a string slice.
pub fn trim(s: &str) -> (r: String)
    ensures
        r@ == spec_trim(s@),
{
    let n: usize = s.unicode_len();
    let mut start: usize = 0;
    while start < n && is_space_exec(s.get_char(start))
        invariant
            0 <= start <= n,
            n == s@.len(),
            forall|j: int| 0 <= j < start ==> is_space(s@[j]),
        decreases n - start,
    {
        start = start + 1;
    }
    proof {
        lemma_trim_front_skip(s@, start as int);
    }
    if start == n {
        proof {
            assert(s@.skip(start as int) =~= Seq::<char>::empty());
            assert(trim_front(s@) =~= Seq::<char>::empty());
        }
        return String::new();
    }
    // s@[start] is not a space, so trim_front(s@) == s@.skip(start).
    assert(trim_front(s@) == s@.skip(start as int));
    let mut end: usize = n;
    while end > start && is_space_exec(s.get_char(end - 1))
        invariant
            start <= end <= n,
            n == s@.len(),
            start < n,
            !is_space(s@[start as int]),
            forall|j: int| end <= j < n ==> is_space(s@[j]),
        decreases end,
    {
        end = end - 1;
    }
    // s@[end-1] is not a space (end > start is kept because s@[start] is not
    // a space), so trimming the tail of s@.skip(start) stops at end.
    let piece = s.substring_char(start, end);
    proof {
        let t = s@.skip(start as int);
        assert(forall|j: int| (end - start) <= j < t.len() ==> is_space(t[j]));
        lemma_trim_back_take(t, end - start);
        assert(t.take(end - start) =~= s@.subrange(start as int, end as int));
        let u = t.take(end - start);
        assert(u.len() > 0 && !is_space(u[u.len() - 1]));
        assert(trim_back(u) == u);
    }
    String::from_str(piece)
}

/// Executable form of `is_space`.
pub fn is_space_exec(c: char) -> (r: bool)
    ensures
        r == is_space(c),
{
    c == ' ' || c == '\t' || c == '\n' || c == '\r'
}

/// One comma-separated piece, trimmed; empty pieces are dropped.
pub open spec fn emit_piece(cur: Seq<char>) -> Seq<Seq<char>> {
    if spec_trim(cur).len() == 0 {
        Seq::empty()
    } else {
        seq![spec_trim(cur)]
    }
}

/// Splits `s` at commas, with `cur` the piece accumulated so far.
pub open spec fn split_rest(s: Seq<char>, cur: Seq<char>) -> Seq<Seq<char>>
    decreases s.len(),
{
    if s.len() == 0 {
        emit_piece(cur)
    } else if s[0] == ',' {
        emit_piece(cur) + split_rest(s.skip(1), Seq::empty())
    } else {
        split_rest(s.skip(1), cur.push(s[0]))
    }
}

/// The comma-separated pieces of `s`, each trimmed, empty pieces dropped.
pub open spec fn spec_split_commas(s: Seq<char>) -> Seq<Seq<char>> {
    split_rest(s, Seq::empty())
}

proof fn lemma_split_rest_shift(s: Seq<char>, i: int, start: int)
    requires
        0 <= start <= i < s.len(),
        s[i] != ',',
    ensures
        split_rest(s.skip(i), s.subrange(start, i)) == split_rest(
            s.skip(i + 1),
            s.subrange(start, i + 1),
        ),
{
    let t = s.skip(i);
    assert(t.len() > 0 && t[0] == s[i]);
    assert(t.skip(1) =~= s.skip(i + 1));
    assert(s.subrange(start, i).push(s[i]) =~= s.subrange(start, i + 1));
}

/// Splits a string at commas, trims each piece, and drops empty pieces.
/// Used for `by` (author lists) and `is`/`not` (label lists).
pub fn split_commas(s: &str) -> (r: Vec<String>)
    ensures
        r.deep_view() == spec_split_commas(s@),
{
    let n: usize = s.unicode_len();
    let mut out: Vec<String> = Vec::new();
    let mut start: usize = 0;
    let mut i: usize = 0;
    proof {
        assert(s@.skip(0) =~= s@);
        assert(s@.subrange(0, 0) =~= Seq::<char>::empty());
        assert(out.deep_view() =~= Seq::<Seq<char>>::empty());
        assert(Seq::<Seq<char>>::empty() + split_rest(s@, Seq::empty()) =~= split_rest(
            s@,
            Seq::empty(),
        ));
    }
    while i < n
        invariant
            0 <= start <= i <= n,
            n == s@.len(),
            spec_split_commas(s@) == out.deep_view() + split_rest(
                s@.skip(i as int),
                s@.subrange(start as int, i as int),
            ),
        decreases n - i,
    {
        let c = s.get_char(i);
        if c == ',' {
            let piece = s.substring_char(start, i);
            let t = trim(piece);
            proof {
                let tail = s@.skip(i as int);
                assert(tail[0] == ',');
                assert(tail.skip(1) =~= s@.skip(i as int + 1));
                assert(piece@ =~= s@.subrange(start as int, i as int));
            }
            if t.as_str().unicode_len() > 0 {
                let ghost old_out = out.deep_view();
                out.push(t);
                proof {
                    assert(out.deep_view() =~= old_out + emit_piece(
                        s@.subrange(start as int, i as int),
                    ));
                }
            } else {
                proof {
                    assert(out.deep_view() + emit_piece(s@.subrange(start as int, i as int))
                        =~= out.deep_view());
                }
            }
            proof {
                assert(s@.subrange(i as int + 1, i as int + 1) =~= Seq::<char>::empty());
            }
            start = i + 1;
        } else {
            proof {
                lemma_split_rest_shift(s@, i as int, start as int);
            }
        }
        i = i + 1;
    }
    let piece = s.substring_char(start, n);
    let t = trim(piece);
    proof {
        assert(s@.skip(n as int) =~= Seq::<char>::empty());
        assert(piece@ =~= s@.subrange(start as int, n as int));
    }
    if t.as_str().unicode_len() > 0 {
        let ghost old_out = out.deep_view();
        out.push(t);
        proof {
            assert(out.deep_view() =~= old_out + emit_piece(s@.subrange(start as int, n as int)));
        }
    } else {
        proof {
            assert(out.deep_view() + emit_piece(s@.subrange(start as int, n as int))
                =~= out.deep_view());
        }
    }
    out
}

/// The decimal digit character for `d` (0 through 9).
pub open spec fn digit_char(d: nat) -> char {
    if d == 0 {
        '0'
    } else if d == 1 {
        '1'
    } else if d == 2 {
        '2'
    } else if d == 3 {
        '3'
    } else if d == 4 {
        '4'
    } else if d == 5 {
        '5'
    } else if d == 6 {
        '6'
    } else if d == 7 {
        '7'
    } else if d == 8 {
        '8'
    } else {
        '9'
    }
}

/// The decimal digits of `n`, most significant first.
pub open spec fn spec_digits(n: nat) -> Seq<char>
    decreases n,
{
    if n < 10 {
        seq![digit_char(n)]
    } else {
        spec_digits(n / 10) + seq![digit_char(n % 10)]
    }
}

fn digit_str(d: usize) -> (r: &'static str)
    requires
        d < 10,
    ensures
        r@ =~= seq![digit_char(d as nat)],
{
    if d == 0 {
        proof { reveal_strlit("0"); }
        "0"
    } else if d == 1 {
        proof { reveal_strlit("1"); }
        "1"
    } else if d == 2 {
        proof { reveal_strlit("2"); }
        "2"
    } else if d == 3 {
        proof { reveal_strlit("3"); }
        "3"
    } else if d == 4 {
        proof { reveal_strlit("4"); }
        "4"
    } else if d == 5 {
        proof { reveal_strlit("5"); }
        "5"
    } else if d == 6 {
        proof { reveal_strlit("6"); }
        "6"
    } else if d == 7 {
        proof { reveal_strlit("7"); }
        "7"
    } else if d == 8 {
        proof { reveal_strlit("8"); }
        "8"
    } else {
        proof { reveal_strlit("9"); }
        "9"
    }
}

/// Renders a count in decimal, for the messages commands report.
pub fn usize_to_string(n: usize) -> (r: String)
    ensures
        r@ == spec_digits(n as nat),
    decreases n,
{
    if n < 10 {
        String::from_str(digit_str(n))
    } else {
        let head = usize_to_string(n / 10);
        head.concat(digit_str(n % 10))
    }
}

/// Strict lexicographic order on character sequences, by code point.
pub open spec fn lex_lt(a: Seq<char>, b: Seq<char>) -> bool
    decreases a.len(),
{
    if b.len() == 0 {
        false
    } else if a.len() == 0 {
        true
    } else if (a[0] as int) < (b[0] as int) {
        true
    } else if a[0] == b[0] {
        lex_lt(a.skip(1), b.skip(1))
    } else {
        false
    }
}

proof fn lemma_lex_lt_shift(a: Seq<char>, b: Seq<char>, i: int)
    requires
        0 <= i < a.len(),
        0 <= i < b.len(),
        a[i] == b[i],
    ensures
        lex_lt(a.skip(i), b.skip(i)) == lex_lt(a.skip(i + 1), b.skip(i + 1)),
{
    assert(a.skip(i).len() > 0 && b.skip(i).len() > 0);
    assert(a.skip(i)[0] == a[i] && b.skip(i)[0] == b[i]);
    assert(a.skip(i).skip(1) =~= a.skip(i + 1));
    assert(b.skip(i).skip(1) =~= b.skip(i + 1));
}

/// Decides `lex_lt(a@, b@)`, the order papers are sorted in by title.
pub fn str_lt(a: &str, b: &str) -> (r: bool)
    ensures
        r == lex_lt(a@, b@),
{
    let na: usize = a.unicode_len();
    let nb: usize = b.unicode_len();
    let mut i: usize = 0;
    proof {
        assert(a@.skip(0) =~= a@);
        assert(b@.skip(0) =~= b@);
    }
    loop
        invariant
            0 <= i <= na,
            0 <= i <= nb,
            na == a@.len(),
            nb == b@.len(),
            lex_lt(a@, b@) == lex_lt(a@.skip(i as int), b@.skip(i as int)),
        decreases na - i,
    {
        if i >= nb {
            proof {
                assert(b@.skip(i as int).len() == 0);
            }
            return false;
        }
        if i >= na {
            proof {
                assert(a@.skip(i as int).len() == 0 && b@.skip(i as int).len() > 0);
            }
            return true;
        }
        let ca = a.get_char(i);
        let cb = b.get_char(i);
        proof {
            assert(a@.skip(i as int)[0] == a@[i as int]);
            assert(b@.skip(i as int)[0] == b@[i as int]);
        }
        proof {
            assert((ca as u32) as int == ca as int);
            assert((cb as u32) as int == cb as int);
        }
        if (ca as u32) < (cb as u32) {
            return true;
        }
        if (ca as u32) > (cb as u32) {
            return false;
        }
        proof {
            assert(ca == cb);
            lemma_lex_lt_shift(a@, b@, i as int);
        }
        i = i + 1;
    }
}

/// The lexicographic order is transitive.
pub proof fn lemma_lex_trans(a: Seq<char>, b: Seq<char>, c: Seq<char>)
    requires
        lex_lt(a, b),
        lex_lt(b, c),
    ensures
        lex_lt(a, c),
    decreases a.len(),
{
    if a.len() > 0 {
        if a[0] == b[0] && b[0] == c[0] {
            lemma_lex_trans(a.skip(1), b.skip(1), c.skip(1));
        }
    }
}

/// Any two sequences are ordered one way or the other, or equal.
pub proof fn lemma_lex_connex(a: Seq<char>, b: Seq<char>)
    ensures
        lex_lt(a, b) || lex_lt(b, a) || a == b,
    decreases a.len(),
{
    if a.len() == 0 && b.len() == 0 {
        assert(a =~= b);
    } else if a.len() > 0 && b.len() > 0 {
        if a[0] == b[0] {
            lemma_lex_connex(a.skip(1), b.skip(1));
            if a.skip(1) == b.skip(1) {
                assert forall|i: int| 0 <= i < a.len() implies a[i] == b[i] by {
                    if i > 0 {
                        assert(a.skip(1)[i - 1] == a[i] && b.skip(1)[i - 1] == b[i]);
                    }
                }
                assert(a =~= b);
            }
        }
    }
}

/// `p` occurs in `t` as a contiguous subsequence.
pub open spec fn contains_seq(t: Seq<char>, p: Seq<char>) -> bool {
    exists|i: int| 0 <= i <= t.len() - p.len() && #[trigger] t.subrange(i, i + p.len()) == p
}

/// Whether a vector of strings holds `x`.
pub fn contains_string(v: &Vec<String>, x: &String) -> (r: bool)
    ensures
        r == v.deep_view().contains(x@),
{
    let ghost dv = v.deep_view();
    let n: usize = v.len();
    let mut j: usize = 0;
    while j < n
        invariant
            0 <= j <= n,
            n == dv.len(),
            dv == v.deep_view(),
            forall|k: int| 0 <= k < j ==> dv[k] != x@,
        decreases n - j,
    {
        proof {
            assert(dv[j as int] == v[j as int]@);
        }
        if v[j] == *x {
            return true;
        }
        j = j + 1;
    }
    proof {
        if dv.contains(x@) {
            let k = choose|k: int| 0 <= k < dv.len() && dv[k] == x@;
            assert(false);
        }
    }
    false
}

/// The items joined with the separator between neighbours.
pub open spec fn spec_join(items: Seq<Seq<char>>, sep: Seq<char>) -> Seq<char>
    decreases items.len(),
{
    if items.len() == 0 {
        Seq::empty()
    } else if items.len() == 1 {
        items[0]
    } else {
        spec_join(items.take(items.len() - 1), sep) + sep + items[items.len() - 1]
    }
}

/// Joins strings with a separator, as in the missing-fields report.
pub fn join_strings(v: &Vec<String>, sep: &str) -> (r: String)
    ensures
        r@ == spec_join(v.deep_view(), sep@),
{
    let ghost dv = v.deep_view();
    let n: usize = v.len();
    if n == 0 {
        return String::new();
    }
    let mut acc = v[0].clone();
    proof {
        assert(dv.take(1) =~= seq![dv[0]]);
        assert(dv[0] == v[0]@);
    }
    let mut i: usize = 1;
    while i < n
        invariant
            1 <= i <= n,
            n == dv.len(),
            dv == v.deep_view(),
            acc@ == spec_join(dv.take(i as int), sep@),
        decreases n - i,
    {
        acc.append(sep);
        acc.append(v[i].as_str());
        proof {
            assert(dv.take(i as int + 1).take(i as int) =~= dv.take(i as int));
            assert(dv.take(i as int + 1)[i as int] == dv[i as int]);
            assert(dv[i as int] == v[i as int]@);
        }
        i = i + 1;
    }
    proof {
        assert(dv.take(n as int) =~= dv);
    }
    acc
}

/// Keeps the first occurrence of each item of `s`, after those already in `acc`.
pub open spec fn dedup_rec(s: Seq<Seq<char>>, acc: Seq<Seq<char>>) -> Seq<Seq<char>>
    decreases s.len(),
{
    if s.len() == 0 {
        acc
    } else if acc.contains(s[0]) {
        dedup_rec(s.skip(1), acc)
    } else {
        dedup_rec(s.skip(1), acc.push(s[0]))
    }
}

/// The items of `s` with later repetitions dropped.
pub open spec fn spec_dedup(s: Seq<Seq<char>>) -> Seq<Seq<char>> {
    dedup_rec(s, Seq::empty())
}

/// No item occurs twice.
pub open spec fn nodup(s: Seq<Seq<char>>) -> bool {
    forall|i: int, j: int| 0 <= i < j < s.len() ==> s[i] != s[j]
}

/// Deduplication never produces a repeated item.
pub proof fn lemma_dedup_rec_nodup(s: Seq<Seq<char>>, acc: Seq<Seq<char>>)
    requires
        nodup(acc),
    ensures
        nodup(dedup_rec(s, acc)),
    decreases s.len(),
{
    if s.len() > 0 {
        if acc.contains(s[0]) {
            lemma_dedup_rec_nodup(s.skip(1), acc);
        } else {
            let acc2 = acc.push(s[0]);
            assert forall|i: int, j: int| 0 <= i < j < acc2.len() implies acc2[i] != acc2[j] by {
                if j < acc2.len() - 1 {
                    assert(acc2[i] == acc[i] && acc2[j] == acc[j]);
                } else {
                    assert(acc2[i] == acc[i] && acc2[j] == s[0]);
                    if acc[i] == s[0] {
                        assert(acc.contains(s[0]));
                    }
                }
            }
            lemma_dedup_rec_nodup(s.skip(1), acc2);
        }
    }
}

/// Drops every item of `v` already seen, keeping first occurrences in order.
pub fn dedup_strings(v: &Vec<String>) -> (r: Vec<String>)
    ensures
        r.deep_view() == spec_dedup(v.deep_view()),
{
    let ghost dv = v.deep_view();
    let n: usize = v.len();
    let mut out: Vec<String> = Vec::new();
    let mut i: usize = 0;
    proof {
        assert(dv.skip(0) =~= dv);
        assert(out.deep_view() =~= Seq::<Seq<char>>::empty());
    }
    while i < n
        invariant
            0 <= i <= n,
            n == dv.len(),
            dv == v.deep_view(),
            spec_dedup(dv) == dedup_rec(dv.skip(i as int), out.deep_view()),
        decreases n - i,
    {
        proof {
            assert(dv.skip(i as int)[0] == dv[i as int]);
            assert(dv.skip(i as int).skip(1) =~= dv.skip(i as int + 1));
            assert(dv[i as int] == v[i as int]@);
        }
        if !contains_string(&out, &v[i]) {
            let ghost before = out.deep_view();
            out.push(v[i].clone());
            proof {
                assert(out.deep_view() =~= before.push(dv[i as int]));
            }
        }
        i = i + 1;
    }
    proof {
        assert(dv.skip(n as int).len() == 0);
    }
    out
}

} // verus!
