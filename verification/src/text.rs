//! Character-sequence utilities: substring search, substring replacement,
//! splitting into lines and tokens, and decimal rendering of slot indices.
//!
//! All executable code here works on `Vec<char>`, whose view is a
//! `Seq<char>`; the bridge to `&str` / `String` sits in a pair of small
//! conversion functions.

use vstd::prelude::*;
use vstd::string::StrSliceExecFns;

verus! {

/// `pat` occurs in `s` starting at index `i`.
pub open spec fn match_at(s: Seq<char>, pat: Seq<char>, i: int) -> bool {
    &&& 0 <= i
    &&& i + pat.len() <= s.len()
    &&& s.subrange(i, i + pat.len() as int) == pat
}

/// `pat` occurs somewhere in `s`.
pub open spec fn contains_seq(s: Seq<char>, pat: Seq<char>) -> bool {
    exists|i: int| match_at(s, pat, i)
}

/// Leftmost, non-overlapping replacement of `pat` by `rep` throughout `s`.
/// An empty pattern leaves the text unchanged.
pub open spec fn replace_all(s: Seq<char>, pat: Seq<char>, rep: Seq<char>) -> Seq<char>
    decreases s.len(),
{
    if pat.len() == 0 || s.len() < pat.len() {
        s
    } else if s.subrange(0, pat.len() as int) == pat {
        rep + replace_all(s.skip(pat.len() as int), pat, rep)
    } else {
        seq![s[0]] + replace_all(s.skip(1), pat, rep)
    }
}

/// Builds a fresh copy of `s`.
pub fn copy_chars(s: &Vec<char>) -> (r: Vec<char>)
    ensures
        r@ == s@,
{
    let mut r: Vec<char> = Vec::new();
    let mut i: usize = 0;
    while i < s.len()
        invariant
            i <= s.len(),
            r@ == s@.subrange(0, i as int),
        decreases s.len() - i,
    {
        r.push(s[i]);
        i = i + 1;
        proof {
            assert(r@ =~= s@.subrange(0, i as int));
        }
    }
    proof {
        assert(r@ =~= s@);
    }
    r
}

/// Appends `piece` to `out`.
pub fn append_chars(out: &mut Vec<char>, piece: &Vec<char>)
    ensures
        final(out)@ == old(out)@ + piece@,
{
    let mut i: usize = 0;
    while i < piece.len()
        invariant
            i <= piece.len(),
            out@ == old(out)@ + piece@.subrange(0, i as int),
        decreases piece.len() - i,
    {
        out.push(piece[i]);
        i = i + 1;
        proof {
            assert(out@ =~= old(out)@ + piece@.subrange(0, i as int));
        }
    }
    proof {
        assert(out@ =~= old(out)@ + piece@);
    }
}

/// Concatenation of two character vectors.
pub fn concat_chars(a: &Vec<char>, b: &Vec<char>) -> (r: Vec<char>)
    ensures
        r@ == a@ + b@,
{
    let mut r = copy_chars(a);
    append_chars(&mut r, b);
    r
}

/// The characters of a string slice, in order.
pub fn chars_of(s: &str) -> (r: Vec<char>)
    ensures
        r@ == s@,
{
    let n = s.unicode_len();
    let mut r: Vec<char> = Vec::new();
    let mut i: usize = 0;
    while i < n
        invariant
            n == s@.len(),
            i <= n,
            r@ == s@.subrange(0, i as int),
        decreases n - i,
    {
        r.push(s.get_char(i));
        i = i + 1;
        proof {
            assert(r@ =~= s@.subrange(0, i as int));
        }
    }
    proof {
        assert(r@ =~= s@);
    }
    r
}

/// Appends the characters of a string slice to `out`.
pub fn append_str(out: &mut Vec<char>, s: &str)
    ensures
        final(out)@ == old(out)@ + s@,
{
    let piece = chars_of(s);
    append_chars(out, &piece);
}

/// Relies on `String: FromIterator<char>` (through `Iterator::collect`):
/// collecting an iterator of characters yields the string of exactly those
/// characters, in order.
#[verifier::external_body]
pub fn string_from_chars(v: &Vec<char>) -> (r: String)
    ensures
        r@ == v@,
{
    v.iter().collect()
}

/// Whether `pat` occurs in `s` at index `i`.
pub fn is_match_at(s: &Vec<char>, pat: &Vec<char>, i: usize) -> (b: bool)
    requires
        i <= s.len(),
    ensures
        b == match_at(s@, pat@, i as int),
{
    if s.len() - i < pat.len() {
        return false;
    }
    let mut j: usize = 0;
    while j < pat.len()
        invariant
            i + pat.len() <= s.len(),
            j <= pat.len(),
            forall|k: int| 0 <= k < j ==> s@[i + k] == pat@[k],
        decreases pat.len() - j,
    {
        if s[i + j] != pat[j] {
            proof {
                assert(s@.subrange(i as int, i + pat@.len() as int)[j as int] == s@[i + j]);
                assert(s@.subrange(i as int, i + pat@.len() as int) != pat@);
            }
            return false;
        }
        j = j + 1;
    }
    proof {
        assert(s@.subrange(i as int, i + pat@.len() as int) =~= pat@);
    }
    true
}

/// Whether `pat` occurs anywhere in `s`.
pub fn contains_chars(s: &Vec<char>, pat: &Vec<char>) -> (b: bool)
    ensures
        b == contains_seq(s@, pat@),
{
    if pat.len() == 0 {
        proof {
            assert(s@.subrange(0, 0) =~= pat@);
            assert(match_at(s@, pat@, 0));
        }
        return true;
    }
    if pat.len() > s.len() {
        proof {
            assert(forall|i: int| !match_at(s@, pat@, i));
        }
        return false;
    }
    let mut i: usize = 0;
    while i <= s.len() - pat.len()
        invariant
            1 <= pat.len() <= s.len(),
            i <= s.len() - pat.len() + 1,
            forall|k: int| 0 <= k < i ==> !match_at(s@, pat@, k),
        decreases s.len() - pat.len() + 1 - i,
    {
        if is_match_at(s, pat, i) {
            return true;
        }
        i = i + 1;
    }
    proof {
        assert(forall|k: int| match_at(s@, pat@, k) ==> 0 <= k <= s@.len() - pat@.len());
        assert(forall|k: int| !match_at(s@, pat@, k));
    }
    false
}

/// Whether `pat` is a prefix of `s`.
pub fn starts_with_chars(s: &Vec<char>, pat: &Vec<char>) -> (b: bool)
    ensures
        b == match_at(s@, pat@, 0),
{
    is_match_at(s, pat, 0)
}

/// One unfolding step of `replace_all` at a position where `pat` matches.
proof fn lemma_replace_step_match(s: Seq<char>, pat: Seq<char>, rep: Seq<char>, i: int)
    requires
        pat.len() > 0,
        match_at(s, pat, i),
    ensures
        replace_all(s.skip(i), pat, rep) == rep + replace_all(s.skip(i + pat.len()), pat, rep),
{
    let t = s.skip(i);
    assert(t.subrange(0, pat.len() as int) =~= s.subrange(i, i + pat.len() as int));
    assert(t.skip(pat.len() as int) =~= s.skip(i + pat.len()));
}

/// One unfolding step of `replace_all` at a position where `pat` does not
/// match.
proof fn lemma_replace_step_miss(s: Seq<char>, pat: Seq<char>, rep: Seq<char>, i: int)
    requires
        pat.len() > 0,
        0 <= i < s.len(),
        !match_at(s, pat, i),
    ensures
        replace_all(s.skip(i), pat, rep) == seq![s[i]] + replace_all(s.skip(i + 1), pat, rep),
{
    let t = s.skip(i);
    assert(t.len() > 0);
    assert(t[0] == s[i]);
    assert(t.skip(1) =~= s.skip(i + 1));
    if t.len() >= pat.len() {
        assert(t.subrange(0, pat.len() as int) =~= s.subrange(i, i + pat.len() as int));
        assert(t.subrange(0, pat.len() as int) != pat);
        assert(replace_all(t, pat, rep) == seq![t[0]] + replace_all(t.skip(1), pat, rep));
    } else {
        assert(replace_all(t, pat, rep) == t);
        assert(replace_all(t.skip(1), pat, rep) == t.skip(1));
        assert(t =~= seq![t[0]] + t.skip(1));
    }
}

/// Replaces every leftmost, non-overlapping occurrence of `pat` in `s` by
/// `rep`; an empty pattern leaves the text unchanged.
pub fn replace_chars(s: &Vec<char>, pat: &Vec<char>, rep: &Vec<char>) -> (r: Vec<char>)
    ensures
        r@ == replace_all(s@, pat@, rep@),
{
    if pat.len() == 0 {
        return copy_chars(s);
    }
    let mut out: Vec<char> = Vec::new();
    let mut i: usize = 0;
    proof {
        assert(s@.skip(0) =~= s@);
        assert(Seq::<char>::empty() + replace_all(s@, pat@, rep@) =~= replace_all(s@, pat@, rep@));
    }
    while i < s.len()
        invariant
            pat.len() > 0,
            i <= s.len(),
            replace_all(s@, pat@, rep@) == out@ + replace_all(s@.skip(i as int), pat@, rep@),
        decreases s.len() - i,
    {
        if is_match_at(s, pat, i) {
            append_chars(&mut out, rep);
            proof {
                lemma_replace_step_match(s@, pat@, rep@, i as int);
            }
            i = i + pat.len();
        } else {
            out.push(s[i]);
            proof {
                lemma_replace_step_miss(s@, pat@, rep@, i as int);
            }
            i = i + 1;
        }
    }
    proof {
        assert(s@.skip(s@.len() as int) =~= Seq::<char>::empty());
        assert(replace_all(Seq::<char>::empty(), pat@, rep@) == Seq::<char>::empty());
        assert(replace_all(s@, pat@, rep@) =~= out@);
    }
    out
}

/// Replacement of a pattern that does not occur leaves the text unchanged.
pub proof fn lemma_replace_none(s: Seq<char>, pat: Seq<char>, rep: Seq<char>)
    requires
        pat.len() > 0,
        !contains_seq(s, pat),
    ensures
        replace_all(s, pat, rep) == s,
    decreases s.len(),
{
    if s.len() >= pat.len() {
        assert(!match_at(s, pat, 0));
        assert(s.subrange(0, pat.len() as int) != pat);
        assert forall|i: int| !match_at(s.skip(1), pat, i) by {
            if match_at(s.skip(1), pat, i) {
                assert(s.subrange(i + 1, i + 1 + pat.len() as int) =~= s.skip(1).subrange(
                    i,
                    i + pat.len() as int,
                ));
                assert(match_at(s, pat, i + 1));
            }
        }
        lemma_replace_none(s.skip(1), pat, rep);
        assert(replace_all(s, pat, rep) == seq![s[0]] + s.skip(1));
        assert(seq![s[0]] + s.skip(1) =~= s);
    }
}

/// If no occurrence of the pattern begins in the first `k` characters, the
/// replacement leaves that prefix alone and works on the rest.
pub proof fn lemma_replace_prefix_skip(s: Seq<char>, pat: Seq<char>, rep: Seq<char>, k: int)
    requires
        pat.len() > 0,
        0 <= k <= s.len(),
        forall|i: int| 0 <= i < k ==> !match_at(s, pat, i),
    ensures
        replace_all(s, pat, rep) == s.subrange(0, k) + replace_all(s.skip(k), pat, rep),
    decreases k,
{
    if k == 0 {
        assert(s.skip(0) =~= s);
        assert(s.subrange(0, 0) + replace_all(s, pat, rep) =~= replace_all(s, pat, rep));
    } else {
        assert(!match_at(s, pat, 0));
        if s.len() >= pat.len() {
            assert(s.subrange(0, pat.len() as int) != pat);
        }
        let t = s.skip(1);
        assert forall|i: int| 0 <= i < k - 1 implies !match_at(t, pat, i) by {
            if match_at(t, pat, i) {
                assert(s.subrange(i + 1, i + 1 + pat.len() as int) =~= t.subrange(
                    i,
                    i + pat.len() as int,
                ));
                assert(match_at(s, pat, i + 1));
            }
        }
        lemma_replace_prefix_skip(t, pat, rep, k - 1);
        if s.len() < pat.len() {
            assert(replace_all(s, pat, rep) == s);
            assert(replace_all(s.skip(k), pat, rep) == s.skip(k));
            assert(s =~= s.subrange(0, k) + s.skip(k));
        } else {
            assert(replace_all(s, pat, rep) == seq![s[0]] + replace_all(t, pat, rep));
            assert(t.subrange(0, k - 1) =~= s.subrange(1, k));
            assert(t.skip(k - 1) =~= s.skip(k));
            assert(seq![s[0]] + (s.subrange(1, k) + replace_all(s.skip(k), pat, rep)) =~= s.subrange(
                0,
                k,
            ) + replace_all(s.skip(k), pat, rep));
        }
    }
}

/// The parts of `s` between occurrences of the separator `c`; splitting the
/// empty text yields one empty part, and every separator ends one part.
pub open spec fn split_char(s: Seq<char>, c: char) -> Seq<Seq<char>>
    decreases s.len(),
{
    if s.len() == 0 {
        seq![Seq::<char>::empty()]
    } else if s[0] == c {
        seq![Seq::<char>::empty()] + split_char(s.skip(1), c)
    } else {
        let rest = split_char(s.skip(1), c);
        seq![seq![s[0]] + rest[0]] + rest.skip(1)
    }
}

/// Splitting always yields at least one part.
pub proof fn lemma_split_char_len(s: Seq<char>, c: char)
    ensures
        split_char(s, c).len() >= 1,
    decreases s.len(),
{
    if s.len() > 0 {
        lemma_split_char_len(s.skip(1), c);
    }
}

/// `parts` with `pre` prepended to its first part.
pub open spec fn prepend_first(pre: Seq<char>, parts: Seq<Seq<char>>) -> Seq<Seq<char>> {
    seq![pre + parts[0]] + parts.skip(1)
}

/// Splits `s` at every occurrence of `c`.
pub fn split_chars(s: &Vec<char>, c: char) -> (r: Vec<Vec<char>>)
    ensures
        r.deep_view() == split_char(s@, c),
{
    let mut parts: Vec<Vec<char>> = Vec::new();
    let mut cur: Vec<char> = Vec::new();
    let mut i: usize = 0;
    proof {
        lemma_split_char_len(s@, c);
        assert(s@.skip(0) =~= s@);
        assert(prepend_first(cur@, split_char(s@, c)) =~~= split_char(s@, c));
        assert(parts.deep_view() =~~= Seq::<Seq<char>>::empty());
    }
    while i < s.len()
        invariant
            i <= s.len(),
            split_char(s@, c) =~~= parts.deep_view() + prepend_first(
                cur@,
                split_char(s@.skip(i as int), c),
            ),
        decreases s.len() - i,
    {
        let ghost t = s@.skip(i as int);
        proof {
            assert(t[0] == s@[i as int]);
            assert(t.skip(1) =~= s@.skip(i + 1));
            lemma_split_char_len(s@.skip(i + 1), c);
        }
        if s[i] == c {
            let done = cur;
            cur = Vec::new();
            parts.push(done);
            proof {
                assert(split_char(t, c) == seq![Seq::<char>::empty()] + split_char(
                    s@.skip(i + 1),
                    c,
                ));
                assert(prepend_first(done@, split_char(t, c)) =~~= seq![done@] + split_char(
                    s@.skip(i + 1),
                    c,
                ));
                assert(prepend_first(cur@, split_char(s@.skip(i + 1), c)) =~~= split_char(
                    s@.skip(i + 1),
                    c,
                ));
                assert(parts.deep_view() =~~= parts.deep_view().drop_last().push(done@.subrange(
                    0,
                    done@.len() as int,
                )));
                assert(parts.deep_view().last() == done@);
                assert(split_char(s@, c) =~~= parts.deep_view() + prepend_first(
                    cur@,
                    split_char(s@.skip(i + 1), c),
                ));
            }
        } else {
            let ghost cur0 = cur@;
            cur.push(s[i]);
            proof {
                let rest = split_char(s@.skip(i + 1), c);
                assert(split_char(t, c) == seq![seq![t[0]] + rest[0]] + rest.skip(1));
                assert(prepend_first(cur0, split_char(t, c)) =~~= prepend_first(cur@, rest));
            }
        }
        i = i + 1;
    }
    proof {
        assert(s@.skip(s@.len() as int) =~= Seq::<char>::empty());
        assert(split_char(Seq::<char>::empty(), c) == seq![Seq::<char>::empty()]);
        assert(prepend_first(cur@, seq![Seq::<char>::empty()]) =~~= seq![cur@]);
    }
    parts.push(cur);
    proof {
        assert(parts.deep_view() =~~= split_char(s@, c));
    }
    parts
}

/// The deep view of a character vector is its view.
pub proof fn lemma_chars_deep(v: Vec<char>)
    ensures
        v.deep_view() == v@,
{
    assert(v.deep_view() =~= v@);
}

/// Pushing onto a vector of character vectors pushes the element's view onto
/// the deep view.
pub proof fn lemma_deep_push(a: Vec<Vec<char>>, b: Vec<Vec<char>>, p: Vec<char>)
    requires
        b@ == a@.push(p),
    ensures
        b.deep_view() == a.deep_view().push(p@),
{
    lemma_chars_deep(p);
    assert forall|k: int| 0 <= k < b@.len() implies b.deep_view()[k] == a.deep_view().push(p@)[k]
    by {
        if k < a@.len() {
            assert(b@[k] == a@[k]);
        } else {
            assert(b@[k] == p);
            lemma_chars_deep(b@[k]);
        }
    }
    assert(b.deep_view() =~= a.deep_view().push(p@));
}

/// Dropping the last element of a vector of character vectors drops the last
/// element of the deep view.
pub proof fn lemma_deep_drop_last(a: Vec<Vec<char>>, b: Vec<Vec<char>>)
    requires
        a@.len() > 0,
        b@ == a@.drop_last(),
    ensures
        b.deep_view() == a.deep_view().drop_last(),
{
    assert forall|k: int| 0 <= k < b@.len() implies b.deep_view()[k]
        == a.deep_view().drop_last()[k] by {
        assert(b@[k] == a@[k]);
    }
    assert(b.deep_view() =~= a.deep_view().drop_last());
}

/// Indexing the deep view of a vector of character vectors yields the view of
/// the element.
pub proof fn lemma_deep_index(a: &Vec<Vec<char>>, i: int)
    requires
        0 <= i < a@.len(),
    ensures
        a.deep_view()[i] == a@[i]@,
{
    lemma_chars_deep(a@[i]);
}

/// Pushing onto a vector of strings pushes the string's view onto the deep
/// view.
pub proof fn lemma_deep_push_str(a: Vec<String>, b: Vec<String>, p: String)
    requires
        b@ == a@.push(p),
    ensures
        b.deep_view() == a.deep_view().push(p@),
{
    assert forall|k: int| 0 <= k < b@.len() implies b.deep_view()[k] == a.deep_view().push(p@)[k]
    by {
        if k < a@.len() {
            assert(b@[k] == a@[k]);
        } else {
            assert(b@[k] == p);
        }
    }
    assert(b.deep_view() =~= a.deep_view().push(p@));
}

/// Indexing the deep view of a vector of strings yields the view of the
/// element.
pub proof fn lemma_deep_index_str(a: &Vec<String>, i: int)
    requires
        0 <= i < a@.len(),
    ensures
        a.deep_view()[i] == a@[i]@,
{
}

/// `l` with one trailing carriage return removed, if it has one.
pub open spec fn strip_cr(l: Seq<char>) -> Seq<char> {
    if l.len() > 0 && l.last() == '\r' {
        l.drop_last()
    } else {
        l
    }
}

/// The lines of `s`: the parts between newline characters, each stripped of
/// one trailing carriage return, and without the empty part that a trailing
/// newline (or empty input) would leave at the end.
pub open spec fn lines_of(s: Seq<char>) -> Seq<Seq<char>> {
    let parts = split_char(s, '\n').map_values(|p: Seq<char>| strip_cr(p));
    if parts.last().len() == 0 {
        parts.drop_last()
    } else {
        parts
    }
}

/// Splits `s` into lines.
pub fn lines_chars(s: &Vec<char>) -> (r: Vec<Vec<char>>)
    ensures
        r.deep_view() == lines_of(s@),
{
    let raw = split_chars(s, '\n');
    let mut parts: Vec<Vec<char>> = Vec::new();
    let mut i: usize = 0;
    let ghost stripped = split_char(s@, '\n').map_values(|p: Seq<char>| strip_cr(p));
    while i < raw.len()
        invariant
            i <= raw.len(),
            raw.deep_view() == split_char(s@, '\n'),
            stripped == split_char(s@, '\n').map_values(|p: Seq<char>| strip_cr(p)),
            parts.deep_view() =~~= stripped.subrange(0, i as int),
        decreases raw.len() - i,
    {
        let mut p = copy_chars(&raw[i]);
        proof {
            lemma_deep_index(&raw, i as int);
            assert(p@ == split_char(s@, '\n')[i as int]);
        }
        if p.len() > 0 && p[p.len() - 1] == '\r' {
            p.pop();
            proof {
                assert(p@ =~= strip_cr(split_char(s@, '\n')[i as int]));
            }
        }
        proof {
            assert(stripped[i as int] == strip_cr(split_char(s@, '\n')[i as int]));
            assert(p@ == stripped[i as int]);
        }
        let ghost parts0 = parts;
        parts.push(p);
        i = i + 1;
        proof {
            lemma_deep_push(parts0, parts, p);
            assert(parts.deep_view() =~= stripped.subrange(0, i as int));
        }
    }
    proof {
        lemma_split_char_len(s@, '\n');
        assert(parts.deep_view() =~= stripped);
    }
    if parts.len() > 0 && parts[parts.len() - 1].len() == 0 {
        let ghost parts1 = parts;
        proof {
            lemma_deep_index(&parts, parts@.len() - 1);
            assert(stripped.last().len() == 0);
        }
        parts.pop();
        proof {
            lemma_deep_drop_last(parts1, parts);
        }
    } else {
        proof {
            if parts@.len() > 0 {
                lemma_deep_index(&parts, parts@.len() - 1);
            }
        }
    }
    parts
}

/// The decimal digit character for `d`.
pub open spec fn digit_char(d: nat) -> char {
    if d == 0 {
        '0'
    } else if d == 1 {
        '1'
    } else if d == 2 {
        '2'
    } else if d == 3 {
        '3'
    } else if d == 4 {
        '4'
    } else if d == 5 {
        '5'
    } else if d == 6 {
        '6'
    } else if d == 7 {
        '7'
    } else if d == 8 {
        '8'
    } else {
        '9'
    }
}

/// The decimal spelling of `n`, most significant digit first.
pub open spec fn dec_str(n: nat) -> Seq<char>
    decreases n,
{
    if n < 10 {
        seq![digit_char(n)]
    } else {
        dec_str(n / 10) + seq![digit_char(n % 10)]
    }
}

/// Renders `n` in decimal.
pub fn dec_chars(n: usize) -> (r: Vec<char>)
    ensures
        r@ == dec_str(n as nat),
    decreases n,
{
    let d = n % 10;
    let c: char = if d == 0 {
        '0'
    } else if d == 1 {
        '1'
    } else if d == 2 {
        '2'
    } else if d == 3 {
        '3'
    } else if d == 4 {
        '4'
    } else if d == 5 {
        '5'
    } else if d == 6 {
        '6'
    } else if d == 7 {
        '7'
    } else if d == 8 {
        '8'
    } else {
        '9'
    };
    if n < 10 {
        let mut r: Vec<char> = Vec::new();
        r.push(c);
        proof {
            assert(r@ =~= seq![digit_char(n as nat)]);
        }
        r
    } else {
        let mut r = dec_chars(n / 10);
        r.push(c);
        proof {
            assert(r@ =~= dec_str((n / 10) as nat) + seq![digit_char((n % 10) as nat)]);
        }
        r
    }
}

/// The value bound to `key` in an association list, the latest binding
/// winning, as in a map built by repeated insertion.
pub open spec fn assoc_last(table: Seq<(Seq<char>, Seq<char>)>, key: Seq<char>) -> Option<
    Seq<char>,
>
    decreases table.len(),
{
    if table.len() == 0 {
        None
    } else if table.last().0 == key {
        Some(table.last().1)
    } else {
        assoc_last(table.drop_last(), key)
    }
}

/// Whether two character vectors hold the same text.
pub fn eq_chars(a: &Vec<char>, b: &Vec<char>) -> (r: bool)
    ensures
        r == (a@ == b@),
{
    if a.len() != b.len() {
        return false;
    }
    let mut i: usize = 0;
    while i < a.len()
        invariant
            a.len() == b.len(),
            i <= a.len(),
            forall|k: int| 0 <= k < i ==> a@[k] == b@[k],
        decreases a.len() - i,
    {
        if a[i] != b[i] {
            return false;
        }
        i = i + 1;
    }
    proof {
        assert(a@ =~= b@);
    }
    true
}

} // verus!

