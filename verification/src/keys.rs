//! The array-key normalizer.
//!
//! A key is a string of segments separated by `.`. A segment that consists
//! entirely of decimal digits and is preceded by a `.` denotes an array
//! index; the normalizer rewrites the pattern "`.`, one or more digits,
//! then `.` or end of string" into "`[digits]`", keeping a following `.`
//! and dropping the leading one. Matches are found left to right, do not
//! overlap, and the scan resumes after each whole match (a `.` consumed as
//! the tail of one match cannot open the next one).

use vstd::prelude::*;

verus! {

/// A decimal digit `0` through `9`.
pub open spec fn is_digit(c: char) -> bool {
    48 <= c as u32 && c as u32 <= 57
}

/// First position at or after `i` that is past the end or holds a
/// non-digit: the digit run starting at `i` is `s[i .. run_end(s, i)]`.
pub open spec fn run_end(s: Seq<char>, i: int) -> int
    decreases s.len() - i,
{
    if i < s.len() && is_digit(s[i]) {
        run_end(s, i + 1)
    } else {
        i
    }
}

/// The rewriting pattern matches at position `i` of `s`: a `.`, then one
/// or more digits, then either the end of the string or another `.`.
pub open spec fn match_at(s: Seq<char>, i: int) -> bool {
    &&& 0 <= i
    &&& i + 1 < s.len()
    &&& s[i] == '.'
    &&& is_digit(s[i + 1])
    &&& (run_end(s, i + 1) == s.len() || s[run_end(s, i + 1)] == '.')
}

/// No position of `s` matches the rewriting pattern; such a key is left
/// unchanged by the normalizer.
pub open spec fn no_match(s: Seq<char>) -> bool {
    forall|i: int| !match_at(s, i)
}

pub proof fn lemma_run_end_bounds(s: Seq<char>, i: int)
    requires
        0 <= i <= s.len(),
    ensures
        i <= run_end(s, i) <= s.len(),
        forall|t: int| i <= t < run_end(s, i) ==> is_digit(s[t]),
        run_end(s, i) < s.len() ==> !is_digit(s[run_end(s, i)]),
    decreases s.len() - i,
{
    if i < s.len() && is_digit(s[i]) {
        lemma_run_end_bounds(s, i + 1);
    }
}

/// The run end is the unique position `j` at or after `i` with only digits
/// before it (from `i` on) and no digit at it.
pub proof fn lemma_run_end_is(s: Seq<char>, i: int, j: int)
    requires
        0 <= i <= j <= s.len(),
        forall|t: int| i <= t < j ==> is_digit(s[t]),
        j == s.len() || !is_digit(s[j]),
    ensures
        run_end(s, i) == j,
    decreases j - i,
{
    if i < j {
        assert(is_digit(s[i]));
        lemma_run_end_is(s, i + 1, j);
    }
}

/// What the normalizer produces from position `i` of `s` to the end:
/// on a match, the digit run comes out bracketed, the leading `.` is
/// dropped, a following `.` is kept, and the scan resumes after the whole
/// match; elsewhere the character is copied and the scan moves on by one.
pub open spec fn norm_from(s: Seq<char>, i: int) -> Seq<char>
    decreases s.len() - i,
    via norm_from_decreases
{
    if !(0 <= i < s.len()) {
        Seq::<char>::empty()
    } else if match_at(s, i) {
        let j = run_end(s, i + 1);
        let digits = s.subrange(i + 1, j);
        if j == s.len() {
            seq!['['] + digits + seq![']']
        } else {
            seq!['['] + digits + seq![']', '.'] + norm_from(s, j + 1)
        }
    } else {
        seq![s[i]] + norm_from(s, i + 1)
    }
}

#[via_fn]
proof fn norm_from_decreases(s: Seq<char>, i: int) {
    if 0 <= i < s.len() && match_at(s, i) {
        lemma_run_end_bounds(s, i + 1);
    }
}

/// The whole normalized form of a key.
pub open spec fn normalize(s: Seq<char>) -> Seq<char> {
    norm_from(s, 0)
}

/// Over a stretch with no match, the normalizer copies the characters.
pub proof fn lemma_scan_plain(s: Seq<char>, i0: int, m: int)
    requires
        0 <= i0 <= m <= s.len(),
        forall|i: int| i0 <= i < m ==> !match_at(s, i),
    ensures
        norm_from(s, i0) == s.subrange(i0, m) + norm_from(s, m),
    decreases m - i0,
{
    if i0 < m {
        lemma_scan_plain(s, i0 + 1, m);
        assert(norm_from(s, i0) == seq![s[i0]] + norm_from(s, i0 + 1));
        assert(seq![s[i0]] + (s.subrange(i0 + 1, m) + norm_from(s, m)) =~= s.subrange(i0, m)
            + norm_from(s, m));
    } else {
        assert(s.subrange(i0, m) + norm_from(s, m) =~= norm_from(s, m));
    }
}

/// Identity law: a key on which the pattern matches nowhere — no segment
/// of one or more digits sits between a `.` and a `.` or the end — comes
/// back from the normalizer unchanged.
pub proof fn lemma_normalize_identity(s: Seq<char>)
    requires
        no_match(s),
    ensures
        normalize(s) == s,
{
    lemma_scan_plain(s, 0, s.len() as int);
    assert(norm_from(s, s.len() as int) == Seq::<char>::empty());
    assert(s.subrange(0, s.len() as int) + Seq::<char>::empty() =~= s);
}

/// A digit run that is stopped by a character that is neither a digit,
/// nor the delimiter, nor the end of the string is no match: such a
/// segment, its leading `.` included, is left untouched.
pub proof fn lemma_unterminated_run_not_matched(s: Seq<char>, i: int, j: int)
    requires
        0 <= i < s.len(),
        s[i] == '.',
        i + 1 <= j < s.len(),
        forall|t: int| i + 1 <= t < j ==> is_digit(s[t]),
        !is_digit(s[j]),
        s[j] != '.',
    ensures
        !match_at(s, i),
{
    lemma_run_end_is(s, i + 1, j);
}

/// Appending anything that does not start with a digit to a key without
/// matches cannot create a match inside the old part.
pub proof fn lemma_no_match_in_prefix(p: Seq<char>, t: Seq<char>, i: int)
    requires
        no_match(p),
        t.len() == 0 || !is_digit(t[0]),
        0 <= i < p.len(),
    ensures
        !match_at(p + t, i),
{
    let s = p + t;
    if match_at(s, i) {
        lemma_run_end_bounds(s, i + 1);
        let j = run_end(s, i + 1);
        if i + 1 == p.len() {
            assert(s[i + 1] == t[0]);
            assert(false);
        } else {
            if j > p.len() {
                assert(is_digit(s[p.len() as int]));
                assert(s[p.len() as int] == t[0]);
                assert(false);
            }
            assert forall|u: int| i + 1 <= u < j implies is_digit(p[u]) by {
                assert(p[u] == s[u]);
            }
            if j == p.len() {
                lemma_run_end_is(p, i + 1, j);
                assert(p[i] == s[i]);
                assert(p[i + 1] == s[i + 1]);
                assert(match_at(p, i));
            } else {
                assert(s[j] == '.');
                assert(p[j] == s[j]);
                lemma_run_end_is(p, i + 1, j);
                assert(p[i] == s[i]);
                assert(p[i + 1] == s[i + 1]);
                assert(match_at(p, i));
            }
            assert(false);
        }
    }
}

/// The digit run found from a position of a suffix is the run found from
/// the corresponding position of the whole string.
pub proof fn lemma_run_end_shift(s: Seq<char>, d: int, i: int)
    requires
        0 <= d <= s.len(),
        0 <= i,
        d + i <= s.len(),
    ensures
        run_end(s, d + i) == d + run_end(s.skip(d), i),
    decreases s.len() - d - i,
{
    let r = s.skip(d);
    if d + i < s.len() && is_digit(s[d + i]) {
        assert(r[i] == s[d + i]);
        lemma_run_end_shift(s, d, i + 1);
    } else {
        if i < r.len() {
            assert(r[i] == s[d + i]);
        }
    }
}

/// Whether the pattern matches at a position of a suffix is decided by
/// the suffix alone: the pattern never looks left of its start.
pub proof fn lemma_match_at_shift(s: Seq<char>, d: int, i: int)
    requires
        0 <= d <= s.len(),
        0 <= i,
        d + i <= s.len(),
    ensures
        match_at(s, d + i) == match_at(s.skip(d), i),
{
    let r = s.skip(d);
    if d + i < s.len() {
        assert(r[i] == s[d + i]);
        lemma_run_end_shift(s, d, i + 1);
        lemma_run_end_bounds(s, d + i + 1);
        let j = run_end(s, d + i + 1);
        let jr = run_end(r, i + 1);
        if i + 1 < r.len() {
            assert(r[i + 1] == s[d + i + 1]);
        }
        if j < s.len() {
            assert(r[jr] == s[j]);
        }
    }
}

/// The normalizer treats the part of a key from any position on exactly
/// as it would treat that part as a key of its own: the scan never looks
/// back.
pub proof fn lemma_norm_from_shift(s: Seq<char>, d: int, i: int)
    requires
        0 <= d <= s.len(),
        0 <= i,
        d + i <= s.len(),
    ensures
        norm_from(s, d + i) == norm_from(s.skip(d), i),
    decreases s.len() - d - i,
{
    let r = s.skip(d);
    if d + i < s.len() {
        assert(r[i] == s[d + i]);
        lemma_run_end_shift(s, d, i + 1);
        lemma_run_end_bounds(s, d + i + 1);
        let j = run_end(s, d + i + 1);
        let jr = run_end(r, i + 1);
        if i + 1 < r.len() {
            assert(r[i + 1] == s[d + i + 1]);
        }
        if j < s.len() {
            assert(r[jr] == s[j]);
        }
        assert(match_at(s, d + i) == match_at(r, i));
        if match_at(s, d + i) {
            assert(s.subrange(d + i + 1, j) =~= r.subrange(i + 1, jr));
            if j < s.len() {
                lemma_norm_from_shift(s, d, jr + 1);
            }
        } else {
            lemma_norm_from_shift(s, d, i + 1);
        }
    }
}

/// Bracketing law, final segment: a digit-only segment at the end of the
/// key, after a prefix in which nothing matches, comes out bracketed and
/// attached to the prefix.
pub proof fn lemma_normalize_last_segment(p: Seq<char>, n: Seq<char>)
    requires
        no_match(p),
        n.len() >= 1,
        forall|t: int| 0 <= t < n.len() ==> is_digit(n[t]),
    ensures
        normalize(p + seq!['.'] + n) == p + seq!['['] + n + seq![']'],
{
    let s = p + seq!['.'] + n;
    let m = p.len() as int;
    assert(s =~= p + (seq!['.'] + n));
    assert forall|i: int| 0 <= i < m implies !match_at(s, i) by {
        lemma_no_match_in_prefix(p, seq!['.'] + n, i);
    }
    lemma_scan_plain(s, 0, m);
    assert forall|u: int| m + 1 <= u < s.len() implies is_digit(s[u]) by {
        assert(s[u] == n[u - m - 1]);
    }
    lemma_run_end_is(s, m + 1, s.len() as int);
    assert(s[m] == '.');
    assert(s[m + 1] == n[0]);
    assert(match_at(s, m));
    assert(s.subrange(m + 1, s.len() as int) =~= n);
    assert(norm_from(s, m) == seq!['['] + n + seq![']']);
    assert(s.subrange(0, m) =~= p);
    assert(p + (seq!['['] + n + seq![']']) =~= p + seq!['['] + n + seq![']']);
}

/// Bracketing law, inner segment: a digit-only segment between two `.`
/// comes out bracketed, the `.` after it stays, and the rest of the key
/// is normalized on its own, unaffected by what came before.
pub proof fn lemma_normalize_mid_segment(p: Seq<char>, n: Seq<char>, q: Seq<char>)
    requires
        no_match(p),
        n.len() >= 1,
        forall|t: int| 0 <= t < n.len() ==> is_digit(n[t]),
    ensures
        normalize(p + seq!['.'] + n + seq!['.'] + q) == p + seq!['['] + n + seq![']', '.']
            + normalize(q),
{
    let s = p + seq!['.'] + n + seq!['.'] + q;
    let m = p.len() as int;
    let e = m + 1 + n.len() as int;
    assert(s =~= p + (seq!['.'] + n + seq!['.'] + q));
    assert forall|i: int| 0 <= i < m implies !match_at(s, i) by {
        lemma_no_match_in_prefix(p, seq!['.'] + n + seq!['.'] + q, i);
    }
    lemma_scan_plain(s, 0, m);
    assert forall|u: int| m + 1 <= u < e implies is_digit(s[u]) by {
        assert(s[u] == n[u - m - 1]);
    }
    assert(s[e] == '.');
    lemma_run_end_is(s, m + 1, e);
    assert(s[m] == '.');
    assert(s[m + 1] == n[0]);
    assert(match_at(s, m));
    assert(s.subrange(m + 1, e) =~= n);
    lemma_norm_from_shift(s, e + 1, 0);
    assert(s.skip(e + 1) =~= q);
    assert(norm_from(s, m) == seq!['['] + n + seq![']', '.'] + normalize(q));
    assert(s.subrange(0, m) =~= p);
    assert(p + (seq!['['] + n + seq![']', '.'] + normalize(q)) =~= p + seq!['['] + n + seq![
        ']',
        '.',
    ] + normalize(q));
}

/// Independence law: two digit-only segments separated by unmatched text
/// are bracketed independently, left to right.
pub proof fn lemma_normalize_two_segments(
    p1: Seq<char>,
    n1: Seq<char>,
    p2: Seq<char>,
    n2: Seq<char>,
)
    requires
        no_match(p1),
        no_match(p2),
        n1.len() >= 1,
        n2.len() >= 1,
        forall|t: int| 0 <= t < n1.len() ==> is_digit(n1[t]),
        forall|t: int| 0 <= t < n2.len() ==> is_digit(n2[t]),
    ensures
        normalize(p1 + seq!['.'] + n1 + seq!['.'] + p2 + seq!['.'] + n2) == p1 + seq!['['] + n1
            + seq![']', '.'] + p2 + seq!['['] + n2 + seq![']'],
{
    let q = p2 + seq!['.'] + n2;
    lemma_normalize_mid_segment(p1, n1, q);
    lemma_normalize_last_segment(p2, n2);
    assert(p1 + seq!['.'] + n1 + seq!['.'] + q =~= p1 + seq!['.'] + n1 + seq!['.'] + p2
        + seq!['.'] + n2);
    assert(p1 + seq!['['] + n1 + seq![']', '.'] + (p2 + seq!['['] + n2 + seq![']']) =~= p1
        + seq!['['] + n1 + seq![']', '.'] + p2 + seq!['['] + n2 + seq![']']);
}

/// A key laid out as any number of digit-only segments, each preceded by
/// a piece of plain text and its delimiter and followed by a delimiter,
/// before a final tail: `plain0.digits0.plain1.digits1.` ... `.tail`.
pub open spec fn build_key(parts: Seq<(Seq<char>, Seq<char>)>, tail: Seq<char>) -> Seq<char>
    decreases parts.len(),
{
    if parts.len() == 0 {
        tail
    } else {
        parts[0].0 + seq!['.'] + parts[0].1 + seq!['.'] + build_key(parts.skip(1), tail)
    }
}

/// The same key with every digit-only segment bracketed: `plain0[digits0].
/// plain1[digits1].` ... `.tail`.
pub open spec fn build_bracketed(parts: Seq<(Seq<char>, Seq<char>)>, tail: Seq<char>) -> Seq<
    char,
>
    decreases parts.len(),
{
    if parts.len() == 0 {
        tail
    } else {
        parts[0].0 + seq!['['] + parts[0].1 + seq![']', '.'] + build_bracketed(parts.skip(1), tail)
    }
}

/// Independence law, general form: in a key with any number of
/// digit-only segments, each between two delimiters and separated from
/// the next by plain text in which nothing matches, every one is
/// bracketed, left to right, and nothing else changes.
pub proof fn lemma_normalize_all_segments(parts: Seq<(Seq<char>, Seq<char>)>, tail: Seq<char>)
    requires
        forall|i: int| 0 <= i < parts.len() ==> no_match(#[trigger] parts[i].0),
        forall|i: int| 0 <= i < parts.len() ==> (#[trigger] parts[i].1).len() >= 1,
        forall|i: int, t: int|
            0 <= i < parts.len() && 0 <= t < parts[i].1.len() ==> is_digit(
                #[trigger] parts[i].1[t],
            ),
        no_match(tail),
    ensures
        normalize(build_key(parts, tail)) == build_bracketed(parts, tail),
    decreases parts.len(),
{
    if parts.len() == 0 {
        lemma_normalize_identity(tail);
    } else {
        let p = parts[0].0;
        let n = parts[0].1;
        let rest = parts.skip(1);
        assert forall|i: int| 0 <= i < rest.len() implies no_match(#[trigger] rest[i].0) by {
            assert(rest[i] == parts[i + 1]);
        }
        assert forall|i: int| 0 <= i < rest.len() implies (#[trigger] rest[i].1).len() >= 1 by {
            assert(rest[i] == parts[i + 1]);
        }
        assert forall|i: int, t: int|
            0 <= i < rest.len() && 0 <= t < rest[i].1.len() implies is_digit(
            #[trigger] rest[i].1[t],
        ) by {
            assert(rest[i] == parts[i + 1]);
        }
        lemma_normalize_all_segments(rest, tail);
        assert(no_match(p));
        assert forall|t: int| 0 <= t < n.len() implies is_digit(n[t]) by {
            assert(is_digit(parts[0].1[t]));
        }
        lemma_normalize_mid_segment(p, n, build_key(rest, tail));
    }
}

/// Brackets are never matched again: the bracketed form of a last
/// segment contains no match at all.
pub proof fn lemma_no_match_bracketed(p: Seq<char>, n: Seq<char>)
    requires
        no_match(p),
        n.len() >= 1,
        forall|t: int| 0 <= t < n.len() ==> is_digit(n[t]),
    ensures
        no_match(p + seq!['['] + n + seq![']']),
{
    let s = p + seq!['['] + n + seq![']'];
    assert forall|i: int| !match_at(s, i) by {
        if 0 <= i < p.len() {
            assert(s =~= p + (seq!['['] + n + seq![']']));
            lemma_no_match_in_prefix(p, seq!['['] + n + seq![']'], i);
            assert(!match_at(s, i));
        } else if p.len() <= i < s.len() {
            if i == p.len() {
                assert(s[i] == '[');
            } else if i < p.len() + 1 + n.len() {
                assert(s[i] == n[i - p.len() - 1]);
                assert(is_digit(s[i]));
            } else {
                assert(s[i] == ']');
            }
            assert(s[i] != '.');
        }
    }
}

/// Applying the normalizer again to the normalized form of a key with
/// an inner bracketed segment changes nothing, provided the rest of the
/// key matches nowhere itself and does not begin with a digit: neither
/// the brackets nor the kept `.` before the rest are re-matched.
pub proof fn lemma_normalize_stable_after_mid_bracketing(
    p: Seq<char>,
    n: Seq<char>,
    q: Seq<char>,
)
    requires
        no_match(p),
        n.len() >= 1,
        forall|t: int| 0 <= t < n.len() ==> is_digit(n[t]),
        no_match(q),
        q.len() == 0 || !is_digit(q[0]),
    ensures
        normalize(normalize(p + seq!['.'] + n + seq!['.'] + q)) == normalize(
            p + seq!['.'] + n + seq!['.'] + q,
        ),
{
    lemma_normalize_mid_segment(p, n, q);
    lemma_normalize_identity(q);
    let w = p + seq!['['] + n + seq![']', '.'] + q;
    let b: int = p.len() as int + 2 + n.len() as int;
    assert forall|i: int| !match_at(w, i) by {
        if 0 <= i < p.len() {
            assert(w =~= p + (seq!['['] + n + seq![']', '.'] + q));
            lemma_no_match_in_prefix(p, seq!['['] + n + seq![']', '.'] + q, i);
            assert(!match_at(w, i));
        } else if p.len() <= i < b {
            if i == p.len() {
                assert(w[i] == '[');
            } else if i < p.len() + 1 + n.len() {
                assert(w[i] == n[i - p.len() - 1]);
                assert(is_digit(w[i]));
            } else {
                assert(w[i] == ']');
            }
            assert(w[i] != '.');
        } else if i == b {
            if q.len() > 0 {
                assert(w[i + 1] == q[0]);
            }
        } else if b < i < w.len() {
            lemma_match_at_shift(w, b + 1, i - (b + 1));
            assert(w.skip(b + 1) =~= q);
            assert(!match_at(q, i - (b + 1)));
            assert(!match_at(w, i));
        }
    }
    lemma_normalize_identity(w);
}

/// Applying the normalizer again to the normalized form of a key whose
/// last segment was bracketed changes nothing: the transform as a whole
/// is not idempotent, but brackets are not re-matched.
pub proof fn lemma_normalize_stable_after_bracketing(p: Seq<char>, n: Seq<char>)
    requires
        no_match(p),
        n.len() >= 1,
        forall|t: int| 0 <= t < n.len() ==> is_digit(n[t]),
    ensures
        normalize(normalize(p + seq!['.'] + n)) == normalize(p + seq!['.'] + n),
{
    lemma_normalize_last_segment(p, n);
    lemma_no_match_bracketed(p, n);
    lemma_normalize_identity(p + seq!['['] + n + seq![']']);
}

/// Whether `c` is a decimal digit, decided in executable code.
pub fn digit(c: char) -> (r: bool)
    ensures
        r == is_digit(c),
{
    let u = c as u32;
    48 <= u && u <= 57
}

/// Rewrites every matched numeric path segment of `key` into bracketed
/// index form: `A.B.0` becomes `A.B[0]`, `A.1.C` becomes `A[1].C`. Any
/// string is valid input; a key without a match comes back unchanged.
pub fn normalize_key(key: &str) -> (r: String)
    ensures
        r@ == normalize(key@),
{
    let n = key.unicode_len();
    let mut out = String::new();
    let mut i: usize = 0;
    proof {
        assert(Seq::<char>::empty() + norm_from(key@, 0) =~= norm_from(key@, 0));
    }
    while i < n
        invariant
            n == key@.len(),
            i <= n,
            norm_from(key@, 0) == out@ + norm_from(key@, i as int),
        decreases n - i,
    {
        proof {
            reveal_strlit("[");
            reveal_strlit("]");
            reveal_strlit(".");
            reveal_strlit("].");
        }
        let c = key.get_char(i);
        let ghost prev = out@;
        if c == '.' && i + 1 < n && digit(key.get_char(i + 1)) {
            let mut j: usize = i + 1;
            while j < n && digit(key.get_char(j))
                invariant
                    n == key@.len(),
                    i + 1 <= j <= n,
                    forall|t: int| i + 1 <= t < j ==> is_digit(key@[t]),
                decreases n - j,
            {
                j += 1;
            }
            proof {
                lemma_run_end_is(key@, i + 1 as int, j as int);
            }
            if j == n {
                out.append("[");
                out.append(key.substring_char(i + 1, j));
                out.append("]");
                proof {
                    assert(match_at(key@, i as int));
                    assert(out@ =~= prev + norm_from(key@, i as int));
                    assert(norm_from(key@, j as int) == Seq::<char>::empty());
                    assert(out@ + norm_from(key@, j as int) =~= out@);
                }
                i = j;
            } else if key.get_char(j) == '.' {
                out.append("[");
                out.append(key.substring_char(i + 1, j));
                out.append("].");
                proof {
                    assert(match_at(key@, i as int));
                    assert("]."@ =~= seq![']', '.']);
                    assert(prev + norm_from(key@, i as int) =~= out@ + norm_from(
                        key@,
                        j + 1 as int,
                    ));
                }
                i = j + 1;
            } else {
                out.append(".");
                proof {
                    assert(!match_at(key@, i as int));
                    assert(prev + norm_from(key@, i as int) =~= out@ + norm_from(
                        key@,
                        i + 1 as int,
                    ));
                }
                i += 1;
            }
        } else {
            out.append(key.substring_char(i, i + 1));
            proof {
                assert(!match_at(key@, i as int));
                assert(key@.subrange(i as int, i + 1 as int) =~= seq![key@[i as int]]);
                assert(prev + norm_from(key@, i as int) =~= out@ + norm_from(key@, i + 1 as int));
            }
            i += 1;
        }
    }
    proof {
        assert(out@ + norm_from(key@, n as int) =~= out@);
    }
    out
}

} // verus!
