//! Extraction of a semantic version from the noisy, human-oriented text that
//! the R interpreter prints for `--version`.
//!
//! A version token is three non-empty runs of ASCII digits separated by
//! literal dots, with at least one whitespace character on each side. The
//! whitespace delimiters keep a longer dotted run (such as a four-component
//! identifier) from yielding a partial match. Extraction takes the first such
//! token in document order, verbatim, and prepends the letter `v`.

use vstd::prelude::*;

verus! {

/// Whitespace that may delimit a version token.
pub open spec fn is_version_space(c: char) -> bool {
    c == ' ' || c == '\t' || c == '\n' || c == '\r'
}

/// ASCII decimal digits, the only characters a version component may hold.
pub open spec fn is_ascii_digit(c: char) -> bool {
    48 <= c as u32 && c as u32 <= 57
}

/// Every character of `s[i..j)` is an ASCII digit.
pub open spec fn all_digits(s: Seq<char>, i: int, j: int) -> bool {
    forall|k: int| i <= k < j ==> is_ascii_digit(s[k])
}

/// `s[i..j)` is a non-empty run of ASCII digits.
pub open spec fn digit_group(s: Seq<char>, i: int, j: int) -> bool {
    i < j && all_digits(s, i, j)
}

/// `s[i..j)` splits at positions `a` and `b` into exactly three non-empty
/// digit groups separated by literal dots.
pub open spec fn triplet_parts(s: Seq<char>, i: int, a: int, b: int, j: int) -> bool {
    &&& i < a
    &&& a + 1 < b
    &&& b + 1 < j
    &&& digit_group(s, i, a)
    &&& s[a] == '.'
    &&& digit_group(s, a + 1, b)
    &&& s[b] == '.'
    &&& digit_group(s, b + 1, j)
}

/// `s[i..j)` is exactly three non-empty digit groups separated by dots.
pub open spec fn is_triplet(s: Seq<char>, i: int, j: int) -> bool {
    exists|a: int, b: int| #[trigger] triplet_parts(s, i, a, b, j)
}

/// A whole version token: whitespace at `p`, a triplet on `s[p+1..j)`, and
/// whitespace at `j`.
pub open spec fn match_span(s: Seq<char>, p: int, j: int) -> bool {
    &&& 0 <= p
    &&& p < j
    &&& j < s.len()
    &&& is_version_space(s[p])
    &&& is_version_space(s[j])
    &&& is_triplet(s, p + 1, j)
}

/// A version token begins at position `p` (its leading whitespace).
pub open spec fn match_at(s: Seq<char>, p: int) -> bool {
    exists|j: int| match_span(s, p, j)
}

/// The extraction result when the search has already passed positions `< p`:
/// the first token from `p` on, with `v` prepended, or nothing.
pub open spec fn extract_from(s: Seq<char>, p: int) -> Option<Seq<char>>
    decreases s.len() - p,
{
    if p < 0 || p >= s.len() {
        None
    } else if match_at(s, p) {
        let j = choose|j: int| match_span(s, p, j);
        Some(seq!['v'] + s.subrange(p + 1, j))
    } else {
        extract_from(s, p + 1)
    }
}

/// What extraction returns on the whole text: the first whitespace-delimited
/// numeric triplet, verbatim, with `v` prepended; or nothing when the text
/// holds no such token.
pub open spec fn version_of(s: Seq<char>) -> Option<Seq<char>> {
    extract_from(s, 0)
}

/// Characters that may appear inside a dotted numeric run.
pub open spec fn is_run_char(c: char) -> bool {
    is_ascii_digit(c) || c == '.'
}

/// `s[i..j)` is a maximal non-empty run of digits and dots: the characters
/// just outside it (where the text goes on) are neither.
pub open spec fn dotted_run(s: Seq<char>, i: int, j: int) -> bool {
    &&& 0 <= i < j <= s.len()
    &&& (forall|k: int| i <= k < j ==> is_run_char(s[k]))
    &&& (i == 0 || !is_run_char(s[i - 1]))
    &&& (j == s.len() || !is_run_char(s[j]))
}

/// Every character of a triplet is a digit or a dot.
pub proof fn lemma_triplet_chars(s: Seq<char>, i: int, j: int)
    requires
        is_triplet(s, i, j),
    ensures
        forall|k: int| i <= k < j ==> is_run_char(s[k]),
{
    let (a, b) = choose|a: int, b: int| #[trigger] triplet_parts(s, i, a, b, j);
    assert forall|k: int| i <= k < j implies is_run_char(s[k]) by {
        if k < a {
            assert(is_ascii_digit(s[k]));
        } else if k == a {
        } else if k < b {
            assert(is_ascii_digit(s[k]));
        } else if k == b {
        } else {
            assert(is_ascii_digit(s[k]));
        }
    }
}

/// A token starting at `p` ends at exactly one place: the digit runs extend
/// as far as they can, so the dots and the closing whitespace are forced.
pub proof fn lemma_match_span_unique(s: Seq<char>, p: int, j1: int, j2: int)
    requires
        match_span(s, p, j1),
        match_span(s, p, j2),
    ensures
        j1 == j2,
{
    let (a1, b1) = choose|a: int, b: int| #[trigger] triplet_parts(s, p + 1, a, b, j1);
    let (a2, b2) = choose|a: int, b: int| #[trigger] triplet_parts(s, p + 1, a, b, j2);
    if a1 < a2 {
        assert(is_ascii_digit(s[a1]));
        assert(false);
    }
    if a2 < a1 {
        assert(is_ascii_digit(s[a2]));
        assert(false);
    }
    if b1 < b2 {
        assert(is_ascii_digit(s[b1]));
        assert(false);
    }
    if b2 < b1 {
        assert(is_ascii_digit(s[b2]));
        assert(false);
    }
    if j1 < j2 {
        assert(is_ascii_digit(s[j1]));
        assert(false);
    }
    if j2 < j1 {
        assert(is_ascii_digit(s[j2]));
        assert(false);
    }
}

/// Positions with no token can be skipped without changing the result.
pub proof fn lemma_extract_from_skip(s: Seq<char>, p: int)
    requires
        0 <= p <= s.len(),
        forall|q: int| 0 <= q < p ==> !match_at(s, q),
    ensures
        extract_from(s, 0) == extract_from(s, p),
    decreases p,
{
    if p > 0 {
        lemma_extract_from_skip(s, p - 1);
        assert(!match_at(s, p - 1));
        assert(extract_from(s, p - 1) == extract_from(s, p));
    }
}

/// For all text containing a whitespace-delimited triplet, extraction returns
/// `v` followed by that triplet, using the first occurrence in document order:
/// a token at `p` with none before it pins the result exactly.
pub proof fn lemma_version_of_first_match(s: Seq<char>, p: int, j: int)
    requires
        match_span(s, p, j),
        forall|q: int| 0 <= q < p ==> !match_at(s, q),
    ensures
        version_of(s) == Some(seq!['v'] + s.subrange(p + 1, j)),
{
    lemma_extract_from_skip(s, p);
    assert(match_at(s, p));
    let jc = choose|jj: int| match_span(s, p, jj);
    lemma_match_span_unique(s, p, jc, j);
}

/// For all text in which no maximal dotted numeric run is exactly a
/// three-component triplet, extraction returns absence.
pub proof fn lemma_no_triplet_run_no_version(s: Seq<char>)
    requires
        forall|i: int, j: int| dotted_run(s, i, j) ==> !is_triplet(s, i, j),
    ensures
        version_of(s) is None,
{
    assert forall|q: int| 0 <= q < s.len() implies !match_at(s, q) by {
        if match_at(s, q) {
            let j = choose|jj: int| match_span(s, q, jj);
            lemma_triplet_chars(s, q + 1, j);
            assert(!is_run_char(s[q]));
            assert(!is_run_char(s[j]));
            assert(dotted_run(s, q + 1, j));
            assert(false);
        }
    }
    lemma_extract_from_skip(s, s.len() as int);
}

/// Re-embedding the bare triplet of a successful extraction between single
/// spaces yields the same extraction result. (The full result itself cannot
/// be re-extracted: its leading `v` is not whitespace, so the re-embedded
/// triplet must be bare.)
pub proof fn lemma_reembedded_triplet(t: Seq<char>)
    requires
        is_triplet(t, 0, t.len() as int),
    ensures
        version_of(seq![' '] + t + seq![' ']) == Some(seq!['v'] + t),
{
    let u = seq![' '] + t + seq![' '];
    let n = t.len() as int;
    assert(u.len() == n + 2);
    assert forall|k: int| 0 <= k < n implies u[k + 1] == t[k] by {}
    let (a, b) = choose|a: int, b: int| #[trigger] triplet_parts(t, 0, a, b, n);
    assert(triplet_parts(u, 1, a + 1, b + 1, n + 1)) by {
        assert(u[a + 1] == t[a]);
        assert(u[b + 1] == t[b]);
        assert(digit_group(u, 1, a + 1)) by {
            assert forall|k: int| 1 <= k < a + 1 implies is_ascii_digit(u[k]) by {
                assert(u[k] == t[k - 1]);
                assert(is_ascii_digit(t[k - 1]));
            }
        }
        assert(digit_group(u, a + 2, b + 1)) by {
            assert forall|k: int| a + 2 <= k < b + 1 implies is_ascii_digit(u[k]) by {
                assert(u[k] == t[k - 1]);
                assert(is_ascii_digit(t[k - 1]));
            }
        }
        assert(digit_group(u, b + 2, n + 1)) by {
            assert forall|k: int| b + 2 <= k < n + 1 implies is_ascii_digit(u[k]) by {
                assert(u[k] == t[k - 1]);
                assert(is_ascii_digit(t[k - 1]));
            }
        }
    }
    assert(u[0] == ' ');
    assert(u[n + 1] == ' ');
    assert(match_span(u, 0, n + 1));
    assert(u.subrange(1, n + 1) =~= t);
    lemma_version_of_first_match(u, 0, n + 1);
}

/// A successful extraction comes from some token: the result is `v` followed
/// by the text of a whitespace-delimited triplet.
pub proof fn lemma_extract_from_some(s: Seq<char>, p0: int, v: Seq<char>)
    requires
        0 <= p0,
        extract_from(s, p0) == Some(v),
    ensures
        exists|p: int, j: int|
            p0 <= p && #[trigger] match_span(s, p, j) && v == seq!['v'] + s.subrange(p + 1, j),
    decreases s.len() - p0,
{
    if p0 < s.len() {
        if match_at(s, p0) {
            let j = choose|j: int| match_span(s, p0, j);
            assert(match_span(s, p0, j) && v == seq!['v'] + s.subrange(p0 + 1, j));
        } else {
            lemma_extract_from_some(s, p0 + 1, v);
        }
    }
}

/// Extraction is idempotent on its own output's triplet: whenever extraction
/// succeeds, re-running it on the bare triplet of the result (the result
/// without its leading `v`) embedded between single spaces returns the very
/// same result. (The full result cannot be re-embedded: its leading `v` is
/// not whitespace.)
pub proof fn lemma_extract_idempotent(s: Seq<char>, v: Seq<char>)
    requires
        version_of(s) == Some(v),
    ensures
        version_of(seq![' '] + v.subrange(1, v.len() as int) + seq![' ']) == Some(v),
{
    lemma_extract_from_some(s, 0, v);
    let (p, j) = choose|p: int, j: int|
        0 <= p && #[trigger] match_span(s, p, j) && v == seq!['v'] + s.subrange(p + 1, j);
    let t = s.subrange(p + 1, j);
    let (a, b) = choose|a: int, b: int| #[trigger] triplet_parts(s, p + 1, a, b, j);
    assert(triplet_parts(t, 0, a - (p + 1), b - (p + 1), j - (p + 1))) by {
        assert forall|k: int| 0 <= k < t.len() implies t[k] == s[p + 1 + k] by {}
        assert(digit_group(t, 0, a - (p + 1))) by {
            assert forall|k: int| 0 <= k < a - (p + 1) implies is_ascii_digit(t[k]) by {
                assert(is_ascii_digit(s[p + 1 + k]));
            }
        }
        assert(t[a - (p + 1)] == s[a]);
        assert(digit_group(t, a - (p + 1) + 1, b - (p + 1))) by {
            assert forall|k: int| a - (p + 1) + 1 <= k < b - (p + 1)
                implies is_ascii_digit(t[k]) by {
                assert(is_ascii_digit(s[p + 1 + k]));
            }
        }
        assert(t[b - (p + 1)] == s[b]);
        assert(digit_group(t, b - (p + 1) + 1, j - (p + 1))) by {
            assert forall|k: int| b - (p + 1) + 1 <= k < j - (p + 1)
                implies is_ascii_digit(t[k]) by {
                assert(is_ascii_digit(s[p + 1 + k]));
            }
        }
    }
    lemma_reembedded_triplet(t);
    assert(v.subrange(1, v.len() as int) =~= t);
    assert(seq!['v'] + t =~= v);
}

/// Whether `c` counts as whitespace around a version token.
fn version_space(c: char) -> (r: bool)
    ensures
        r == is_version_space(c),
{
    c == ' ' || c == '\t' || c == '\n' || c == '\r'
}

/// Whether `c` is an ASCII decimal digit.
fn ascii_digit(c: char) -> (r: bool)
    ensures
        r == is_ascii_digit(c),
{
    let u = c as u32;
    48 <= u && u <= 57
}

/// End of the run of ASCII digits beginning at `from`.
fn digit_run_end(s: &str, from: usize, n: usize) -> (r: usize)
    requires
        n == s@.len(),
        from <= n,
    ensures
        from <= r <= n,
        all_digits(s@, from as int, r as int),
        r < n ==> !is_ascii_digit(s@[r as int]),
{
    let mut i = from;
    while i < n
        invariant
            from <= i <= n,
            n == s@.len(),
            all_digits(s@, from as int, i as int),
        decreases n - i,
    {
        let c = s.get_char(i);
        if !ascii_digit(c) {
            return i;
        }
        i = i + 1;
    }
    i
}

/// Where a version token starting at `p` would end; `None` when no token
/// starts there.
fn token_end(s: &str, p: usize, n: usize) -> (r: Option<usize>)
    requires
        n == s@.len(),
        p < n,
    ensures
        match r {
            Some(j) => match_span(s@, p as int, j as int),
            None => !match_at(s@, p as int),
        },
{
    let ghost sv = s@;
    if !version_space(s.get_char(p)) {
        return None;
    }
    let a = digit_run_end(s, p + 1, n);
    if a == p + 1 || a == n || s.get_char(a) != '.' {
        proof {
            assert forall|j: int| !match_span(sv, p as int, j) by {
                if match_span(sv, p as int, j) {
                    let (aa, bb) = choose|aa: int, bb: int| #[trigger]
                        triplet_parts(sv, p + 1, aa, bb, j);
                    assert(is_ascii_digit(sv[p + 1]));
                    if aa < a {
                        assert(is_ascii_digit(sv[aa]));
                    }
                    if aa > a {
                        assert(is_ascii_digit(sv[a as int]));
                    }
                    assert(false);
                }
            }
        }
        return None;
    }
    let b = digit_run_end(s, a + 1, n);
    if b == a + 1 || b == n || s.get_char(b) != '.' {
        proof {
            assert forall|j: int| !match_span(sv, p as int, j) by {
                if match_span(sv, p as int, j) {
                    let (aa, bb) = choose|aa: int, bb: int| #[trigger]
                        triplet_parts(sv, p + 1, aa, bb, j);
                    if aa < a {
                        assert(is_ascii_digit(sv[aa]));
                    }
                    if aa > a {
                        assert(is_ascii_digit(sv[a as int]));
                    }
                    assert(aa == a);
                    assert(is_ascii_digit(sv[a + 1]));
                    if bb < b {
                        assert(is_ascii_digit(sv[bb]));
                    }
                    if bb > b {
                        assert(is_ascii_digit(sv[b as int]));
                    }
                    assert(false);
                }
            }
        }
        return None;
    }
    let j = digit_run_end(s, b + 1, n);
    if j == b + 1 || j == n || !version_space(s.get_char(j)) {
        proof {
            assert forall|jj: int| !match_span(sv, p as int, jj) by {
                if match_span(sv, p as int, jj) {
                    let (aa, bb) = choose|aa: int, bb: int| #[trigger]
                        triplet_parts(sv, p + 1, aa, bb, jj);
                    if aa < a {
                        assert(is_ascii_digit(sv[aa]));
                    }
                    if aa > a {
                        assert(is_ascii_digit(sv[a as int]));
                    }
                    assert(aa == a);
                    if bb < b {
                        assert(is_ascii_digit(sv[bb]));
                    }
                    if bb > b {
                        assert(is_ascii_digit(sv[b as int]));
                    }
                    assert(bb == b);
                    assert(is_ascii_digit(sv[b + 1]));
                    if jj < j {
                        assert(is_ascii_digit(sv[jj]));
                        assert(is_version_space(sv[jj]));
                    }
                    if jj > j {
                        assert(is_ascii_digit(sv[j as int]));
                    }
                    assert(false);
                }
            }
        }
        return None;
    }
    proof {
        assert(triplet_parts(sv, p + 1, a as int, b as int, j as int));
        assert(match_span(sv, p as int, j as int));
    }
    Some(j)
}

/// Searches the captured tool output for the first whitespace-delimited
/// three-component numeric version and returns it with `v` prepended; returns
/// nothing when no such token occurs anywhere in the text.
pub fn parse_version(version: &str) -> (r: Option<String>)
    ensures
        r is Some <==> version_of(version@) is Some,
        r matches Some(v) ==> Some(v@) == version_of(version@),
{
    let ghost sv = version@;
    let n = version.unicode_len();
    let mut p: usize = 0;
    while p < n
        invariant
            0 <= p <= n,
            n == sv.len(),
            sv == version@,
            forall|q: int| 0 <= q < p ==> !match_at(sv, q),
        decreases n - p,
    {
        match token_end(version, p, n) {
            Some(j) => {
                let mut out = String::new();
                out.append("v");
                out.append(version.substring_char(p + 1, j));
                proof {
                    reveal_strlit("v");
                    assert(out@ =~= seq!['v'] + sv.subrange(p + 1, j as int));
                    lemma_version_of_first_match(sv, p as int, j as int);
                }
                return Some(out);
            },
            None => {},
        }
        p = p + 1;
    }
    proof {
        lemma_extract_from_skip(sv, sv.len() as int);
    }
    None
}

} // verus!
