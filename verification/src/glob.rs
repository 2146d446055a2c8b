//! Glob-style pattern matching over byte strings, together with the
//! byte-wise lexicographic order used for sorted listings.
//!
//! Patterns support `*` (any run of bytes), `?` (exactly one byte) and
//! character classes `[...]` with ranges and leading-`!` negation. A `[`
//! that has no closing `]` is taken literally. Matching is byte by byte;
//! case-insensitive scans fold ASCII letters to lower case beforehand.

use vstd::prelude::*;

verus! {

/// ASCII code of `*`.
pub const STAR: u8 = 42;

/// ASCII code of `?`.
pub const QMARK: u8 = 63;

/// ASCII code of `[`.
pub const LBRACK: u8 = 91;

/// ASCII code of `]`.
pub const RBRACK: u8 = 93;

/// ASCII code of `!`.
pub const BANG: u8 = 33;

/// ASCII code of `-`.
pub const DASH: u8 = 45;

/// ASCII code of `A`.
pub const UPPER_A: u8 = 65;

/// ASCII code of `Z`.
pub const UPPER_Z: u8 = 90;

/// Folds one byte to ASCII lower case when the scan is case-insensitive.
pub open spec fn fold_byte(case_sensitive: bool, b: u8) -> u8 {
    if !case_sensitive && UPPER_A <= b && b <= UPPER_Z {
        (b + 32) as u8
    } else {
        b
    }
}

/// Folds a whole byte string, byte by byte.
pub open spec fn fold_bytes(case_sensitive: bool, s: Seq<u8>) -> Seq<u8> {
    s.map_values(|b: u8| fold_byte(case_sensitive, b))
}

/// Executable counterpart of [`fold_byte`].
pub fn fold_byte_exec(case_sensitive: bool, b: u8) -> (r: u8)
    ensures
        r == fold_byte(case_sensitive, b),
{
    if !case_sensitive && UPPER_A <= b && b <= UPPER_Z {
        b + 32
    } else {
        b
    }
}

/// Folds a byte string for matching under the given case sensitivity.
pub fn fold_bytes_exec(case_sensitive: bool, s: &[u8]) -> (r: Vec<u8>)
    ensures
        r@ == fold_bytes(case_sensitive, s@),
{
    let mut out: Vec<u8> = Vec::new();
    let mut i: usize = 0;
    while i < s.len()
        invariant
            i <= s@.len(),
            out@ == fold_bytes(case_sensitive, s@.take(i as int)),
        decreases s@.len() - i,
    {
        out.push(fold_byte_exec(case_sensitive, s[i]));
        proof {
            assert(s@.take(i + 1 as int).drop_last() =~= s@.take(i as int));
            assert(out@ =~= fold_bytes(case_sensitive, s@.take(i + 1 as int)));
        }
        i = i + 1;
    }
    proof {
        assert(s@.take(s@.len() as int) =~= s@);
    }
    out
}

/// Byte-wise lexicographic "less than or equal" on byte strings.
pub open spec fn lex_le(a: Seq<u8>, b: Seq<u8>) -> bool
    decreases a.len(),
{
    if a.len() == 0 {
        true
    } else if b.len() == 0 {
        false
    } else if a[0] < b[0] {
        true
    } else if a[0] > b[0] {
        false
    } else {
        lex_le(a.drop_first(), b.drop_first())
    }
}

/// The lexicographic order is total: of two byte strings, one is always
/// less than or equal to the other.
pub proof fn lemma_lex_le_total(a: Seq<u8>, b: Seq<u8>)
    ensures
        lex_le(a, b) || lex_le(b, a),
    decreases a.len(),
{
    if a.len() == 0 || b.len() == 0 {
    } else if a[0] == b[0] {
        lemma_lex_le_total(a.drop_first(), b.drop_first());
    }
}

/// The lexicographic order is transitive.
pub proof fn lemma_lex_le_trans(a: Seq<u8>, b: Seq<u8>, c: Seq<u8>)
    requires
        lex_le(a, b),
        lex_le(b, c),
    ensures
        lex_le(a, c),
    decreases a.len(),
{
    if a.len() == 0 || b.len() == 0 || c.len() == 0 {
    } else if a[0] == b[0] && b[0] == c[0] {
        lemma_lex_le_trans(a.drop_first(), b.drop_first(), c.drop_first());
    }
}

/// Executable lexicographic comparison of two byte strings.
pub fn lex_le_exec(a: &[u8], b: &[u8]) -> (r: bool)
    ensures
        r == lex_le(a@, b@),
{
    proof {
        assert(a@.skip(0) =~= a@);
        assert(b@.skip(0) =~= b@);
    }
    let mut i: usize = 0;
    while i < a.len() && i < b.len()
        invariant
            i <= a@.len(),
            i <= b@.len(),
            forall|k: int| 0 <= k < i ==> a@[k] == b@[k],
            lex_le(a@, b@) == lex_le(a@.skip(i as int), b@.skip(i as int)),
        decreases a@.len() - i,
    {
        if a[i] < b[i] {
            return true;
        }
        if a[i] > b[i] {
            return false;
        }
        proof {
            assert(a@.skip(i as int).drop_first() =~= a@.skip(i + 1 as int));
            assert(b@.skip(i as int).drop_first() =~= b@.skip(i + 1 as int));
        }
        i = i + 1;
    }
    a.len() <= b.len()
}

/// Index of the first `]` at or after `i`, or the pattern's length if
/// there is none: the closing bracket of a character class.
pub open spec fn find_close(p: Seq<u8>, i: int) -> int
    decreases p.len() - i,
{
    if i < 0 || i >= p.len() {
        p.len() as int
    } else if p[i] == RBRACK {
        i
    } else {
        find_close(p, i + 1)
    }
}

pub proof fn lemma_find_close_bounds(p: Seq<u8>, i: int)
    requires
        0 <= i <= p.len(),
    ensures
        i <= find_close(p, i) <= p.len(),
        find_close(p, i) < p.len() ==> p[find_close(p, i)] == RBRACK,
        forall|k: int| i <= k < find_close(p, i) ==> p[k] != RBRACK,
    decreases p.len() - i,
{
    if i < p.len() && p[i] != RBRACK {
        lemma_find_close_bounds(p, i + 1);
    }
}

/// Executable search for the closing bracket.
pub fn find_close_exec(p: &[u8], i: usize) -> (r: usize)
    requires
        i <= p@.len(),
    ensures
        r == find_close(p@, i as int),
        i <= r <= p@.len(),
{
    proof {
        lemma_find_close_bounds(p@, i as int);
    }
    let mut j: usize = i;
    while j < p.len()
        invariant
            i <= j <= p@.len(),
            find_close(p@, i as int) == find_close(p@, j as int),
        decreases p@.len() - j,
    {
        if p[j] == RBRACK {
            return j;
        }
        j = j + 1;
    }
    j
}

/// Whether byte `c` is named by the class members `p[lo..hi]`: a literal
/// byte, or a range `x-y` (a trailing or leading `-` is a literal).
pub open spec fn in_class(p: Seq<u8>, lo: int, hi: int, c: u8) -> bool
    decreases hi - lo,
{
    if lo < 0 || lo >= hi || hi > p.len() {
        false
    } else if lo + 2 < hi && p[lo + 1] == DASH {
        (p[lo] <= c && c <= p[lo + 2]) || in_class(p, lo + 3, hi, c)
    } else {
        c == p[lo] || in_class(p, lo + 1, hi, c)
    }
}

/// Executable membership test for a character class.
pub fn in_class_exec(p: &[u8], lo: usize, hi: usize, c: u8) -> (r: bool)
    requires
        hi <= p@.len(),
    ensures
        r == in_class(p@, lo as int, hi as int, c),
    decreases hi - lo,
{
    if lo >= hi {
        false
    } else if hi - lo > 2 && p[lo + 1] == DASH {
        (p[lo] <= c && c <= p[lo + 2]) || in_class_exec(p, lo + 3, hi, c)
    } else {
        c == p[lo] || in_class_exec(p, lo + 1, hi, c)
    }
}

/// Glob matching of pattern suffix `p[pi..]` against string suffix
/// `s[si..]`.
pub open spec fn glob_match_at(p: Seq<u8>, s: Seq<u8>, pi: int, si: int) -> bool
    decreases p.len() - pi, s.len() - si,
{
    if pi < 0 || si < 0 {
        false
    } else if pi >= p.len() {
        si >= s.len()
    } else if p[pi] == STAR {
        glob_match_at(p, s, pi + 1, si) || (si < s.len() && glob_match_at(p, s, pi, si + 1))
    } else if si >= s.len() {
        false
    } else if p[pi] == QMARK {
        glob_match_at(p, s, pi + 1, si + 1)
    } else if p[pi] == LBRACK && class_body_start(p, pi) <= find_close(p, class_body_start(p, pi))
        && find_close(p, class_body_start(p, pi)) < p.len() {
        let lo = class_body_start(p, pi);
        let hi = find_close(p, lo);
        (in_class(p, lo, hi, s[si]) != class_negated(p, pi)) && glob_match_at(p, s, hi + 1, si + 1)
    } else {
        p[pi] == s[si] && glob_match_at(p, s, pi + 1, si + 1)
    }
}

/// Whether the class opening at `p[pi]` is negated by a leading `!`.
pub open spec fn class_negated(p: Seq<u8>, pi: int) -> bool {
    pi + 1 < p.len() && p[pi + 1] == BANG
}

/// Index of the first member byte of the class opening at `p[pi]`.
pub open spec fn class_body_start(p: Seq<u8>, pi: int) -> int {
    if class_negated(p, pi) {
        pi + 2
    } else {
        pi + 1
    }
}

/// A pattern matches a whole string when it matches from their starts.
pub open spec fn glob_match(p: Seq<u8>, s: Seq<u8>) -> bool {
    glob_match_at(p, s, 0, 0)
}

/// Executable glob matching of `p[pi..]` against `s[si..]`.
pub fn glob_match_at_exec(p: &[u8], s: &[u8], pi: usize, si: usize) -> (r: bool)
    requires
        pi <= p@.len(),
        si <= s@.len(),
    ensures
        r == glob_match_at(p@, s@, pi as int, si as int),
    decreases p@.len() - pi, s@.len() - si,
{
    if pi >= p.len() {
        si >= s.len()
    } else if p[pi] == STAR {
        if glob_match_at_exec(p, s, pi + 1, si) {
            true
        } else if si < s.len() {
            glob_match_at_exec(p, s, pi, si + 1)
        } else {
            false
        }
    } else if si >= s.len() {
        false
    } else if p[pi] == QMARK {
        glob_match_at_exec(p, s, pi + 1, si + 1)
    } else if p[pi] == LBRACK {
        let neg = pi + 1 < p.len() && p[pi + 1] == BANG;
        let lo = if neg { pi + 2 } else { pi + 1 };
        if lo <= p.len() {
            let hi = find_close_exec(p, lo);
            if hi < p.len() {
                let member = in_class_exec(p, lo, hi, s[si]);
                (member != neg) && glob_match_at_exec(p, s, hi + 1, si + 1)
            } else {
                p[pi] == s[si] && glob_match_at_exec(p, s, pi + 1, si + 1)
            }
        } else {
            p[pi] == s[si] && glob_match_at_exec(p, s, pi + 1, si + 1)
        }
    } else {
        p[pi] == s[si] && glob_match_at_exec(p, s, pi + 1, si + 1)
    }
}

/// Executable glob matching of a whole string.
pub fn glob_match_exec(p: &[u8], s: &[u8]) -> (r: bool)
    ensures
        r == glob_match(p@, s@),
{
    glob_match_at_exec(p, s, 0, 0)
}

/// Whether any pattern of the set matches the string.
pub open spec fn matches_any(pats: Seq<Seq<u8>>, s: Seq<u8>) -> bool {
    exists|i: int| 0 <= i < pats.len() && glob_match(pats[i], s)
}

/// Executable test whether any pattern of the set matches.
pub fn matches_any_exec(pats: &Vec<Vec<u8>>, s: &[u8]) -> (r: bool)
    ensures
        r == matches_any(pats.deep_view(), s@),
{
    let mut i: usize = 0;
    while i < pats.len()
        invariant
            i <= pats@.len(),
            pats.deep_view().len() == pats@.len(),
            forall|k: int| 0 <= k < pats@.len() ==> pats.deep_view()[k] == pats@[k]@,
            forall|k: int| 0 <= k < i ==> !glob_match(pats.deep_view()[k], s@),
        decreases pats@.len() - i,
    {
        if glob_match_exec(pats[i].as_slice(), s) {
            proof {
                assert(glob_match(pats.deep_view()[i as int], s@));
            }
            return true;
        }
        i = i + 1;
    }
    false
}

} // verus!
