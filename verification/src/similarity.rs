use vstd::prelude::*;

verus! {

/// The Damerau-Levenshtein edit distance between two character sequences:
/// the least number of single-character insertions, deletions,
/// substitutions and adjacent transpositions turning one into the other.
/// The distance itself is computed by an outside crate; this name stands
/// for its result, which depends on the two sequences alone.
pub uninterp spec fn dl_distance(a: Seq<char>, b: Seq<char>) -> nat;

/// Relies on strsim::damerau_levenshtein: the result depends on the two
/// strings' characters alone; it is symmetric in its arguments (every edit
/// operation has an inverse of equal cost); it is zero exactly for equal
/// strings, and never exceeds the longer string's character count (the
/// crate documents the normalized score `1 - r / max_len` as lying in
/// `[0, 1]`, with `1` meaning the strings are the same).
#[verifier::external_body]
fn edit_distance(a: &str, b: &str) -> (r: usize)
    ensures
        r as nat == dl_distance(a@, b@),
        r as nat == dl_distance(b@, a@),
        (r == 0) <==> (a@ == b@),
        r <= vstd::math::max(a@.len() as int, b@.len() as int),
{
    strsim::damerau_levenshtein(a, b)
}

/// Denominator of the normalized similarity score of `a` and `b`:
/// the longer character count, or 1 when both are empty.
pub open spec fn sim_den(a: Seq<char>, b: Seq<char>) -> int {
    if a.len() == 0 && b.len() == 0 {
        1
    } else {
        vstd::math::max(a.len() as int, b.len() as int)
    }
}

/// Numerator of the normalized similarity score of `a` and `b`.  The score
/// `sim_num / sim_den` equals `1 - dl_distance / max_len`, the normalized
/// Damerau-Levenshtein similarity, and two empty strings score 1.
pub open spec fn sim_num(a: Seq<char>, b: Seq<char>) -> int {
    if a.len() == 0 && b.len() == 0 {
        1
    } else {
        sim_den(a, b) - dl_distance(a, b)
    }
}

/// The similarity score of `(a1, b1)` is at least that of `(a2, b2)`,
/// compared as exact fractions by cross-multiplication.
pub open spec fn sim_ge(a1: Seq<char>, b1: Seq<char>, a2: Seq<char>, b2: Seq<char>) -> bool {
    sim_num(a1, b1) * sim_den(a2, b2) >= sim_num(a2, b2) * sim_den(a1, b1)
}

/// Normalized Damerau-Levenshtein similarity of two strings as an exact
/// fraction `(numerator, denominator)`, so that no floating point is
/// involved: the score is `r.0 / r.1`, in the closed range `[0, 1]`.
///
/// A string scores the maximum (numerator equal to denominator, a score
/// of 1) against itself and against nothing else, and the score is
/// symmetric in its two arguments.
pub fn similarity(a: &str, b: &str) -> (r: (usize, usize))
    ensures
        r.0 as int == sim_num(a@, b@),
        r.1 as int == sim_den(a@, b@),
        r.0 as int == sim_num(b@, a@),
        r.1 as int == sim_den(b@, a@),
        0 < r.1,
        r.0 <= r.1,
        (r.0 == r.1) <==> (a@ == b@),
{
    if a.is_empty() && b.is_empty() {
        proof {
            assert(a@ =~= b@);
        }
        (1, 1)
    } else {
        let la = a.unicode_len();
        let lb = b.unicode_len();
        let m = if la < lb {
            lb
        } else {
            la
        };
        let d = edit_distance(a, b);
        (m - d, m)
    }
}

} // verus!
