//! Verified edit distance for fuzzy-duplicate rejection of taxonomy values:
//! the optimal-string-alignment form of the Damerau-Levenshtein distance,
//! and the normalized similarity threshold the reconciler applies.
use vstd::prelude::*;

use crate::text::str_chars;

verus! {

/// The smaller of two integers.
pub open spec fn min2(x: int, y: int) -> int {
    if x <= y {
        x
    } else {
        y
    }
}

/// The larger of two integers.
pub open spec fn max2(x: int, y: int) -> int {
    if x >= y {
        x
    } else {
        y
    }
}

/// Edit distance between the prefixes `a[..i]` and `b[..j]`, counting
/// insertions, deletions, substitutions, and transpositions of two adjacent
/// characters, each as one edit.
pub open spec fn osa(a: Seq<char>, b: Seq<char>, i: int, j: int) -> int
    decreases i + j,
{
    if i <= 0 && j <= 0 {
        0
    } else if i <= 0 {
        j
    } else if j <= 0 {
        i
    } else {
        let del = osa(a, b, i - 1, j) + 1;
        let ins = osa(a, b, i, j - 1) + 1;
        let sub = osa(a, b, i - 1, j - 1) + if a[i - 1] == b[j - 1] {
            0int
        } else {
            1int
        };
        let best = min2(min2(del, ins), sub);
        if i >= 2 && j >= 2 && a[i - 1] == b[j - 2] && a[i - 2] == b[j - 1] {
            min2(best, osa(a, b, i - 2, j - 2) + 1)
        } else {
            best
        }
    }
}

/// The distance between prefixes is non-negative and never exceeds the
/// longer prefix.
pub proof fn lemma_osa_bounds(a: Seq<char>, b: Seq<char>, i: int, j: int)
    requires
        i >= 0,
        j >= 0,
    ensures
        0 <= osa(a, b, i, j) <= max2(i, j),
    decreases i + j,
{
    if i <= 0 && j <= 0 {
    } else if i <= 0 {
    } else if j <= 0 {
    } else {
        lemma_osa_bounds(a, b, i - 1, j);
        lemma_osa_bounds(a, b, i, j - 1);
        lemma_osa_bounds(a, b, i - 1, j - 1);
        if i >= 2 && j >= 2 {
            lemma_osa_bounds(a, b, i - 2, j - 2);
        }
    }
}

/// The distance between two equal sequences is zero.
pub proof fn lemma_osa_self(a: Seq<char>, i: int)
    requires
        0 <= i <= a.len(),
    ensures
        osa(a, a, i, i) == 0,
    decreases i,
{
    if i > 0 {
        lemma_osa_self(a, i - 1);
        lemma_osa_bounds(a, a, i - 1, i);
        lemma_osa_bounds(a, a, i, i - 1);
        if i >= 2 {
            lemma_osa_bounds(a, a, i - 2, i - 2);
        }
    }
}

/// Compute the edit distance of [`osa`] over full character vectors by
/// dynamic programming.
pub fn osa_distance(a: &Vec<char>, b: &Vec<char>) -> (d: usize)
    requires
        a@.len() + b@.len() + 1 <= usize::MAX,
    ensures
        d == osa(a@, b@, a@.len() as int, b@.len() as int),
{
    let m = a.len();
    let n = b.len();
    let mut table: Vec<Vec<usize>> = Vec::new();
    let mut row0: Vec<usize> = Vec::new();
    let mut j: usize = 0;
    while j <= n
        invariant
            j <= n + 1,
            n == b@.len(),
            m + n + 1 <= usize::MAX,
            row0@.len() == j,
            forall|y: int| 0 <= y < j ==> row0@[y] == osa(a@, b@, 0, y),
        decreases n + 1 - j,
    {
        row0.push(j);
        j = j + 1;
    }
    table.push(row0);
    let mut i: usize = 1;
    while i <= m
        invariant
            1 <= i <= m + 1,
            m == a@.len(),
            n == b@.len(),
            m + n + 1 <= usize::MAX,
            table@.len() == i,
            forall|x: int| #![trigger table@[x]] 0 <= x < i ==> table@[x]@.len() == n + 1,
            forall|x: int, y: int|
                #![trigger table@[x]@[y]]
                0 <= x < i && 0 <= y <= n ==> table@[x]@[y] == osa(a@, b@, x, y),
        decreases m + 1 - i,
    {
        let mut row: Vec<usize> = Vec::new();
        row.push(i);
        let mut j: usize = 1;
        while j <= n
            invariant
                1 <= i <= m,
                1 <= j <= n + 1,
                m == a@.len(),
                n == b@.len(),
                m + n + 1 <= usize::MAX,
                table@.len() == i,
                forall|x: int| #![trigger table@[x]] 0 <= x < i ==> table@[x]@.len() == n + 1,
                forall|x: int, y: int|
                    #![trigger table@[x]@[y]]
                    0 <= x < i && 0 <= y <= n ==> table@[x]@[y] == osa(a@, b@, x, y),
                row@.len() == j,
                forall|y: int| 0 <= y < j ==> row@[y] == osa(a@, b@, i as int, y),
            decreases n + 1 - j,
        {
            proof {
                lemma_osa_bounds(a@, b@, i - 1, j as int);
                lemma_osa_bounds(a@, b@, i as int, j - 1);
                lemma_osa_bounds(a@, b@, i - 1, j - 1);
            }
            let del = table[i - 1][j] + 1;
            let ins = row[j - 1] + 1;
            let sub = table[i - 1][j - 1] + (if a[i - 1] == b[j - 1] {
                0
            } else {
                1
            });
            let mut d = del;
            if ins < d {
                d = ins;
            }
            if sub < d {
                d = sub;
            }
            if i >= 2 && j >= 2 && a[i - 1] == b[j - 2] && a[i - 2] == b[j - 1] {
                proof {
                    lemma_osa_bounds(a@, b@, i - 2, j - 2);
                }
                let tr = table[i - 2][j - 2] + 1;
                if tr < d {
                    d = tr;
                }
            }
            proof {
                assert(d == osa(a@, b@, i as int, j as int));
            }
            row.push(d);
            j = j + 1;
        }
        table.push(row);
        i = i + 1;
    }
    table[m][n]
}

/// Whether two values are near-duplicates: their edit distance, normalized
/// by the longer length, is under the 0.8 threshold. Stated exactly over
/// integers: five times the distance is under four times the longer length.
pub open spec fn similar(a: Seq<char>, b: Seq<char>) -> bool {
    5 * osa(a, b, a.len() as int, b.len() as int) < 4 * max2(a.len() as int, b.len() as int)
}

/// Decide whether two property values are near-duplicates, per [`similar`].
pub fn similar_values(a: &str, b: &str) -> (r: bool)
    requires
        a@.len() + b@.len() + 1 <= usize::MAX,
    ensures
        r == similar(a@, b@),
{
    let av = str_chars(a);
    let bv = str_chars(b);
    let d = osa_distance(&av, &bv);
    let max = if av.len() >= bv.len() {
        av.len()
    } else {
        bv.len()
    };
    5u128 * (d as u128) < 4u128 * (max as u128)
}

/// A value is always a near-duplicate of itself when it is non-empty.
pub proof fn lemma_similar_self(a: Seq<char>)
    requires
        a.len() > 0,
    ensures
        similar(a, a),
{
    lemma_osa_self(a, a.len() as int);
}

} // verus!
