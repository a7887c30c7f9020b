//! Levenshtein edit distance between character sequences.

use crate::text::chars_of;
use vstd::prelude::*;

verus! {

/// The least of three integers.
pub open spec fn min3(x: int, y: int, z: int) -> int {
    let m = if x <= y {
        x
    } else {
        y
    };
    if m <= z {
        m
    } else {
        z
    }
}

/// Levenshtein distance: the least number of single-character insertions,
/// deletions and substitutions that turn `a` into `b`.
pub open spec fn lev(a: Seq<char>, b: Seq<char>) -> nat
    decreases a.len() + b.len(),
{
    if a.len() == 0 {
        b.len()
    } else if b.len() == 0 {
        a.len()
    } else {
        let cost: int = if a.last() == b.last() {
            0
        } else {
            1
        };
        min3(
            lev(a.drop_last(), b) + 1int,
            lev(a, b.drop_last()) + 1int,
            lev(a.drop_last(), b.drop_last()) as int + cost,
        ) as nat
    }
}

/// Edit distance between two strings, counted in characters.
pub fn levenshtein(a: &str, b: &str) -> (d: usize)
    ensures
        d == lev(a@, b@),
{
    let av = chars_of(a);
    let bv = chars_of(b);
    levenshtein_chars(&av, &bv)
}

/// Edit distance between two character sequences, by dynamic programming
/// over the prefixes of both, one row of the distance table at a time.
pub fn levenshtein_chars(a: &Vec<char>, b: &Vec<char>) -> (d: usize)
    ensures
        d == lev(a@, b@),
{
    let la = a.len();
    let lb = b.len();
    if la == 0 {
        return lb;
    }
    if lb == 0 {
        return la;
    }
    // `prev[j]` holds the distance between `a[..i]` and `b[..j + 1]`;
    // the column of the empty prefix of `b` is `i` itself.
    let mut prev: Vec<usize> = Vec::new();
    let mut j: usize = 0;
    while j < lb
        invariant
            lb == b@.len(),
            j <= lb,
            prev@.len() == j,
            forall|k: int| 0 <= k < j ==> prev@[k] == lev(a@.take(0), b@.take(k + 1)),
        decreases lb - j,
    {
        proof {
            assert(a@.take(0).len() == 0);
        }
        prev.push(j + 1);
        j = j + 1;
    }
    let mut i: usize = 0;
    while i < la
        invariant
            la == a@.len(),
            lb == b@.len(),
            0 < lb,
            i <= la,
            prev@.len() == lb,
            forall|k: int| 0 <= k < lb ==> prev@[k] == lev(a@.take(i as int), b@.take(k + 1)),
        decreases la - i,
    {
        let mut cur: Vec<usize> = Vec::new();
        let mut j: usize = 0;
        while j < lb
            invariant
                la == a@.len(),
                lb == b@.len(),
                i < la,
                j <= lb,
                prev@.len() == lb,
                cur@.len() == j,
                forall|k: int| 0 <= k < lb ==> prev@[k] == lev(a@.take(i as int), b@.take(k + 1)),
                forall|k: int| 0 <= k < j ==> cur@[k] == lev(a@.take(i + 1), b@.take(k + 1)),
            decreases lb - j,
        {
            let ghost ai = a@.take(i + 1);
            let ghost bj = b@.take(j + 1);
            proof {
                assert(ai.drop_last() =~= a@.take(i as int));
                assert(bj.drop_last() =~= b@.take(j as int));
                assert(ai.last() == a@[i as int]);
                assert(bj.last() == b@[j as int]);
                lemma_lev_upper_bound(a@.take(i as int), b@.take(j as int));
                assert(b@.take(0).len() == 0);
            }
            let diag: usize = if j == 0 {
                i
            } else {
                prev[j - 1]
            };
            let up: usize = prev[j];
            let left: usize = if j == 0 {
                i + 1
            } else {
                cur[j - 1]
            };
            let cost: usize = if a[i] == b[j] {
                0
            } else {
                1
            };
            let s = diag + cost;
            let m1 = if up <= left {
                up
            } else {
                left
            };
            let m = if m1 < s {
                m1 + 1
            } else {
                s
            };
            proof {
                assert(up == lev(ai.drop_last(), bj));
                assert(left == lev(ai, bj.drop_last()));
                assert(diag == lev(ai.drop_last(), bj.drop_last()));
                assert((cost == 0) == (ai.last() == bj.last()));
                assert(m == lev(ai, bj));
            }
            cur.push(m);
            j = j + 1;
        }
        prev = cur;
        i = i + 1;
    }
    proof {
        assert(a@.take(la as int) =~= a@);
        assert(b@.take(lb as int) =~= b@);
    }
    prev[lb - 1]
}

/// The distance from a sequence to itself is zero.
pub proof fn lemma_lev_self(a: Seq<char>)
    ensures
        lev(a, a) == 0,
    decreases a.len(),
{
    if a.len() > 0 {
        lemma_lev_self(a.drop_last());
    }
}

/// The distance does not depend on the order of its arguments.
pub proof fn lemma_lev_symmetric(a: Seq<char>, b: Seq<char>)
    ensures
        lev(a, b) == lev(b, a),
    decreases a.len() + b.len(),
{
    if a.len() > 0 && b.len() > 0 {
        lemma_lev_symmetric(a.drop_last(), b);
        lemma_lev_symmetric(a, b.drop_last());
        lemma_lev_symmetric(a.drop_last(), b.drop_last());
    }
}

/// The distance never exceeds the length of the longer argument.
pub proof fn lemma_lev_upper_bound(a: Seq<char>, b: Seq<char>)
    ensures
        lev(a, b) <= if a.len() >= b.len() {
            a.len()
        } else {
            b.len()
        },
    decreases a.len() + b.len(),
{
    if a.len() > 0 && b.len() > 0 {
        lemma_lev_upper_bound(a.drop_last(), b.drop_last());
    }
}

/// The distance is at least the difference of the lengths.
pub proof fn lemma_lev_lower_bound(a: Seq<char>, b: Seq<char>)
    ensures
        lev(a, b) >= a.len() - b.len(),
        lev(a, b) >= b.len() - a.len(),
    decreases a.len() + b.len(),
{
    if a.len() > 0 && b.len() > 0 {
        lemma_lev_lower_bound(a.drop_last(), b);
        lemma_lev_lower_bound(a, b.drop_last());
        lemma_lev_lower_bound(a.drop_last(), b.drop_last());
    }
}

/// Edit distance obeys the triangle inequality: going from `a` to `c`
/// never costs more than going through `b`.
pub proof fn lemma_lev_triangle(a: Seq<char>, b: Seq<char>, c: Seq<char>)
    ensures
        lev(a, c) <= lev(a, b) + lev(b, c),
    decreases a.len() + b.len() + c.len(),
{
    if b.len() == 0 {
        lemma_lev_upper_bound(a, c);
    } else if a.len() == 0 {
        lemma_lev_lower_bound(b, c);
    } else if c.len() == 0 {
        lemma_lev_lower_bound(a, b);
    } else {
        let (aa, bb, cc) = (a.drop_last(), b.drop_last(), c.drop_last());
        lemma_lev_triangle(aa, b, c);
        lemma_lev_triangle(a, b, cc);
        lemma_lev_triangle(a, bb, c);
        lemma_lev_triangle(a, bb, cc);
        lemma_lev_triangle(aa, bb, c);
        lemma_lev_triangle(aa, bb, cc);
    }
}

/// The distance is zero exactly when the sequences are equal.
pub proof fn lemma_lev_zero_iff_equal(a: Seq<char>, b: Seq<char>)
    ensures
        (lev(a, b) == 0) <==> (a == b),
    decreases a.len() + b.len(),
{
    if a == b {
        lemma_lev_self(a);
    } else if a.len() == 0 || b.len() == 0 {
        if a.len() == 0 && b.len() == 0 {
            assert(a =~= b);
        }
    } else {
        lemma_lev_zero_iff_equal(a.drop_last(), b.drop_last());
        if lev(a, b) == 0 {
            assert(lev(a.drop_last(), b.drop_last()) == 0 && a.last() == b.last());
            assert(a =~= a.drop_last().push(a.last()));
            assert(b =~= b.drop_last().push(b.last()));
        }
    }
}

} // verus!
