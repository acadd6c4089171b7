//! Edit distance between two symbol sequences, and the length of the run of
//! symbols that both begin with.

use vstd::prelude::*;
use vstd::string::*;
use crate::chars::chars_of;

verus! {

/// The smallest of three numbers.
pub open spec fn min3(x: nat, y: nat, z: nat) -> nat {
    if x <= y && x <= z {
        x
    } else if y <= z {
        y
    } else {
        z
    }
}

/// The least number of single insertions, deletions and substitutions that
/// turn `a` into `b`.
pub open spec fn levenshtein(a: Seq<u8>, b: Seq<u8>) -> nat
    decreases a.len() + b.len(),
{
    if a.len() == 0 {
        b.len()
    } else if b.len() == 0 {
        a.len()
    } else {
        let change: nat = if a.last() == b.last() {
            0
        } else {
            1
        };
        min3(
            levenshtein(a.drop_last(), b) + 1,
            levenshtein(a, b.drop_last()) + 1,
            levenshtein(a.drop_last(), b.drop_last()) + change,
        )
    }
}

/// The number of positions from `from` on at which `a` and `b` agree, up to
/// the first position at which they differ or one of them ends.
pub open spec fn matching_run(a: Seq<char>, b: Seq<char>, from: int) -> nat
    decreases a.len() - from,
{
    if from < 0 || from >= a.len() || from >= b.len() || a[from] != b[from] {
        0
    } else {
        1 + matching_run(a, b, from + 1)
    }
}

/// The length of the longest sequence that both `a` and `b` begin with.
pub open spec fn common_prefix_len(a: Seq<char>, b: Seq<char>) -> nat {
    matching_run(a, b, 0)
}

/// The distance is never more than the length of the longer sequence.
pub proof fn lemma_levenshtein_bound(a: Seq<u8>, b: Seq<u8>)
    ensures
        levenshtein(a, b) <= a.len() || levenshtein(a, b) <= b.len(),
        levenshtein(a, b) <= a.len() + b.len(),
    decreases a.len() + b.len(),
{
    if a.len() > 0 && b.len() > 0 {
        lemma_levenshtein_bound(a.drop_last(), b.drop_last());
    }
}

/// The distance from `a` to `b` is the distance from `b` to `a`.
pub proof fn lemma_levenshtein_symmetric(a: Seq<u8>, b: Seq<u8>)
    ensures
        levenshtein(a, b) == levenshtein(b, a),
    decreases a.len() + b.len(),
{
    if a.len() > 0 && b.len() > 0 {
        lemma_levenshtein_symmetric(a.drop_last(), b);
        lemma_levenshtein_symmetric(a, b.drop_last());
        lemma_levenshtein_symmetric(a.drop_last(), b.drop_last());
    }
}

/// A sequence is at distance 0 from itself.
pub proof fn lemma_levenshtein_same(a: Seq<u8>)
    ensures
        levenshtein(a, a) == 0,
    decreases a.len(),
{
    if a.len() > 0 {
        lemma_levenshtein_same(a.drop_last());
    }
}

/// The run on which `a` and `b` agree is the run on which `b` and `a` agree.
pub proof fn lemma_matching_run_symmetric(a: Seq<char>, b: Seq<char>, from: int)
    ensures
        matching_run(a, b, from) == matching_run(b, a, from),
    decreases a.len() - from,
{
    if !(from < 0 || from >= a.len() || from >= b.len() || a[from] != b[from]) {
        lemma_matching_run_symmetric(a, b, from + 1);
    }
}

/// The edit distance between two byte sequences, by dynamic programming over
/// two rows of the distance table.
pub fn edit_dist_bytes(a: &[u8], b: &[u8]) -> (d: usize)
    ensures
        d == levenshtein(a@, b@),
{
    let la: usize = a.len();
    let lb: usize = b.len();
    let mut prev: Vec<usize> = Vec::new();
    let mut j: usize = 0;
    while j < lb
        invariant
            j <= lb,
            prev@.len() == j,
            forall|k: int| 0 <= k < j ==> prev@[k] == k,
        decreases lb - j,
    {
        prev.push(j);
        j += 1;
    }
    prev.push(lb);
    assert forall|k: int| 0 <= k <= lb implies prev@[k] == levenshtein(
        a@.take(0),
        #[trigger] b@.take(k),
    ) by {}
    let mut i: usize = 0;
    while i < la
        invariant
            i <= la,
            la == a@.len(),
            lb == b@.len(),
            prev@.len() == lb + 1,
            forall|k: int|
                0 <= k <= lb ==> prev@[k] == levenshtein(a@.take(i as int), #[trigger] b@.take(k)),
        decreases la - i,
    {
        let ghost upper = a@.take(i as int);
        let ghost lower = a@.take(i + 1);
        assert(lower.drop_last() =~= upper);
        let mut cur: Vec<usize> = Vec::new();
        cur.push(i + 1);
        let mut j: usize = 0;
        while j < lb
            invariant
                j <= lb,
                i < la,
                la == a@.len(),
                lb == b@.len(),
                upper == a@.take(i as int),
                lower == a@.take(i + 1),
                lower.len() == i + 1,
                lower.drop_last() == upper,
                lower.last() == a@[i as int],
                prev@.len() == lb + 1,
                cur@.len() == j + 1,
                forall|k: int|
                    0 <= k <= lb ==> prev@[k] == levenshtein(upper, #[trigger] b@.take(k)),
                forall|k: int|
                    0 <= k <= j ==> cur@[k] == levenshtein(lower, #[trigger] b@.take(k)),
            decreases lb - j,
        {
            let ghost short = b@.take(j as int);
            let ghost long = b@.take(j + 1);
            proof {
                assert(long.drop_last() =~= short);
                assert(long.last() == b@[j as int]);
                lemma_levenshtein_bound(upper, short);
            }
            let change: usize = if a[i] == b[j] {
                0
            } else {
                1
            };
            let above: usize = prev[j + 1];
            let left: usize = cur[j];
            let across: usize = prev[j];
            let side: usize = if above < left {
                above
            } else {
                left
            };
            let best: usize = if side < across {
                side + 1
            } else {
                across + change
            };
            assert(best == levenshtein(lower, long));
            cur.push(best);
            j += 1;
        }
        prev = cur;
        i += 1;
    }
    assert(a@.take(la as int) =~= a@);
    assert(b@.take(lb as int) =~= b@);
    prev[lb]
}

/// The edit distance between two strings, taken over their bytes.
pub fn edit_dist(a: &str, b: &str) -> (d: usize)
    ensures
        d == levenshtein(a.spec_bytes(), b.spec_bytes()),
{
    edit_dist_bytes(a.as_bytes(), b.as_bytes())
}

/// The number of leading characters that `a` and `b` share.
pub fn common_prefix(a: &str, b: &str) -> (n: usize)
    ensures
        n == common_prefix_len(a@, b@),
{
    let x: Vec<char> = chars_of(a);
    let y: Vec<char> = chars_of(b);
    let mut n: usize = 0;
    while n < x.len() && n < y.len() && x[n] == y[n]
        invariant
            n <= x@.len(),
            n <= y@.len(),
            common_prefix_len(x@, y@) == n + matching_run(x@, y@, n as int),
        decreases x@.len() - n,
    {
        n += 1;
    }
    n
}

} // verus!
