//! The similarity score of two signatures, from 0 (nothing in common, or not
//! comparable) to 100 (the same).

use vstd::prelude::*;
use vstd::string::*;
use vstd::utf8::encode_utf8;
use crate::distance::{
    common_prefix, common_prefix_len, edit_dist, lemma_levenshtein_bound,
    lemma_levenshtein_same, lemma_levenshtein_symmetric, lemma_matching_run_symmetric,
    levenshtein,
};
use crate::signature_text::{parse, parse_spec};

verus! {

/// How alike two symbol sequences are, from 0 to 100: the share of the longer
/// one's length that the edit distance leaves, in percent and rounded down.
/// Two empty sequences count as length 1.
pub open spec fn similarity(x: Seq<u8>, y: Seq<u8>) -> int {
    let longest: int = if x.len() >= y.len() && x.len() >= 1 {
        x.len() as int
    } else if y.len() >= 1 {
        y.len() as int
    } else {
        1
    };
    (100 * (longest - levenshtein(x, y))) / longest
}

/// One score from the two tracks' similarities: their mean where the block
/// sizes are equal, else the larger of them less 1, and not below 0.
pub open spec fn blend(s1: int, s2: int, same_block: bool) -> int {
    if same_block {
        (s1 + s2) / 2
    } else {
        let best = if s1 > s2 {
            s1
        } else {
            s2
        };
        if best > 0 {
            best - 1
        } else {
            0
        }
    }
}

/// The score with the reward for a shared beginning: 1 more for a common
/// prefix of 2 symbols, 1 more again for one of 4, and never above 100.
pub open spec fn with_bonus(score: int, run: nat) -> int {
    let more = score + if run >= 4 {
        2int
    } else if run >= 2 {
        1int
    } else {
        0int
    };
    if more > 100 {
        100
    } else {
        more
    }
}

/// Two block sizes can be compared: neither is 0 and neither is more than
/// twice the other.
pub open spec fn comparable(x: u64, y: u64) -> bool {
    x != 0 && y != 0 && x <= 2 * y && y <= 2 * x
}

/// The score of two parsed signatures.
pub open spec fn score_of_fields(
    p: (Seq<char>, Seq<char>, u64),
    q: (Seq<char>, Seq<char>, u64),
) -> int {
    if comparable(p.2, q.2) {
        with_bonus(
            blend(
                similarity(encode_utf8(p.0), encode_utf8(q.0)),
                similarity(encode_utf8(p.1), encode_utf8(q.1)),
                p.2 == q.2,
            ),
            common_prefix_len(p.0, q.0),
        )
    } else {
        0
    }
}

/// The score of two signature texts: 0 where either is malformed.
pub open spec fn score_of(a: Seq<char>, b: Seq<char>) -> int {
    match (parse_spec(a), parse_spec(b)) {
        (Some(p), Some(q)) => score_of_fields(p, q),
        _ => 0,
    }
}

/// A similarity lies between 0 and 100.
pub proof fn lemma_similarity_range(x: Seq<u8>, y: Seq<u8>)
    ensures
        0 <= similarity(x, y) <= 100,
{
    lemma_levenshtein_bound(x, y);
    let longest: int = if x.len() >= y.len() && x.len() >= 1 {
        x.len() as int
    } else if y.len() >= 1 {
        y.len() as int
    } else {
        1
    };
    let rest: int = longest - levenshtein(x, y);
    assert(0 <= (100 * rest) / longest <= 100) by (nonlinear_arith)
        requires
            0 <= rest <= longest,
            longest >= 1,
    ;
}

/// Every score lies between 0 and 100.
pub proof fn lemma_score_range(a: Seq<char>, b: Seq<char>)
    ensures
        0 <= score_of(a, b) <= 100,
{
    match (parse_spec(a), parse_spec(b)) {
        (Some(p), Some(q)) => {
            lemma_similarity_range(encode_utf8(p.0), encode_utf8(q.0));
            lemma_similarity_range(encode_utf8(p.1), encode_utf8(q.1));
        },
        _ => {},
    }
}

/// The score does not depend on the order of the two signatures.
pub proof fn lemma_score_symmetric(a: Seq<char>, b: Seq<char>)
    ensures
        score_of(a, b) == score_of(b, a),
{
    match (parse_spec(a), parse_spec(b)) {
        (Some(p), Some(q)) => {
            lemma_levenshtein_symmetric(encode_utf8(p.0), encode_utf8(q.0));
            lemma_levenshtein_symmetric(encode_utf8(p.1), encode_utf8(q.1));
            lemma_matching_run_symmetric(p.0, q.0, 0);
        },
        _ => {},
    }
}

/// Two signature texts with the same two symbol sequences and the same block
/// size, which is not 0, score 100.
pub proof fn lemma_score_same(a: Seq<char>, b: Seq<char>)
    requires
        parse_spec(a) is Some,
        parse_spec(a) == parse_spec(b),
        parse_spec(a).unwrap().2 != 0,
    ensures
        score_of(a, b) == 100,
{
    let p = parse_spec(a).unwrap();
    lemma_similarity_same(encode_utf8(p.0));
    lemma_similarity_same(encode_utf8(p.1));
}

/// A sequence is 100 percent similar to itself.
pub proof fn lemma_similarity_same(x: Seq<u8>)
    ensures
        similarity(x, x) == 100,
{
    lemma_levenshtein_same(x);
    let longest: int = if x.len() >= 1 {
        x.len() as int
    } else {
        1
    };
    assert((100 * longest) / longest == 100) by (nonlinear_arith)
        requires
            longest >= 1,
    ;
}

/// How alike two symbol sequences are, from 0 to 100.
pub fn similarity_of(a: &str, b: &str) -> (s: u64)
    ensures
        s == similarity(a.spec_bytes(), b.spec_bytes()),
        s <= 100,
{
    let d: usize = edit_dist(a, b);
    let la: usize = a.as_bytes().len();
    let lb: usize = b.as_bytes().len();
    let longest: usize = if la >= lb && la >= 1 {
        la
    } else if lb >= 1 {
        lb
    } else {
        1
    };
    proof {
        lemma_levenshtein_bound(a.spec_bytes(), b.spec_bytes());
        lemma_similarity_range(a.spec_bytes(), b.spec_bytes());
    }
    let rest: u128 = (longest - d) as u128;
    ((100 * rest) / (longest as u128)) as u64
}

/// The score of two signatures given by their fields: the two symbol
/// sequences and the block size of each.
pub fn score_fields(a1: &str, a2: &str, ab: u64, b1: &str, b2: &str, bb: u64) -> (score: i32)
    ensures
        score == score_of_fields((a1@, a2@, ab), (b1@, b2@, bb)),
        0 <= score <= 100,
{
    if ab == 0 || bb == 0 {
        return 0;
    }
    if ab as u128 > 2 * (bb as u128) || bb as u128 > 2 * (ab as u128) {
        return 0;
    }
    let s1: u64 = similarity_of(a1, b1);
    let s2: u64 = similarity_of(a2, b2);
    let mut score: u64 = if ab == bb {
        (s1 + s2) / 2
    } else {
        let best: u64 = if s1 > s2 {
            s1
        } else {
            s2
        };
        if best > 0 {
            best - 1
        } else {
            0
        }
    };
    let run: usize = common_prefix(a1, b1);
    if run >= 2 {
        score += 1;
    }
    if run >= 4 {
        score += 1;
    }
    if score > 100 {
        score = 100;
    }
    score as i32
}

/// The similarity score of two signature texts, from 0 to 100. A text that is
/// not of the form `first:second:block` scores 0 against anything, and so do
/// two signatures whose block sizes are 0 or more than a factor 2 apart.
pub fn compare_rrdeep(a: &str, b: &str) -> (score: i32)
    ensures
        score == score_of(a@, b@),
        0 <= score <= 100,
{
    let (a1, a2, ab) = match parse(a) {
        Some(fields) => fields,
        None => {
            return 0;
        },
    };
    let (b1, b2, bb) = match parse(b) {
        Some(fields) => fields,
        None => {
            return 0;
        },
    };
    score_fields(a1.as_str(), a2.as_str(), ab, b1.as_str(), b2.as_str(), bb)
}

/// What a score says of two inputs.
#[derive(Clone, Copy, Debug, PartialEq, Eq, Structural)]
pub enum Similarity {
    VerySimilar,
    Similar,
    Different,
}

/// The words for a verdict.
pub open spec fn label_text(verdict: Similarity) -> Seq<char> {
    match verdict {
        Similarity::VerySimilar => "Very Similar"@,
        Similarity::Similar => "Similar"@,
        Similarity::Different => "Different"@,
    }
}

impl Similarity {
    /// The verdict in words.
    pub fn label(self) -> (text: &'static str)
        ensures
            text@ == label_text(self),
    {
        match self {
            Similarity::VerySimilar => "Very Similar",
            Similarity::Similar => "Similar",
            Similarity::Different => "Different",
        }
    }
}

/// The verdict for a score: very similar from 80 on, similar from 50 on,
/// different below.
pub fn classify(score: i32) -> (verdict: Similarity)
    ensures
        score >= 80 <==> verdict == Similarity::VerySimilar,
        50 <= score < 80 <==> verdict == Similarity::Similar,
        score < 50 <==> verdict == Similarity::Different,
{
    if score >= 80 {
        Similarity::VerySimilar
    } else if score >= 50 {
        Similarity::Similar
    } else {
        Similarity::Different
    }
}

} // verus!
