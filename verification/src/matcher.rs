//! Pure string-matching primitives: the prefix test used to filter
//! completion candidates, and the longest-common-prefix computation used to
//! expand an ambiguous input buffer.

use vstd::prelude::*;

verus! {

/// `probe` is a character-by-character prefix of `candidate`.
pub open spec fn is_prefix_of(probe: Seq<char>, candidate: Seq<char>) -> bool {
    probe.len() <= candidate.len() && forall|i: int|
        0 <= i < probe.len() ==> probe[i] == candidate[i]
}

/// Every string that literally starts with `probe` satisfies `is_prefix_of`,
/// the empty probe matches everything, and a probe longer than the candidate
/// never matches.
pub proof fn lemma_is_prefix_characterization(probe: Seq<char>, candidate: Seq<char>)
    ensures
        is_prefix_of(probe, candidate) <==> (probe.len() <= candidate.len() && probe
            =~= candidate.take(probe.len() as int)),
        probe.len() == 0 ==> is_prefix_of(probe, candidate),
        probe.len() > candidate.len() ==> !is_prefix_of(probe, candidate),
{
}

/// Returns whether `src` is a literal prefix of `target`, comparing
/// character by character.  A `target` shorter than `src` is rejected
/// before any characters are compared.
pub fn linear_matches(src: &str, target: &str) -> (r: bool)
    ensures
        r == is_prefix_of(src@, target@),
{
    let n = src.unicode_len();
    if target.unicode_len() < n {
        return false;
    }
    let mut i: usize = 0;
    while i < n
        invariant
            i <= n,
            n == src@.len(),
            src@.len() <= target@.len(),
            forall|k: int| 0 <= k < i ==> src@[k] == target@[k],
        decreases n - i,
    {
        if src.get_char(i) != target.get_char(i) {
            return false;
        }
        i += 1;
    }
    true
}

/// Returns whether two strings hold exactly the same characters.
pub fn str_eq(a: &str, b: &str) -> (r: bool)
    ensures
        r == (a@ == b@),
{
    if a.unicode_len() != b.unicode_len() {
        return false;
    }
    let r = linear_matches(a, b);
    proof {
        if r {
            assert(a@ =~= b@);
        }
    }
    r
}

/// All candidates have a character at position `i` that agrees with the
/// first candidate's character there.
pub open spec fn all_agree_at(cands: Seq<Seq<char>>, i: int) -> bool {
    forall|j: int|
        0 <= j < cands.len() ==> i < #[trigger] cands[j].len() && cands[j][i] == cands[0][i]
}

/// Position of the first disagreement among the candidates, scanning from
/// position `i`; the scan stops at the end of the first candidate.
pub open spec fn lcp_from(cands: Seq<Seq<char>>, i: nat) -> nat
    decreases cands[0].len() - i,
{
    if i >= cands[0].len() {
        i
    } else if !all_agree_at(cands, i as int) {
        i
    } else {
        lcp_from(cands, i + 1)
    }
}

/// Length of the longest common prefix of the candidates: 0 for no
/// candidates, otherwise the first position at which not all candidates
/// share the first candidate's character (a candidate that has ended counts
/// as a mismatch), or the full length of the first candidate if every
/// position agrees.
pub open spec fn lcp_len(cands: Seq<Seq<char>>) -> nat {
    if cands.len() == 0 {
        0
    } else {
        lcp_from(cands, 0)
    }
}

proof fn lemma_lcp_from_bounds(cands: Seq<Seq<char>>, i: nat)
    requires
        cands.len() > 0,
        i <= cands[0].len(),
    ensures
        i <= lcp_from(cands, i) <= cands[0].len(),
    decreases cands[0].len() - i,
{
    if i < cands[0].len() && all_agree_at(cands, i as int) {
        lemma_lcp_from_bounds(cands, i + 1);
    }
}

/// The longest common prefix never exceeds the first candidate.
pub proof fn lemma_lcp_len_le(cands: Seq<Seq<char>>)
    requires
        cands.len() > 0,
    ensures
        lcp_len(cands) <= cands[0].len(),
{
    lemma_lcp_from_bounds(cands, 0);
}

proof fn lemma_lcp_from_step(cands: Seq<Seq<char>>, i: nat)
    requires
        cands.len() > 0,
        i < cands[0].len(),
        all_agree_at(cands, i as int),
    ensures
        lcp_from(cands, i) == lcp_from(cands, i + 1),
{
}

proof fn lemma_lcp_from_stop(cands: Seq<Seq<char>>, i: nat)
    requires
        cands.len() > 0,
        i >= cands[0].len() || !all_agree_at(cands, i as int),
    ensures
        lcp_from(cands, i) == i,
{
}

/// Characterization of `lcp_len`: every candidate extends the common
/// prefix; unless the whole first candidate is common, some candidate
/// disagrees right after it; and a single candidate is its own common
/// prefix, whole.
pub proof fn lemma_lcp_len_characterization(cands: Seq<Seq<char>>)
    requires
        cands.len() > 0,
    ensures
        lcp_len(cands) <= cands[0].len(),
        forall|j: int|
            0 <= j < cands.len() ==> is_prefix_of(
                cands[0].take(lcp_len(cands) as int),
                #[trigger] cands[j],
            ),
        lcp_len(cands) < cands[0].len() ==> !all_agree_at(cands, lcp_len(cands) as int),
        cands.len() == 1 ==> lcp_len(cands) == cands[0].len(),
{
    lemma_lcp_len_le(cands);
    lemma_lcp_from_agree_below(cands, 0);
    let l = lcp_len(cands) as int;
    assert forall|j: int| 0 <= j < cands.len() implies is_prefix_of(
        cands[0].take(l),
        #[trigger] cands[j],
    ) by {
        assert forall|k: int| 0 <= k < l implies k < cands[j].len() && #[trigger] cands[j][k]
            == cands[0][k] by {
            assert(all_agree_at(cands, k));
        }
        if l > 0 {
            assert(cands[j][l - 1] == cands[0][l - 1]);
            assert(l - 1 < cands[j].len());
        }
        assert(cands[0].take(l).len() <= cands[j].len());
        assert(forall|k: int| 0 <= k < l ==> cands[0].take(l)[k] == #[trigger] cands[j][k]);
    }
}

proof fn lemma_lcp_from_agree_below(cands: Seq<Seq<char>>, i: nat)
    requires
        cands.len() > 0,
        i <= cands[0].len(),
        forall|k: int| 0 <= k < i ==> all_agree_at(cands, k),
    ensures
        forall|k: int| 0 <= k < lcp_from(cands, i) ==> all_agree_at(cands, k),
        lcp_from(cands, i) < cands[0].len() ==> !all_agree_at(cands, lcp_from(cands, i) as int),
    decreases cands[0].len() - i,
{
    if i < cands[0].len() && all_agree_at(cands, i as int) {
        lemma_lcp_from_agree_below(cands, i + 1);
    }
}

/// Longest common prefix length of a set of candidate strings: 0 when no
/// candidates are given, the full length of a single candidate, otherwise
/// the first character position at which the candidates differ (candidates
/// of different lengths are tolerated: running out of characters counts as
/// a difference).
pub fn commonest_completion(matches: Vec<&str>) -> (r: usize)
    ensures
        r == lcp_len(matches.deep_view()),
{
    let ghost cands = matches.deep_view();
    if matches.len() == 0 {
        return 0;
    }
    let first: &str = matches[0];
    let n = first.unicode_len();
    proof {
        lemma_lcp_from_bounds(cands, 0);
    }
    let mut i: usize = 0;
    while i < n
        invariant
            matches.len() > 0,
            cands == matches.deep_view(),
            cands.len() == matches.len(),
            first@ == cands[0],
            n == first@.len(),
            i <= n,
            lcp_len(cands) == lcp_from(cands, i as nat),
        decreases n - i,
    {
        let c = first.get_char(i);
        let mut j: usize = 1;
        while j < matches.len()
            invariant
                matches.len() > 0,
                cands == matches.deep_view(),
                cands.len() == matches.len(),
                first@ == cands[0],
                n == first@.len(),
                i < n,
                c == cands[0][i as int],
                lcp_len(cands) == lcp_from(cands, i as nat),
                1 <= j <= matches.len(),
                forall|k: int|
                    1 <= k < j ==> i < #[trigger] cands[k].len() && cands[k][i as int]
                        == cands[0][i as int],
            decreases matches.len() - j,
        {
            let cand: &str = matches[j];
            assert(cand@ == cands[j as int]);
            if cand.unicode_len() <= i {
                proof {
                    assert(!all_agree_at(cands, i as int));
                    lemma_lcp_from_stop(cands, i as nat);
                }
                return i;
            }
            if cand.get_char(i) != c {
                proof {
                    assert(!all_agree_at(cands, i as int));
                    lemma_lcp_from_stop(cands, i as nat);
                }
                return i;
            }
            j += 1;
        }
        proof {
            assert(all_agree_at(cands, i as int));
            lemma_lcp_from_step(cands, i as nat);
        }
        i += 1;
    }
    proof {
        lemma_lcp_from_stop(cands, n as nat);
    }
    n
}

} // verus!
