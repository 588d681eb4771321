//! Whitespace tokenization of the input buffer: a submitted line is split
//! on runs of whitespace, and completion triggers on a buffer that ends in
//! a whitespace character.

use vstd::prelude::*;

verus! {

/// The whitespace characters on which the buffer is split.
pub open spec fn is_space_char(c: char) -> bool {
    c == ' ' || c == '\t' || c == '\n' || c == '\r'
}

/// Executable test for [`is_space_char`].
pub fn is_space(c: char) -> (r: bool)
    ensures
        r == is_space_char(c),
{
    c == ' ' || c == '\t' || c == '\n' || c == '\r'
}

/// Length of the leading run of non-whitespace characters.
pub open spec fn leading_word_len(s: Seq<char>) -> nat
    decreases s.len(),
{
    if s.len() == 0 || is_space_char(s[0]) {
        0
    } else {
        (1 + leading_word_len(s.skip(1))) as nat
    }
}

/// The tokens of `s`: the maximal runs of non-whitespace characters, in
/// order.
pub open spec fn tokens_of(s: Seq<char>) -> Seq<Seq<char>>
    decreases s.len(),
    via tokens_of_decreases
{
    if s.len() == 0 {
        Seq::empty()
    } else if is_space_char(s[0]) {
        tokens_of(s.skip(1))
    } else {
        seq![s.take(leading_word_len(s) as int)] + tokens_of(s.skip(leading_word_len(s) as int))
    }
}

#[via_fn]
proof fn tokens_of_decreases(s: Seq<char>) {
    if s.len() > 0 && !is_space_char(s[0]) {
        assert(leading_word_len(s) == 1 + leading_word_len(s.skip(1)));
        lemma_leading_word_len_le(s);
    }
}

proof fn lemma_leading_word_len_le(s: Seq<char>)
    ensures
        leading_word_len(s) <= s.len(),
    decreases s.len(),
{
    if s.len() > 0 && !is_space_char(s[0]) {
        lemma_leading_word_len_le(s.skip(1));
    }
}

/// The leading word ends exactly at the first whitespace character (or at
/// the end of the string).
proof fn lemma_leading_word_len_is(s: Seq<char>, k: nat)
    requires
        k <= s.len(),
        forall|m: int| 0 <= m < k ==> !is_space_char(#[trigger] s[m]),
        k == s.len() || is_space_char(s[k as int]),
    ensures
        leading_word_len(s) == k,
    decreases s.len(),
{
    if s.len() == 0 {
    } else if is_space_char(s[0]) {
        assert(k == 0);
    } else {
        assert(k >= 1);
        let t = s.skip(1);
        assert(forall|m: int| 0 <= m < k - 1 ==> !is_space_char(#[trigger] t[m])) by {
            assert(forall|m: int| 0 <= m < k - 1 ==> t[m] == s[m + 1]);
        }
        if k < s.len() {
            assert(t[k - 1] == s[k as int]);
        }
        lemma_leading_word_len_is(t, (k - 1) as nat);
    }
}

proof fn lemma_tokens_space_step(s: Seq<char>, i: int)
    requires
        0 <= i < s.len(),
        is_space_char(s[i]),
    ensures
        tokens_of(s.skip(i)) == tokens_of(s.skip(i + 1)),
{
    let r = s.skip(i);
    assert(r[0] == s[i]);
    assert(r.skip(1) =~= s.skip(i + 1));
}

proof fn lemma_tokens_word_step(s: Seq<char>, i: int, end: int)
    requires
        0 <= i < s.len(),
        !is_space_char(s[i]),
        i < end <= s.len(),
        forall|m: int| i <= m < end ==> !is_space_char(#[trigger] s[m]),
        end == s.len() || is_space_char(s[end]),
    ensures
        tokens_of(s.skip(i)) == seq![s.subrange(i, end)] + tokens_of(s.skip(end)),
{
    let r = s.skip(i);
    assert(r[0] == s[i]);
    assert(forall|m: int| 0 <= m < end - i ==> #[trigger] r[m] == s[m + i]);
    if end < s.len() {
        assert(r[end - i] == s[end]);
    }
    lemma_leading_word_len_is(r, (end - i) as nat);
    assert(r.take(end - i) =~= s.subrange(i, end));
    assert(r.skip(end - i) =~= s.skip(end));
}

/// Splits `s` into its whitespace-delimited tokens.
pub fn tokenize(s: &str) -> (toks: Vec<String>)
    ensures
        toks.deep_view() == tokens_of(s@),
{
    let n = s.unicode_len();
    let mut toks: Vec<String> = Vec::new();
    let mut i: usize = 0;
    proof {
        assert(s@.skip(0) =~= s@);
        assert(toks.deep_view() =~= Seq::<Seq<char>>::empty());
    }
    while i < n
        invariant
            i <= n,
            n == s@.len(),
            tokens_of(s@) == toks.deep_view() + tokens_of(s@.skip(i as int)),
        decreases n - i,
    {
        if is_space(s.get_char(i)) {
            proof {
                lemma_tokens_space_step(s@, i as int);
            }
            i += 1;
        } else {
            let start = i;
            i += 1;
            while i < n && !is_space(s.get_char(i))
                invariant
                    start < i <= n,
                    n == s@.len(),
                    forall|m: int| start <= m < i ==> !is_space_char(#[trigger] s@[m]),
                decreases n - i,
            {
                i += 1;
            }
            let tok: String = s.substring_char(start, i).to_owned();
            proof {
                lemma_tokens_word_step(s@, start as int, i as int);
                assert(tok@ == s@.subrange(start as int, i as int));
            }
            let ghost old_dv = toks.deep_view();
            toks.push(tok);
            proof {
                assert(toks.deep_view() =~= old_dv.push(tok@));
                assert(old_dv + (seq![s@.subrange(start as int, i as int)] + tokens_of(
                    s@.skip(i as int),
                )) =~= (old_dv + seq![s@.subrange(start as int, i as int)]) + tokens_of(
                    s@.skip(i as int),
                ));
                assert(old_dv.push(tok@) =~= old_dv + seq![s@.subrange(start as int, i as int)]);
            }
        }
    }
    proof {
        assert(tokens_of(s@.skip(n as int)) =~= Seq::<Seq<char>>::empty());
        assert(toks.deep_view() + tokens_of(s@.skip(n as int)) =~= toks.deep_view());
    }
    toks
}

} // verus!
