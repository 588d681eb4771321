//! Conversion of a raw token into a natural number, as required by
//! `NaturalNum` argument slots: an optional leading plus sign followed by
//! decimal digits, with values limited to what fits in a `u32`.

use vstd::prelude::*;

verus! {

/// `c` is an ASCII decimal digit.
pub open spec fn is_digit(c: char) -> bool {
    48 <= c as u32 <= 57
}

/// Numeric value of a digit character.
pub open spec fn digit_val(c: char) -> int {
    c as u32 - 48
}

/// Value of a digit string, most significant digit first.
pub open spec fn digits_val(s: Seq<char>) -> int
    decreases s.len(),
{
    if s.len() == 0 {
        0
    } else {
        digits_val(s.take(s.len() - 1)) * 10 + digit_val(s[s.len() - 1])
    }
}

/// The digit portion of a numeric token: an optional leading plus sign is
/// skipped.
pub open spec fn nat_digits(s: Seq<char>) -> Seq<char> {
    if s.len() > 0 && s[0] == '+' {
        s.skip(1)
    } else {
        s
    }
}

/// The token denotes a natural number that fits in a `u32`: an optional
/// leading plus sign followed by one or more decimal digits.
pub open spec fn is_nat_token(s: Seq<char>) -> bool {
    let d = nat_digits(s);
    &&& d.len() > 0
    &&& forall|i: int| 0 <= i < d.len() ==> is_digit(#[trigger] d[i])
    &&& digits_val(d) <= u32::MAX
}

proof fn lemma_digits_val_nonneg(s: Seq<char>)
    requires
        forall|i: int| 0 <= i < s.len() ==> is_digit(#[trigger] s[i]),
    ensures
        digits_val(s) >= 0,
    decreases s.len(),
{
    if s.len() > 0 {
        let t = s.take(s.len() - 1);
        assert(forall|i: int| 0 <= i < t.len() ==> t[i] == s[i]);
        lemma_digits_val_nonneg(t);
    }
}

proof fn lemma_digits_val_take_le(s: Seq<char>, k: int)
    requires
        forall|i: int| 0 <= i < s.len() ==> is_digit(#[trigger] s[i]),
        0 <= k <= s.len(),
    ensures
        digits_val(s.take(k)) <= digits_val(s),
    decreases s.len() - k,
{
    if k == s.len() {
        assert(s.take(k) =~= s);
    } else {
        let t = s.take(k + 1);
        assert(t.take(k) =~= s.take(k));
        assert(t[k] == s[k]);
        assert(digits_val(t) == digits_val(s.take(k)) * 10 + digit_val(s[k]));
        assert(forall|i: int| 0 <= i < s.take(k).len() ==> is_digit(#[trigger] s.take(k)[i]));
        lemma_digits_val_nonneg(s.take(k));
        lemma_digits_val_take_le(s, k + 1);
    }
}

/// Parses a token as a non-negative integer.  Returns `Some` exactly when
/// the token is an optional plus sign followed by one or more decimal
/// digits whose value fits in a `u32`; the returned value is that number.
pub fn parse_natural(tok: &str) -> (r: Option<u32>)
    ensures
        r is Some <==> is_nat_token(tok@),
        r matches Some(v) ==> v == digits_val(nat_digits(tok@)),
{
    let n = tok.unicode_len();
    let mut i: usize = 0;
    if n > 0 && tok.get_char(0) == '+' {
        i = 1;
    }
    let ghost d = nat_digits(tok@);
    proof {
        assert(d =~= tok@.skip(i as int));
    }
    if i == n {
        return None;
    }
    let mut val: u64 = 0;
    let mut j = i;
    while j < n
        invariant
            i <= j <= n,
            i < n,
            n == tok@.len(),
            d == nat_digits(tok@),
            d == tok@.skip(i as int),
            d.len() == n - i,
            forall|m: int| 0 <= m < j - i ==> is_digit(#[trigger] d[m]),
            val <= u32::MAX,
            val == digits_val(d.take(j - i)),
        decreases n - j,
    {
        let c = tok.get_char(j);
        proof {
            assert(d[j - i] == tok@[j as int]);
        }
        let cv = c as u32;
        if cv < 48 || cv > 57 {
            proof {
                assert(!is_digit(nat_digits(tok@)[j - i]));
                assert(!is_nat_token(tok@));
            }
            return None;
        }
        let dv = (cv - 48) as u64;
        val = val * 10 + dv;
        proof {
            let k = j - i;
            let t = d.take(k + 1);
            assert(t.take(k) =~= d.take(k));
            assert(t[k] == d[k]);
            assert(digits_val(t) == digits_val(d.take(k)) * 10 + digit_val(d[k]));
        }
        if val > u32::MAX as u64 {
            proof {
                if forall|m: int| 0 <= m < d.len() ==> is_digit(#[trigger] d[m]) {
                    lemma_digits_val_take_le(d, j - i + 1);
                    assert(digits_val(nat_digits(tok@)) > u32::MAX);
                } else {
                    let m = choose|m: int| 0 <= m < d.len() && !is_digit(#[trigger] d[m]);
                    assert(!is_digit(nat_digits(tok@)[m]));
                }
                assert(!is_nat_token(tok@));
            }
            return None;
        }
        j += 1;
    }
    proof {
        assert(d.take(n - i) =~= d);
    }
    Some(val as u32)
}

} // verus!
