//! Decimal numerals as bytes: rendering a length for the `Content-Length`
//! header and reading one back from a request.

use vstd::prelude::*;

verus! {

/// The decimal digits of `n`, most significant first, no sign and no
/// leading zero (except for `n == 0` itself).
pub open spec fn dec_digits(n: nat) -> Seq<u8>
    decreases n,
{
    if n < 10 {
        seq![(48 + n) as u8]
    } else {
        dec_digits(n / 10).push((48 + n % 10) as u8)
    }
}

/// Renders `n` in decimal.
pub fn to_decimal(n: usize) -> (r: Vec<u8>)
    ensures
        r@ == dec_digits(n as nat),
    decreases n,
{
    if n < 10 {
        let mut r: Vec<u8> = Vec::new();
        r.push(48 + n as u8);
        assert(r@ =~= dec_digits(n as nat));
        r
    } else {
        let mut r = to_decimal(n / 10);
        r.push(48 + (n % 10) as u8);
        assert(r@ =~= dec_digits(n as nat));
        r
    }
}

/// True when `s` is one or more ASCII digits.
pub open spec fn is_digits(s: Seq<u8>) -> bool {
    s.len() > 0 && (forall|i: int| 0 <= i < s.len() ==> 48 <= #[trigger] s[i] <= 57)
}

/// The number that the digit string `s` denotes.
pub open spec fn dec_value(s: Seq<u8>) -> nat
    recommends
        is_digits(s),
    decreases s.len(),
{
    if s.len() == 0 {
        0
    } else {
        dec_value(s.drop_last()) * 10 + ((s.last() - 48) as nat)
    }
}

/// Appending digits never shrinks the value a digit string denotes.
proof fn lemma_dec_value_grows(s: Seq<u8>, i: int, j: int)
    requires
        0 <= i <= j <= s.len(),
        forall|k: int| 0 <= k < s.len() ==> 48 <= #[trigger] s[k] <= 57,
    ensures
        dec_value(s.take(j)) >= dec_value(s.take(i)),
    decreases j - i,
{
    if i < j {
        lemma_dec_value_grows(s, i, j - 1);
        assert(s.take(j).drop_last() =~= s.take(j - 1));
        assert(dec_value(s.take(j)) == dec_value(s.take(j - 1)) * 10 + ((s.take(j).last()
            - 48) as nat));
    }
}

/// Parses a decimal digit string. Returns `None` when the string is empty,
/// holds a byte that is no digit, or denotes a number above `usize::MAX`.
#[verifier::loop_isolation(false)]
pub fn parse_decimal(s: &Vec<u8>) -> (r: Option<usize>)
    ensures
        match r {
            Some(v) => is_digits(s@) && v as nat == dec_value(s@),
            None => !is_digits(s@) || dec_value(s@) > usize::MAX,
        },
{
    if s.len() == 0 {
        return None;
    }
    let mut acc: usize = 0;
    let mut i: usize = 0;
    while i < s.len()
        invariant
            0 <= i <= s.len(),
            forall|k: int| 0 <= k < i ==> 48 <= #[trigger] s@[k] <= 57,
            acc as nat == dec_value(s@.take(i as int)),
        decreases s.len() - i,
    {
        let b = s[i];
        if b < 48 || b > 57 {
            return None;
        }
        let d = (b - 48) as usize;
        if acc > (usize::MAX - d) / 10 {
            proof {
                assert(acc * 10 + d > usize::MAX) by (nonlinear_arith)
                    requires
                        acc > (usize::MAX - d) / 10,
                        0 <= d <= 9,
                ;
                assert(s@.take(i + 1).drop_last() =~= s@.take(i as int));
                assert(dec_value(s@.take(i + 1)) == acc * 10 + d);
                if is_digits(s@) {
                    lemma_dec_value_grows(s@, i + 1, s@.len() as int);
                    assert(s@.take(s@.len() as int) =~= s@);
                }
            }
            return None;
        }
        proof {
            assert(acc * 10 + d <= usize::MAX) by (nonlinear_arith)
                requires
                    acc <= (usize::MAX - d) / 10,
                    0 <= d <= 9,
            ;
            assert(s@.take(i + 1).drop_last() =~= s@.take(i as int));
        }
        acc = acc * 10 + d;
        i = i + 1;
    }
    assert(s@.take(s@.len() as int) =~= s@);
    Some(acc)
}

} // verus!
