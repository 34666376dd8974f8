//! Unsigned integers in decimal notation, as ASCII bytes.

use vstd::prelude::*;

verus! {

/// The decimal notation of `n`: most significant digit first, no leading
/// zero, and the single digit `0` for zero.
pub open spec fn digits(n: nat) -> Seq<u8>
    decreases n,
{
    if n < 10 {
        seq![(48 + n) as u8]
    } else {
        digits(n / 10).push((48 + n % 10) as u8)
    }
}

/// Whether a byte is one of the ASCII digits.
pub open spec fn is_digit(b: u8) -> bool {
    48 <= b <= 57
}

/// The number that a run of ASCII digits denotes.
pub open spec fn value(text: Seq<u8>) -> nat
    decreases text.len(),
{
    if text.len() == 0 {
        0
    } else {
        value(text.drop_last()) * 10 + (text.last() - 48) as nat
    }
}

/// Decimal notation consists of digits only, at least one, and starts
/// with `0` only for the number zero.
pub proof fn lemma_digits_shape(n: nat)
    ensures
        digits(n).len() >= 1,
        forall|k: int| 0 <= k < digits(n).len() ==> is_digit(#[trigger] digits(n)[k]),
        digits(n)[0] == 48 <==> n == 0,
    decreases n,
{
    if n >= 10 {
        lemma_digits_shape(n / 10);
    }
}

/// Reading decimal notation gives the number back, so two numbers with the
/// same notation are the same number.
pub proof fn lemma_digits_value(n: nat)
    ensures
        value(digits(n)) == n,
    decreases n,
{
    if n < 10 {
        let d = digits(n);
        assert(d.drop_last() =~= Seq::<u8>::empty());
        assert(value(d.drop_last()) == 0);
    } else {
        lemma_digits_value(n / 10);
        let d = digits(n);
        assert(d.drop_last() =~= digits(n / 10));
    }
}

/// Appends the decimal notation of `n`.
pub fn push_decimal(out: &mut Vec<u8>, n: u32)
    ensures
        final(out)@ == old(out)@ + digits(n as nat),
    decreases n,
{
    if n >= 10 {
        push_decimal(out, n / 10);
    }
    let d: u8 = (n % 10) as u8;
    out.push(48 + d);
    assert(out@ =~= old(out)@ + digits(n as nat));
}

} // verus!
