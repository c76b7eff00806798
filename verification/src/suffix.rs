//! The shared suffix: the bytes appended to every echoed message.
//!
//! The suffix names the serving process: `": from "`, the process identifier
//! in decimal, and a line feed. It is built once and never changed.

use vstd::prelude::*;

verus! {

/// The code of the digit `d` in ASCII.
pub open spec fn digit(d: nat) -> u8
    recommends
        d < 10,
{
    (48 + d) as u8
}

/// The decimal digits of `n`, most significant first, in ASCII.
pub open spec fn decimal(n: nat) -> Seq<u8>
    decreases n,
{
    if n < 10 {
        seq![digit(n)]
    } else {
        decimal(n / 10).push(digit(n % 10))
    }
}

/// The number that a string of ASCII digits stands for.
pub open spec fn value(digits: Seq<u8>) -> int
    decreases digits.len(),
{
    if digits.len() == 0 {
        0
    } else {
        10 * value(digits.drop_last()) + (digits.last() - 48)
    }
}

/// The bytes of `": from "`.
pub open spec fn prefix() -> Seq<u8> {
    seq![58u8, 32u8, 102u8, 114u8, 111u8, 109u8, 32u8]
}

/// The suffix of the process `pid`: `": from "`, `pid` in decimal, line feed.
pub open spec fn suffix_of(pid: u32) -> Seq<u8> {
    prefix() + decimal(pid as nat) + seq![10u8]
}

/// `decimal` writes numbers the usual way: at least one digit, nothing but
/// digits, no leading zero except for zero itself, and the digits read back
/// as the number.
pub proof fn lemma_decimal_is_canonical(n: nat)
    ensures
        decimal(n).len() >= 1,
        forall|i: int| 0 <= i < decimal(n).len() ==> 48 <= #[trigger] decimal(n)[i] <= 57,
        decimal(n)[0] == 48 <==> n == 0,
        value(decimal(n)) == n,
    decreases n,
{
    if n < 10 {
        assert(decimal(n).drop_last() =~= Seq::<u8>::empty());
        assert(value(decimal(n).drop_last()) == 0);
    } else {
        lemma_decimal_is_canonical(n / 10);
        let high = decimal(n / 10);
        assert(decimal(n).drop_last() =~= high);
        assert(decimal(n)[0] == high[0]);
        assert forall|i: int| 0 <= i < decimal(n).len() implies 48 <= #[trigger] decimal(n)[i]
            <= 57 by {
            if i < high.len() {
                assert(decimal(n)[i] == high[i]);
            }
        }
    }
}

/// A 32-bit number has at most ten decimal digits.
pub proof fn lemma_decimal_is_short(n: nat)
    ensures
        n < 10 ==> decimal(n).len() == 1,
        n < 100 ==> decimal(n).len() <= 2,
        n < 1_000 ==> decimal(n).len() <= 3,
        n < 10_000 ==> decimal(n).len() <= 4,
        n < 100_000 ==> decimal(n).len() <= 5,
        n < 1_000_000 ==> decimal(n).len() <= 6,
        n < 10_000_000 ==> decimal(n).len() <= 7,
        n < 100_000_000 ==> decimal(n).len() <= 8,
        n < 1_000_000_000 ==> decimal(n).len() <= 9,
        n < 10_000_000_000 ==> decimal(n).len() <= 10,
    decreases n,
{
    if n >= 10 {
        lemma_decimal_is_short(n / 10);
    }
}

/// Appends the decimal digits of `n` to `out`.
pub fn push_decimal(out: &mut Vec<u8>, n: u32)
    ensures
        final(out)@ == old(out)@ + decimal(n as nat),
    decreases n,
{
    if n >= 10 {
        push_decimal(out, n / 10);
    }
    let low: u32 = n % 10;
    out.push(48u8 + low as u8);
    proof {
        if n < 10 {
            assert(old(out)@.push(digit(n as nat)) =~= old(out)@ + decimal(n as nat));
        } else {
            assert((old(out)@ + decimal((n / 10) as nat)).push(digit((n % 10) as nat)) =~= old(
                out,
            )@ + decimal(n as nat));
        }
    }
}

/// The suffix that the process `pid` appends to everything it echoes.
pub fn suffix(pid: u32) -> (bytes: Vec<u8>)
    ensures
        bytes@ == suffix_of(pid),
        8 < bytes@.len() <= 18,
{
    let mut bytes: Vec<u8> = Vec::new();
    bytes.push(58u8);
    bytes.push(32u8);
    bytes.push(102u8);
    bytes.push(114u8);
    bytes.push(111u8);
    bytes.push(109u8);
    bytes.push(32u8);
    assert(bytes@ =~= prefix());
    push_decimal(&mut bytes, pid);
    bytes.push(10u8);
    proof {
        lemma_decimal_is_canonical(pid as nat);
        lemma_decimal_is_short(pid as nat);
        assert(bytes@ =~= suffix_of(pid));
    }
    bytes
}

} // verus!
